use oxidicom::scp::{
    AbortReason, AssociationHandler, Command, Pdv, PresentationContext, Step, ValueType, C_ECHO_RQ,
    C_STORE_RQ,
};

fn handler() -> AssociationHandler {
    AssociationHandler::new(vec![PresentationContext { id: 1, transfer_syntax: "1.2.840.10008.1.2".to_string() }])
}

fn pdv(value_type: ValueType, is_last: bool, data: &[u8]) -> Pdv {
    Pdv { context_id: 1, value_type, is_last, data: data.to_vec() }
}

fn store_command() -> Command {
    Command {
        command_field: C_STORE_RQ,
        message_id: Some(9),
        affected_sop_class_uid: Some("1.2.840.10008.5.1.4.1.1.4".to_string()),
        affected_sop_instance_uid: Some("1.2.3".to_string()),
    }
}

#[test]
fn echo_only() {
    let mut h = handler();
    assert!(matches!(h.on_pdv(pdv(ValueType::Command, true, &[1, 2])), Step::ReadCommand { context_id: 1, .. }));
    let cmd = Command { command_field: C_ECHO_RQ, message_id: Some(3), affected_sop_class_uid: None, affected_sop_instance_uid: None };
    assert!(matches!(h.on_command(1, cmd), Step::EchoResponse { context_id: 1, message_id: 3 }));
    assert!(matches!(h.on_release(), Step::Release { complete: true }));
}

#[test]
fn store_reassembles_fragments() {
    let mut h = handler();
    assert!(matches!(h.on_pdv(pdv(ValueType::Command, false, &[1])), Step::Nothing));
    match h.on_pdv(pdv(ValueType::Command, true, &[2])) {
        Step::ReadCommand { bytes, .. } => assert_eq!(bytes, vec![1, 2]),
        _ => panic!("expected a command to read"),
    }
    assert!(matches!(h.on_command(1, store_command()), Step::Nothing));
    assert!(matches!(h.on_pdv(pdv(ValueType::Data, false, &[10, 11])), Step::Nothing));
    match h.on_pdv(pdv(ValueType::Data, true, &[12])) {
        Step::Instance(i) => {
            assert_eq!(i.data, vec![10, 11, 12]);
            assert_eq!(i.request.message_id, 9);
            assert_eq!(i.transfer_syntax, "1.2.840.10008.1.2");
        }
        _ => panic!("expected an instance"),
    }
}

#[test]
fn abort_mid_instance_drops_buffer() {
    let mut h = handler();
    h.on_pdv(pdv(ValueType::Command, true, &[1]));
    h.on_command(1, store_command());
    h.on_pdv(pdv(ValueType::Data, false, &[1, 2, 3]));
    assert!(matches!(h.on_abort(), Step::Finished { ok: false }));
    assert!(h.instance_buffer.is_empty());
    assert!(matches!(h.on_pdv(pdv(ValueType::Data, true, &[4])), Step::Nothing));
}

#[test]
fn unknown_context_and_stray_data_abort() {
    let mut h = handler();
    let p = Pdv { context_id: 3, value_type: ValueType::Command, is_last: true, data: vec![] };
    assert!(matches!(h.on_pdv(p), Step::Abort(AbortReason::UnknownContext(3))));
    let mut h = handler();
    assert!(matches!(h.on_pdv(pdv(ValueType::Data, true, &[1])), Step::Abort(AbortReason::UnexpectedFragment)));
    let mut h = handler();
    let cmd = Command { command_field: 0x0020, message_id: Some(1), affected_sop_class_uid: None, affected_sop_instance_uid: None };
    assert!(matches!(h.on_command(1, cmd), Step::Abort(AbortReason::UnsupportedCommand(0x0020))));
}

#[test]
fn closed_mid_instance_is_unclean() {
    let mut h = handler();
    h.on_command(1, store_command());
    assert!(matches!(h.on_closed(), Step::Finished { ok: false }));
    let mut h = handler();
    assert!(matches!(h.on_closed(), Step::Finished { ok: true }));
}
