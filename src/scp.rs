//! The decisions of the per-connection DICOM upper-layer handler once an
//! association is established: reassembling command and data fragments,
//! answering C-ECHO, handing over received instances, and ending the
//! association. Reading and writing PDUs and DICOM datasets is left to the
//! caller, which reports what arrived and carries out the returned step.
use vstd::prelude::*;

verus! {

/// Command field of a C-STORE-RQ.
pub const C_STORE_RQ: u16 = 0x0001;

/// Command field of a C-ECHO-RQ.
pub const C_ECHO_RQ: u16 = 0x0030;

/// Whether a presentation-data value carries a command or a dataset.
#[derive(Clone, Copy, Debug, PartialEq, Eq, Structural)]
pub enum ValueType {
    Command,
    Data,
}

/// One fragment of a message, as carried by a P-DATA-TF PDU.
pub struct Pdv {
    pub context_id: u8,
    pub value_type: ValueType,
    pub is_last: bool,
    pub data: Vec<u8>,
}

/// A negotiated presentation context.
pub struct PresentationContext {
    pub id: u8,
    pub transfer_syntax: String,
}

/// The fields of a DIMSE command that the handler reads; `None` where the
/// command lacks the element.
pub struct Command {
    pub command_field: u16,
    pub message_id: Option<u16>,
    pub affected_sop_class_uid: Option<String>,
    pub affected_sop_instance_uid: Option<String>,
}

/// Where the association stands.
#[derive(Clone, Copy, Debug, PartialEq, Eq, Structural)]
pub enum Phase {
    /// Waiting for a command.
    Negotiated,
    /// A C-STORE-RQ was accepted; its dataset is arriving.
    Receiving,
    /// The association is over.
    Terminal,
}

/// Why the handler aborts the association.
#[derive(Clone, Copy, Debug, PartialEq, Eq)]
pub enum AbortReason {
    /// A fragment names a presentation context that was not negotiated.
    UnknownContext(u8),
    /// A fragment that does not fit where the association stands.
    UnexpectedFragment,
    /// A command that the handler does not serve.
    UnsupportedCommand(u16),
    /// A C-ECHO-RQ or C-STORE-RQ without a required element.
    IncompleteCommand,
    /// The caller reported a PDU that cannot be handled, or a framing,
    /// reading or transport error.
    ProtocolError,
}

/// A C-STORE-RQ accepted and waiting for its dataset.
pub struct StoreRequest {
    pub context_id: u8,
    pub message_id: u16,
    pub sop_class_uid: String,
    pub sop_instance_uid: String,
}

/// A received instance: its dataset, the transfer syntax it is encoded
/// with, and the request to answer with a C-STORE-RSP (status success).
pub struct ReceivedInstance {
    pub request: StoreRequest,
    pub transfer_syntax: String,
    pub data: Vec<u8>,
}

/// What the caller is to do next.
pub enum Step {
    /// Nothing: wait for the next fragment or PDU.
    Nothing,
    /// Decode these bytes as a command (Implicit VR Little Endian) and
    /// report it with `on_command`.
    ReadCommand { context_id: u8, bytes: Vec<u8> },
    /// Send a C-ECHO-RSP with status success.
    EchoResponse { context_id: u8, message_id: u16 },
    /// Hand over the instance, then send its C-STORE-RSP.
    Instance(ReceivedInstance),
    /// Send A-RELEASE-RP; the association ends, cleanly when `complete`
    /// (no instance was cut short).
    Release { complete: bool },
    /// Send A-ABORT; the association ends with an error.
    Abort(AbortReason),
    /// The peer went away; the association ends, cleanly when `ok`.
    Finished { ok: bool },
}

/// Whether `id` names one of `contexts`.
pub open spec fn has_context(contexts: Seq<PresentationContext>, id: u8) -> bool {
    exists|i: int| 0 <= i < contexts.len() && (#[trigger] contexts[i]).id == id
}

/// State of one association.
pub struct AssociationHandler {
    pub contexts: Vec<PresentationContext>,
    pub phase: Phase,
    /// Fragments of the command being received, and their context.
    pub command_buffer: Vec<u8>,
    pub command_context: u8,
    /// Fragments of the dataset being received.
    pub instance_buffer: Vec<u8>,
    /// The C-STORE-RQ whose dataset is being received.
    pub store: Option<StoreRequest>,
}

impl AssociationHandler {
    /// The phase is `Receiving` exactly when a store request is pending.
    pub open spec fn wf(&self) -> bool {
        (self.phase == Phase::Receiving) == (self.store is Some)
    }

    /// The handler of a freshly established association.
    pub fn new(contexts: Vec<PresentationContext>) -> (r: AssociationHandler)
        ensures
            r.wf(),
            r.contexts@ == contexts@,
            r.phase == Phase::Negotiated,
            r.command_buffer@.len() == 0,
            r.instance_buffer@.len() == 0,
    {
        AssociationHandler {
            contexts,
            phase: Phase::Negotiated,
            command_buffer: Vec::new(),
            command_context: 0,
            instance_buffer: Vec::new(),
            store: None,
        }
    }

    fn find_context(&self, id: u8) -> (r: Option<usize>)
        ensures
            match r {
                Some(i) => i < self.contexts@.len() && self.contexts@[i as int].id == id,
                None => !has_context(self.contexts@, id),
            },
    {
        let mut i: usize = 0;
        while i < self.contexts.len()
            invariant
                i <= self.contexts@.len(),
                forall|j: int| 0 <= j < i ==> (#[trigger] self.contexts@[j]).id != id,
            decreases self.contexts@.len() - i,
        {
            if self.contexts[i].id == id {
                return Some(i);
            }
            i = i + 1;
        }
        None
    }

    /// Ends the association: buffers and any pending request are dropped.
    fn terminate(&mut self)
        ensures
            final(self).phase == Phase::Terminal,
            final(self).store is None,
            final(self).instance_buffer@.len() == 0,
            final(self).command_buffer@.len() == 0,
            final(self).contexts == old(self).contexts,
    {
        self.phase = Phase::Terminal;
        self.store = None;
        self.instance_buffer = Vec::new();
        self.command_buffer = Vec::new();
    }

    /// Handles one fragment of a P-DATA-TF PDU, in the order received.
    ///
    /// Fragments of a command are gathered until the last one, which asks
    /// for the command to be read. Fragments of a dataset are accepted only
    /// after a C-STORE-RQ on the same context, and gathered until the last
    /// one, which hands the instance over. A fragment on a context that was
    /// not negotiated, or that does not fit, aborts the association.
    pub fn on_pdv(&mut self, pdv: Pdv) -> (r: Step)
        requires
            old(self).wf(),
        ensures
            final(self).wf(),
            final(self).contexts == old(self).contexts,
            pdv_handled(*old(self), *final(self), pdv, r),
    {
        if self.phase == Phase::Terminal {
            return Step::Nothing;
        }
        let ctx = self.find_context(pdv.context_id);
        if ctx.is_none() {
            self.terminate();
            return Step::Abort(AbortReason::UnknownContext(pdv.context_id));
        }
        let ci = ctx.unwrap();
        let ghost g = pdv;
        let Pdv { context_id, value_type, is_last, data } = pdv;
        match value_type {
            ValueType::Command => {
                if self.phase == Phase::Receiving || (self.command_buffer.len() > 0
                    && self.command_context != context_id) {
                    self.terminate();
                    return Step::Abort(AbortReason::UnexpectedFragment);
                }
                let mut data = data;
                self.command_buffer.append(&mut data);
                self.command_context = context_id;
                if is_last {
                    let mut bytes: Vec<u8> = Vec::new();
                    bytes.append(&mut self.command_buffer);
                    Step::ReadCommand { context_id, bytes }
                } else {
                    Step::Nothing
                }
            },
            ValueType::Data => {
                let fits = match &self.store {
                    Some(req) => req.context_id == context_id,
                    None => false,
                };
                if !fits {
                    self.terminate();
                    return Step::Abort(AbortReason::UnexpectedFragment);
                }
                let mut data = data;
                self.instance_buffer.append(&mut data);
                if is_last {
                    let mut bytes: Vec<u8> = Vec::new();
                    bytes.append(&mut self.instance_buffer);
                    let request = self.store.take().unwrap();
                    self.phase = Phase::Negotiated;
                    let transfer_syntax = self.contexts[ci].transfer_syntax.clone();
                    Step::Instance(ReceivedInstance { request, transfer_syntax, data: bytes })
                } else {
                    Step::Nothing
                }
            },
        }
    }

    /// Handles a command that `ReadCommand` asked for, received on
    /// `context_id`: a C-ECHO-RQ is answered; a C-STORE-RQ with its message
    /// id and affected SOP class and instance UIDs starts the reception of
    /// its dataset; anything else aborts the association.
    pub fn on_command(&mut self, context_id: u8, command: Command) -> (r: Step)
        requires
            old(self).wf(),
        ensures
            final(self).wf(),
            final(self).contexts == old(self).contexts,
            command_handled(*old(self), *final(self), context_id, command, r),
    {
        if self.phase != Phase::Negotiated {
            return Step::Nothing;
        }
        if command.command_field == C_ECHO_RQ {
            match command.message_id {
                Some(id) => Step::EchoResponse { context_id, message_id: id },
                None => {
                    self.terminate();
                    Step::Abort(AbortReason::IncompleteCommand)
                },
            }
        } else if command.command_field == C_STORE_RQ {
            match (
                command.message_id,
                command.affected_sop_class_uid,
                command.affected_sop_instance_uid,
            ) {
                (Some(message_id), Some(sop_class_uid), Some(sop_instance_uid)) => {
                    self.store = Some(
                        StoreRequest { context_id, message_id, sop_class_uid, sop_instance_uid },
                    );
                    self.instance_buffer = Vec::new();
                    self.phase = Phase::Receiving;
                    Step::Nothing
                },
                _ => {
                    self.terminate();
                    Step::Abort(AbortReason::IncompleteCommand)
                },
            }
        } else {
            self.terminate();
            Step::Abort(AbortReason::UnsupportedCommand(command.command_field))
        }
    }

    /// The peer asked to release the association (A-RELEASE-RQ). A dataset
    /// cut short is dropped and makes the ending unclean.
    pub fn on_release(&mut self) -> (r: Step)
        requires
            old(self).wf(),
        ensures
            final(self).wf(),
            old(self).phase == Phase::Terminal ==> r is Nothing,
            old(self).phase != Phase::Terminal ==> r == (Step::Release {
                complete: old(self).phase == Phase::Negotiated,
            }),
            final(self).phase == Phase::Terminal,
            final(self).store is None,
    {
        if self.phase == Phase::Terminal {
            return Step::Nothing;
        }
        let complete = self.phase == Phase::Negotiated;
        self.terminate();
        Step::Release { complete }
    }

    /// The peer aborted (A-ABORT): the association ends with an error, and
    /// a dataset being received is dropped.
    pub fn on_abort(&mut self) -> (r: Step)
        requires
            old(self).wf(),
        ensures
            final(self).wf(),
            old(self).phase != Phase::Terminal ==> r == (Step::Finished { ok: false }),
            old(self).phase == Phase::Terminal ==> r is Nothing,
            final(self).phase == Phase::Terminal,
            final(self).store is None,
            old(self).phase != Phase::Terminal ==> final(self).instance_buffer@.len() == 0,
    {
        if self.phase == Phase::Terminal {
            return Step::Nothing;
        }
        self.terminate();
        Step::Finished { ok: false }
    }

    /// The connection was closed without a release: the association ends,
    /// cleanly unless a dataset was being received (it is dropped).
    pub fn on_closed(&mut self) -> (r: Step)
        requires
            old(self).wf(),
        ensures
            final(self).wf(),
            old(self).phase != Phase::Terminal ==> r == (Step::Finished {
                ok: old(self).phase == Phase::Negotiated,
            }),
            old(self).phase == Phase::Terminal ==> r is Nothing,
            final(self).phase == Phase::Terminal,
            final(self).store is None,
    {
        if self.phase == Phase::Terminal {
            return Step::Nothing;
        }
        let ok = self.phase == Phase::Negotiated;
        self.terminate();
        Step::Finished { ok }
    }

    /// A PDU that cannot be handled here, or a framing, reading or transport
    /// error: the association is aborted.
    pub fn on_error(&mut self) -> (r: Step)
        requires
            old(self).wf(),
        ensures
            final(self).wf(),
            old(self).phase != Phase::Terminal ==> r == Step::Abort(AbortReason::ProtocolError),
            old(self).phase == Phase::Terminal ==> r is Nothing,
            final(self).phase == Phase::Terminal,
            final(self).store is None,
    {
        if self.phase == Phase::Terminal {
            return Step::Nothing;
        }
        self.terminate();
        Step::Abort(AbortReason::ProtocolError)
    }
}

/// What handling a fragment does, from the handler `h` to `h2`, returning `r`.
pub open spec fn pdv_handled(h: AssociationHandler, h2: AssociationHandler, pdv: Pdv, r: Step) -> bool {
    if h.phase == Phase::Terminal {
        r is Nothing && h2.phase == Phase::Terminal
    } else if !has_context(h.contexts@, pdv.context_id) {
        r == Step::Abort(AbortReason::UnknownContext(pdv.context_id)) && h2.phase == Phase::Terminal
            && h2.store is None && h2.instance_buffer@.len() == 0
    } else if pdv.value_type == ValueType::Data {
        if h.store is Some && h.store.unwrap().context_id == pdv.context_id {
            if pdv.is_last {
                &&& h2.phase == Phase::Negotiated
                &&& h2.instance_buffer@.len() == 0
                &&& match r {
                    Step::Instance(inst) => inst.data@ == h.instance_buffer@ + pdv.data@
                        && h.store == Some(inst.request) && exists|k: int|
                        0 <= k < h.contexts@.len() && (#[trigger] h.contexts@[k]).id == pdv.context_id
                            && inst.transfer_syntax == h.contexts@[k].transfer_syntax,
                    _ => false,
                }
            } else {
                r is Nothing && h2.phase == Phase::Receiving && h2.store == h.store
                    && h2.instance_buffer@ == h.instance_buffer@ + pdv.data@
            }
        } else {
            r == Step::Abort(AbortReason::UnexpectedFragment) && h2.phase == Phase::Terminal
        }
    } else {
        if h.phase == Phase::Receiving || (h.command_buffer@.len() > 0 && h.command_context
            != pdv.context_id) {
            r == Step::Abort(AbortReason::UnexpectedFragment) && h2.phase == Phase::Terminal
        } else {
            &&& h2.phase == h.phase
            &&& h2.instance_buffer == h.instance_buffer
            &&& h2.store == h.store
            &&& if pdv.is_last {
                h2.command_buffer@.len() == 0 && match r {
                    Step::ReadCommand { context_id, bytes } => context_id == pdv.context_id
                        && bytes@ == h.command_buffer@ + pdv.data@,
                    _ => false,
                }
            } else {
                r is Nothing && h2.command_buffer@ == h.command_buffer@ + pdv.data@
            }
        }
    }
}

/// What handling a command does, from the handler `h` to `h2`, returning `r`.
pub open spec fn command_handled(
    h: AssociationHandler,
    h2: AssociationHandler,
    context_id: u8,
    command: Command,
    r: Step,
) -> bool {
    if h.phase != Phase::Negotiated {
        r is Nothing && h2.phase == h.phase
    } else if command.command_field == C_ECHO_RQ {
        match command.message_id {
            Some(id) => r == (Step::EchoResponse { context_id, message_id: id }) && h2.phase
                == Phase::Negotiated && h2.store is None && h2.instance_buffer == h.instance_buffer,
            None => r == Step::Abort(AbortReason::IncompleteCommand) && h2.phase == Phase::Terminal,
        }
    } else if command.command_field == C_STORE_RQ {
        if command.message_id is Some && command.affected_sop_class_uid is Some
            && command.affected_sop_instance_uid is Some {
            &&& r is Nothing
            &&& h2.phase == Phase::Receiving
            &&& h2.instance_buffer@.len() == 0
            &&& h2.store == Some(
                StoreRequest {
                    context_id,
                    message_id: command.message_id.unwrap(),
                    sop_class_uid: command.affected_sop_class_uid.unwrap(),
                    sop_instance_uid: command.affected_sop_instance_uid.unwrap(),
                },
            )
        } else {
            r == Step::Abort(AbortReason::IncompleteCommand) && h2.phase == Phase::Terminal
        }
    } else {
        r == Step::Abort(AbortReason::UnsupportedCommand(command.command_field)) && h2.phase
            == Phase::Terminal
    }
}

} // verus!

verus! {

/// A C-ECHO-RQ is answered and leaves no instance pending: a dataset
/// fragment that follows it aborts the association, so no instance can
/// come of it.
pub proof fn lemma_echo_only(
    h: AssociationHandler,
    h2: AssociationHandler,
    h3: AssociationHandler,
    context_id: u8,
    command: Command,
    r: Step,
    pdv: Pdv,
    r2: Step,
)
    requires
        h.phase == Phase::Negotiated,
        command.command_field == C_ECHO_RQ,
        command.message_id is Some,
        command_handled(h, h2, context_id, command, r),
        pdv.value_type == ValueType::Data,
        pdv_handled(h2, h3, pdv, r2),
    ensures
        r == (Step::EchoResponse { context_id, message_id: command.message_id.unwrap() }),
        !(r2 is Instance),
{
}

} // verus!
