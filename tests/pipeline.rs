use oxidicom::keyed_map::SeriesMap;
use oxidicom::limiter::{route, LockError, Route, SubjectLimiter};
use oxidicom::lonk::LonkMessage;
use oxidicom::messenger::{create_messages_for, LonkPriority, PublishLonkParams, Registration};
use oxidicom::pacs_file::{pacs_file_of, DicomTag, DicomTags, RequiredTagError};
use oxidicom::synchronizer::SeriesSynchronizer;
use oxidicom::tracker::{AssociationEvent, PendingInstance, SeriesTracker};
use oxidicom::types::{AETitle, SeriesEvent, SeriesKey};

fn tags(series_uid: &str, sop_uid: &str, instance: u32) -> DicomTags {
    DicomTags {
        study_instance_uid: Some("1.2.826.0.1.3680043.8.498.1".to_string()),
        series_instance_uid: Some(series_uid.to_string()),
        sop_instance_uid: Some(sop_uid.to_string()),
        patient_id: Some("12345678".to_string()),
        study_date: Some("20200418".to_string()),
        patient_name: Some("Alice Bar".to_string()),
        patient_birth_date: Some("19900202".to_string()),
        patient_age: Some("030Y".to_string()),
        study_description: Some("I love brains".to_string()),
        accession_number: Some("123ABC".to_string()),
        series_description: Some("Brain Scan".to_string()),
        series_number: Some("3".to_string()),
        instance_number: Some(instance.to_string()),
        modality: Some("MR".to_string()),
        ..Default::default()
    }
}

fn hash7(uid: &str) -> String {
    let h = format!("{:x}", seahash::hash(uid.as_bytes()));
    h.chars().take(7).collect()
}

#[test]
fn storage_path_layout() {
    let uid = "1.2.840.1";
    let (f, bad) = pacs_file_of(AETitle::new("MY PACS".to_string()), &tags(uid, "1.2.3.4", 7)).unwrap();
    assert!(bad.is_empty());
    let dir = format!(
        "SERVICES/PACS/MY_PACS/12345678-Alice_Bar-19900202/I_love_brains-123ABC-20200418/00003-Brain_Scan-{}",
        hash7(uid)
    );
    assert_eq!(f.info.path, dir);
    assert_eq!(f.file_path, format!("{}/0007-1.2.3.4.dcm", dir));
    assert_eq!(f.info.patient_age, Some(10957));
    assert_eq!(f.info.study_date_iso(), "2020-04-18");
    assert_eq!(f.info.series_instance_uid, uid);
}

#[test]
fn storage_path_placeholders_and_allowed_chars() {
    let t = DicomTags {
        study_instance_uid: Some("1".to_string()),
        series_instance_uid: Some("2".to_string()),
        sop_instance_uid: Some("3/..\\x".to_string()),
        patient_id: Some("p*\0q".to_string()),
        study_date: Some("2020-01-02".to_string()),
        series_number: Some("a/b".to_string()),
        patient_age: Some("old".to_string()),
        ..Default::default()
    };
    let (f, bad) = pacs_file_of(AETitle::new("P".to_string()), &t).unwrap();
    assert_eq!(
        f.file_path,
        format!(
            "SERVICES/PACS/P/p_q-PatientName-PatientBirthDate/StudyDescription-AccessionNumber-2020-01-02/00a_b-SeriesDescription-{}/InstanceNumber-3_.._x.dcm",
            hash7("2")
        )
    );
    assert!(f.file_path.chars().all(|c| c.is_ascii_alphanumeric() || "._/-".contains(c)));
    assert_eq!(bad.len(), 1);
    assert_eq!(bad[0].tag, DicomTag::PatientAge);
    assert_eq!(f.info.patient_age, None);
    assert_eq!(f.info.patient_id, "p*q");
}

#[test]
fn required_tag_errors() {
    let mut t = tags("1.2", "1.3", 1);
    t.study_date = None;
    let e = pacs_file_of(AETitle::new("P".to_string()), &t).unwrap_err();
    assert_eq!(e, RequiredTagError::Missing(DicomTag::StudyDate));
    assert_eq!(e.message(), "DICOM file does not have the required tag: StudyDate");
    t.study_date = Some("yesterday".to_string());
    let e = pacs_file_of(AETitle::new("P".to_string()), &t).unwrap_err();
    assert!(matches!(&e, RequiredTagError::Bad(b) if b.tag == DicomTag::StudyDate));
    assert_eq!(e.message(), "Illegal value for tag StudyDate=\"yesterday\"");
    t.patient_id = None;
    assert_eq!(
        pacs_file_of(AETitle::new("P".to_string()), &t).unwrap_err(),
        RequiredTagError::Missing(DicomTag::PatientID)
    );
}

fn key(uid: &str, association: u128) -> SeriesKey {
    SeriesKey::new(uid.to_string(), AETitle::new("MESNGRTEST".to_string()), association)
}

#[test]
fn test_first_instance() {
    let mut counts = SeriesMap::new();
    let (lonks, reg) = create_messages_for(&mut counts, key("1.2", 1), SeriesEvent::Instance(Ok(())));
    assert!(reg.is_none());
    assert_eq!(lonks.len(), 1);
    assert_eq!(lonks[0].priority, LonkPriority::Required);
    assert_eq!(lonks[0].lonk.message, LonkMessage::Ndicom(1));
    assert_eq!(counts.get(&key("1.2", 1)).copied(), Some(1));
}

#[test]
fn test_middle_and_last_instance() {
    let mut counts = SeriesMap::new();
    counts.insert(key("1.2", 1), 41);
    let (lonks, reg) = create_messages_for(&mut counts, key("1.2", 1), SeriesEvent::Instance(Ok(())));
    assert!(reg.is_none());
    assert_eq!(lonks[0].priority, LonkPriority::Optional);
    assert_eq!(lonks[0].lonk.message, LonkMessage::Ndicom(42));
    let (f, _) = pacs_file_of(AETitle::new("MESNGRTEST".to_string()), &tags("1.2", "3", 1)).unwrap();
    let (lonks, reg) = create_messages_for(&mut counts, key("1.2", 1), SeriesEvent::Finish(f.info));
    assert_eq!(reg.map(|r| r.1), Some(42));
    assert!(counts.get(&key("1.2", 1)).is_none());
    assert_eq!(lonks.iter().map(|x| x.priority).collect::<Vec<_>>(), vec![LonkPriority::Required, LonkPriority::Last]);
    assert_eq!(lonks[0].lonk.message, LonkMessage::Ndicom(42));
    assert_eq!(lonks[1].lonk.message, LonkMessage::Done);
}

#[test]
fn test_error() {
    let mut counts = SeriesMap::new();
    let (lonks, reg) = create_messages_for(&mut counts, key("1.2", 1), SeriesEvent::Instance(Err("pretend error".to_string())));
    assert!(reg.is_none());
    assert_eq!(lonks.len(), 1);
    assert_eq!(lonks[0].priority, LonkPriority::Required);
    assert_eq!(lonks[0].lonk.message, LonkMessage::Error("pretend error".to_string()));
    assert!(counts.get(&key("1.2", 1)).is_none());
}

/// Everything downstream of the association events, with writes that
/// complete at once (`fail` says which instance numbers fail to store).
struct Pipeline {
    tracker: SeriesTracker,
    sync: SeriesSynchronizer,
    counts: SeriesMap<u32>,
    limiter: SubjectLimiter,
    published: Vec<(String, Vec<u8>)>,
    registrations: Vec<Registration>,
    writes: Vec<String>,
    now: u64,
}

impl Pipeline {
    fn new(interval: u64) -> Self {
        Pipeline {
            tracker: SeriesTracker::new(),
            sync: SeriesSynchronizer::new(),
            counts: SeriesMap::new(),
            limiter: SubjectLimiter::new(interval),
            published: vec![],
            registrations: vec![],
            writes: vec![],
            now: 1_000_000_000,
        }
    }

    fn publish(&mut self, p: PublishLonkParams) {
        match route(&mut self.limiter, "test", p, self.now) {
            Route::Publish { subject, payload, locked } => {
                self.published.push((subject.clone(), payload));
                if locked {
                    self.limiter.release(self.now, &subject);
                }
            }
            Route::Skip(LockError::TooSoon) | Route::Skip(LockError::Busy) => {}
            Route::Wait => panic!("nothing is in flight here"),
        }
    }

    fn messenger(&mut self, k: SeriesKey, e: oxidicom::messenger::StoredEvent) {
        let (lonks, reg) = create_messages_for(&mut self.counts, k, e);
        for l in lonks {
            self.publish(l);
        }
        if let Some(r) = reg {
            self.registrations.push(r);
        }
    }

    fn event(&mut self, e: AssociationEvent, store_ok: bool) {
        match self.tracker.match_event(e) {
            Ok(items) => {
                for (k, p) in items {
                    match p {
                        PendingInstance::Instance(path) => {
                            assert!(self.sync.instance_started(k.clone()));
                            let result = if store_ok {
                                self.writes.push(path);
                                Ok(())
                            } else {
                                Err("disk full".to_string())
                            };
                            for (k2, e2) in self.sync.instance_done(k, result) {
                                self.messenger(k2, e2);
                            }
                        }
                        SeriesEvent::Finish(info) => {
                            if let Some((k2, e2)) = self.sync.finish(k, info) {
                                self.messenger(k2, e2);
                            }
                        }
                    }
                }
            }
            Err(lonk) => self.publish(PublishLonkParams::required(lonk)),
        }
    }
}

fn start(p: &mut Pipeline, association: u128) {
    p.event(AssociationEvent::Start { association, aec: AETitle::new("PACS".to_string()) }, true);
}

#[test]
fn two_concurrent_series() {
    let s1 = "1.3.12.2.1107.5.2.19.45152.2013030808061520200285270.0.0.0";
    let s2 = "1.2.826.0.1.3680043.2.1143.515404396022363061013111326823367652";
    let mut p = Pipeline::new(1);
    start(&mut p, 1);
    start(&mut p, 2);
    for i in 0..384u32 {
        if i < 192 {
            p.event(AssociationEvent::Instance { association: 1, tags: tags(s1, &format!("1.{i}"), i) }, true);
        }
        p.event(AssociationEvent::Instance { association: 2, tags: tags(s2, &format!("2.{i}"), i) }, true);
        p.now += 1;
    }
    p.event(AssociationEvent::Finish { association: 1, ok: true }, true);
    p.event(AssociationEvent::Finish { association: 2, ok: true }, true);
    assert_eq!(p.writes.len(), 576);
    let mut counts: Vec<u32> = p.registrations.iter().map(|r| r.1).collect();
    counts.sort();
    assert_eq!(counts, vec![192, 384]);
    for uid in [s1, s2] {
        let subject = format!("test.PACS.{}", uid.replace('.', "_"));
        let msgs: Vec<&Vec<u8>> = p.published.iter().filter(|(s, _)| *s == subject).map(|(_, m)| m).collect();
        assert!(msgs.len() >= 3);
        assert_eq!(msgs.last().unwrap().as_slice(), &[0x00]);
    }
}

#[test]
fn missing_study_date() {
    let mut p = Pipeline::new(1);
    start(&mut p, 1);
    let mut t = tags("1.2.3", "1.2.3.4", 1);
    t.study_date = None;
    p.event(AssociationEvent::Instance { association: 1, tags: t }, true);
    p.event(AssociationEvent::Finish { association: 1, ok: true }, true);
    assert!(p.writes.is_empty());
    assert!(p.registrations.is_empty());
    assert_eq!(p.published.len(), 1);
    assert_eq!(p.published[0].0, "test.PACS.1_2_3");
    assert_eq!(p.published[0].1[0], 0x02);
}

#[test]
fn same_series_under_two_associations() {
    let mut p = Pipeline::new(1);
    start(&mut p, 1);
    start(&mut p, 2);
    for i in 0..3u32 {
        p.event(AssociationEvent::Instance { association: 1, tags: tags("9.9", &format!("1.{i}"), i) }, true);
    }
    for i in 0..5u32 {
        p.event(AssociationEvent::Instance { association: 2, tags: tags("9.9", &format!("2.{i}"), i) }, true);
    }
    p.event(AssociationEvent::Finish { association: 2, ok: true }, true);
    p.event(AssociationEvent::Finish { association: 1, ok: true }, true);
    let counts: Vec<u32> = p.registrations.iter().map(|r| r.1).collect();
    assert_eq!(counts, vec![5, 3]);
}

#[test]
fn abort_mid_series_registers_what_was_stored() {
    let mut p = Pipeline::new(1);
    start(&mut p, 1);
    for i in 0..5u32 {
        p.event(AssociationEvent::Instance { association: 1, tags: tags("7.7", &format!("1.{i}"), i) }, true);
    }
    p.event(AssociationEvent::Finish { association: 1, ok: false }, true);
    assert_eq!(p.writes.len(), 5);
    assert_eq!(p.registrations.len(), 1);
    assert_eq!(p.registrations[0].1, 5);
}

#[test]
fn storage_errors_are_not_counted() {
    let mut p = Pipeline::new(1);
    start(&mut p, 1);
    p.event(AssociationEvent::Instance { association: 1, tags: tags("7.7", "1", 1) }, true);
    p.event(AssociationEvent::Instance { association: 1, tags: tags("7.7", "2", 2) }, false);
    p.event(AssociationEvent::Finish { association: 1, ok: true }, true);
    assert_eq!(p.registrations[0].1, 1);
    assert!(p.published.iter().any(|(_, m)| m[0] == 0x02));
    assert_eq!(p.published.last().unwrap().1, vec![0x00]);
}

#[test]
fn rate_limited_progress() {
    let interval: u64 = 100_000_000;
    let mut p = Pipeline::new(interval);
    start(&mut p, 1);
    let begin = p.now;
    for i in 0..1000u32 {
        p.event(AssociationEvent::Instance { association: 1, tags: tags("5.5", &format!("1.{i}"), i) }, true);
        p.now += 1_000_000;
    }
    let wall = p.now - begin;
    p.event(AssociationEvent::Finish { association: 1, ok: true }, true);
    let progress: Vec<u32> = p
        .published
        .iter()
        .filter(|(_, m)| m[0] == 0x01)
        .map(|(_, m)| u32::from_le_bytes([m[1], m[2], m[3], m[4]]))
        .collect();
    assert_eq!(progress[0], 1);
    assert_eq!(*progress.last().unwrap(), 1000);
    assert!(progress.len() as u64 <= (wall + interval - 1) / interval + 2);
    assert!(progress.windows(2).all(|w| w[0] <= w[1]));
    assert_eq!(p.published.last().unwrap().1, vec![0x00]);
}

#[test]
fn limiter_lock_release_forget() {
    let mut l = SubjectLimiter::new(100);
    assert_eq!(l.lock(1000, "s1".to_string()), Ok(()));
    assert_eq!(l.lock(1000, "s1".to_string()), Err(LockError::Busy));
    assert_eq!(l.lock(1000, "s2".to_string()), Ok(()));
    l.release(1010, &"s1".to_string());
    assert_eq!(l.lock(1050, "s1".to_string()), Err(LockError::TooSoon));
    assert_eq!(l.lock(1110, "s1".to_string()), Ok(()));
    assert_eq!(l.forget(&"s1".to_string()), oxidicom::limiter::Forgotten::InFlight);
    l.release(1120, &"s1".to_string());
    assert_eq!(l.forget(&"s1".to_string()), oxidicom::limiter::Forgotten::Removed);
    assert_eq!(l.forget(&"s1".to_string()), oxidicom::limiter::Forgotten::Unknown);
    assert_eq!(l.lock(1121, "s1".to_string()), Ok(()));
}

#[test]
fn synchronizer_holds_finish_until_last_write() {
    let mut s = SeriesSynchronizer::new();
    let k = key("1.2", 1);
    assert!(s.instance_started(k.clone()));
    assert!(s.instance_started(k.clone()));
    let (f, _) = pacs_file_of(AETitle::new("MESNGRTEST".to_string()), &tags("1.2", "3", 1)).unwrap();
    assert!(s.finish(k.clone(), f.info).is_none());
    assert!(!s.instance_started(k.clone()));
    assert_eq!(s.instance_done(k.clone(), Ok(())).len(), 1);
    let last = s.instance_done(k.clone(), Ok(()));
    assert_eq!(last.len(), 2);
    assert!(matches!(last[0].1, SeriesEvent::Instance(Ok(()))));
    assert!(matches!(last[1].1, SeriesEvent::Finish(_)));
}

#[test]
fn messenger_stream_interleaved() {
    let mut counts = SeriesMap::new();
    let (f, _) = pacs_file_of(AETitle::new("MESNGRTEST".to_string()), &tags("1.2", "3", 1)).unwrap();
    let (g, _) = pacs_file_of(AETitle::new("MESNGRTEST".to_string()), &tags("1.2", "4", 1)).unwrap();
    let a = key("1.2", 1);
    let b = key("1.2", 2);
    let events = vec![
        (a.clone(), SeriesEvent::Instance(Ok(()))),
        (b.clone(), SeriesEvent::Instance(Ok(()))),
        (a.clone(), SeriesEvent::Instance(Err("io".to_string()))),
        (a.clone(), SeriesEvent::Instance(Ok(()))),
        (b.clone(), SeriesEvent::Finish(g.info)),
        (a.clone(), SeriesEvent::Finish(f.info)),
    ];
    let (notices, registrations) = oxidicom::messenger::messenger(&mut counts, events);
    let counts_a: Vec<u32> = notices
        .iter()
        .filter(|n| n.lonk.series == a)
        .filter_map(|n| match n.lonk.message {
            LonkMessage::Ndicom(c) => Some(c),
            _ => None,
        })
        .collect();
    assert_eq!(counts_a, vec![1, 2, 2]);
    assert_eq!(registrations.iter().map(|r| r.1).collect::<Vec<_>>(), vec![1, 2]);
    assert_eq!(notices.last().unwrap().lonk.message, LonkMessage::Done);
    assert!(counts.get(&a).is_none() && counts.get(&b).is_none());
}

#[test]
fn synchronizer_pending_counts_writes() {
    let mut s = SeriesSynchronizer::new();
    let k = key("1.2", 1);
    assert_eq!(s.pending(&k), 0);
    s.instance_started(k.clone());
    s.instance_started(k.clone());
    assert_eq!(s.pending(&k), 2);
    s.instance_done(k.clone(), Ok(()));
    assert_eq!(s.pending(&k), 1);
}
