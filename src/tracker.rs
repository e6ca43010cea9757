//! Per-association bookkeeping of the series being received: which series
//! each association has delivered, where each instance is to be written,
//! and the end-of-series events when an association ends.
use vstd::prelude::*;
use std::collections::HashMap;
use crate::lonk::{Lonk, LonkMessage};
use crate::pacs_file::{
    bad_tag_message, is_pacs_file_of, missing_required, pacs_file_of, required_tag_message,
    study_date_of, DicomTag, DicomTags, RequiredTagError,
};
use crate::sanitize::strip_nul;
use crate::keyed_map::SeriesMap;
use crate::types::{AETitle, DicomInfo, SeriesEvent, SeriesId, SeriesKey};

verus! {

broadcast use vstd::std_specs::hash::group_hash_axioms;

/// Events of an association, in the order in which they happen.
pub enum AssociationEvent {
    /// The association was accepted; `aec` is the AE title of the peer.
    Start { association: u128, aec: AETitle },
    /// An instance was received; its tags are given.
    Instance { association: u128, tags: DicomTags },
    /// The association ended, cleanly (`ok`) or not.
    Finish { association: u128, ok: bool },
}

/// What follows from an event for one series: write an instance to the
/// given path, relative to the storage root, or the series is complete.
pub type PendingInstance = SeriesEvent<String, DicomInfo>;

/// An association in progress: the peer's AE title and the series seen so far.
pub struct Association {
    pub pacs_name: AETitle,
    pub series: SeriesMap<DicomInfo>,
}

/// Whether the instance with these tags cannot be stored.
pub open spec fn is_rejected(t: DicomTags) -> bool {
    missing_required(t) is Some || study_date_of(strip_nul(t.study_date.unwrap()@)) is None
}

/// The text of the error notification about a rejected instance.
pub open spec fn rejection_text(t: DicomTags) -> Seq<char> {
    match missing_required(t) {
        Some(tag) => required_tag_message(RequiredTagError::Missing(tag)),
        None => bad_tag_message(DicomTag::StudyDate, Some(strip_nul(t.study_date.unwrap()@))),
    }
}

/// The SeriesInstanceUID used to address an error about a rejected
/// instance: its own, or `UNKNOWN` when it has none.
pub open spec fn uid_or_unknown(t: DicomTags) -> Seq<char> {
    match t.series_instance_uid {
        Some(u) => u@,
        None => "UNKNOWN"@,
    }
}

/// What handling `event` does: `before` and `after` are the associations in
/// progress, `r` the result.
pub open spec fn handled(
    before: Map<u128, Association>,
    after: Map<u128, Association>,
    event: AssociationEvent,
    r: Result<Vec<(SeriesKey, PendingInstance)>, Lonk>,
) -> bool {
    match event {
        AssociationEvent::Start { association, aec } => {
            &&& r matches Ok(v) && v@.len() == 0
            &&& after.dom() == before.dom().insert(association)
            &&& after[association].pacs_name == aec
            &&& after[association].series@ == Map::<SeriesId, DicomInfo>::empty()
            &&& after[association].series.entries().len() == 0
            &&& forall|id: u128|
                id != association && #[trigger] before.contains_key(id) ==> after[id] == before[id]
        },
        AssociationEvent::Instance { association, tags } => {
            let a = before[association];
            if is_rejected(tags) {
                &&& after == before
                &&& match r {
                    Err(lonk) => lonk.series@ == (uid_or_unknown(tags), a.pacs_name@, association)
                        && match lonk.message {
                        LonkMessage::Error(text) => text@ == rejection_text(tags),
                        _ => false,
                    },
                    Ok(_) => false,
                }
            } else {
                let key_id = (
                    strip_nul(tags.series_instance_uid.unwrap()@),
                    a.pacs_name@,
                    association,
                );
                &&& after.dom() == before.dom()
                &&& forall|id: u128|
                    id != association && #[trigger] before.contains_key(id) ==> after[id]
                        == before[id]
                &&& after[association].pacs_name == a.pacs_name
                &&& match r {
                    Ok(v) => v@.len() == 1 && v@[0].0@ == key_id && match v@[0].1 {
                        SeriesEvent::Instance(path) => exists|f|
                            is_pacs_file_of(f, a.pacs_name, tags) && f.file_path == path && (
                            a.series@.contains_key(key_id) ==> after[association].series@
                                == a.series@) && (!a.series@.contains_key(key_id)
                                ==> after[association].series@ == a.series@.insert(
                                key_id,
                                f.info,
                            )),
                        _ => false,
                    },
                    Err(_) => false,
                }
            }
        },
        AssociationEvent::Finish { association, .. } => {
            let a = before[association];
            &&& after == before.remove(association)
            &&& match r {
                Ok(v) => ends_each_series(a.series, v@),
                Err(_) => false,
            }
        },
    }
}

/// `v` ends each series of `series` exactly once: one `Finish` per
/// recorded series, carrying its metadata, in the order in which the series
/// were first seen.
pub open spec fn ends_each_series(series: SeriesMap<DicomInfo>, v: Seq<(SeriesKey, PendingInstance)>) -> bool {
    &&& v.len() == series.entries().len()
    &&& forall|i: int|
        0 <= i < v.len() ==> #[trigger] v[i] == (
            series.entries()[i].0,
            SeriesEvent::Finish::<String, DicomInfo>(series.entries()[i].1),
        )
    &&& forall|i: int|
        0 <= i < v.len() ==> series@.contains_key((#[trigger] v[i]).0@) && v[i].1
            == SeriesEvent::Finish::<String, DicomInfo>(series@[v[i].0@])
    &&& forall|id: SeriesId| #[trigger]
        series@.contains_key(id) ==> exists|i: int| 0 <= i < v.len() && (#[trigger] v[i]).0@ == id
    &&& forall|i: int, j: int|
        0 <= i < v.len() && 0 <= j < v.len() && i != j ==> (#[trigger] v[i]).0@ != (
        #[trigger] v[j]).0@
}

/// Associations in progress, by identifier.
pub struct SeriesTracker {
    associations: HashMap<u128, Association>,
}

impl View for SeriesTracker {
    type V = Map<u128, Association>;

    closed spec fn view(&self) -> Map<u128, Association> {
        self.associations@
    }
}

impl SeriesTracker {
    pub closed spec fn wf(&self) -> bool {
        forall|id: u128| #[trigger] self@.contains_key(id) ==> self@[id].series.wf()
    }

    pub fn new() -> (r: SeriesTracker)
        ensures
            r.wf(),
            r@ == Map::<u128, Association>::empty(),
    {
        SeriesTracker { associations: HashMap::new() }
    }

    /// Whether the association is in progress.
    pub fn knows(&self, association: u128) -> (r: bool)
        ensures
            r == self@.contains_key(association),
    {
        self.associations.contains_key(&association)
    }

    /// Handles one event of an association.
    ///
    /// - `Start` records the association, with no series yet.
    /// - `Instance` reads the instance's tags. When a required tag is
    ///   missing or unusable, the result is `Err` with one error
    ///   notification, addressed to the series as far as it can be told,
    ///   and nothing is recorded. Otherwise its series is recorded under the
    ///   association (the first instance's metadata stands for the series)
    ///   and one event asks for the instance to be written.
    /// - `Finish` forgets the association and ends each of its series, in
    ///   the order in which they were first seen.
    pub fn match_event(&mut self, event: AssociationEvent) -> (r: Result<
        Vec<(SeriesKey, PendingInstance)>,
        Lonk,
    >)
        requires
            old(self).wf(),
            match event {
                AssociationEvent::Start { .. } => true,
                AssociationEvent::Instance { association, .. } => old(self)@.contains_key(
                    association,
                ),
                AssociationEvent::Finish { association, .. } => old(self)@.contains_key(
                    association,
                ),
            },
        ensures
            final(self).wf(),
            handled(old(self)@, final(self)@, event, r),
    {
        match event {
            AssociationEvent::Start { association, aec } => {
                let fresh = Association { pacs_name: aec, series: SeriesMap::new() };
                let ghost g = fresh;
                assert(g.series.wf());
                self.associations.insert(association, fresh);
                assert forall|id: u128| #[trigger] self@.contains_key(id) implies self@[id].series.wf() by {
                    if id != association {
                        assert(old(self)@.contains_key(id));
                    }
                }
                Ok(Vec::new())
            },
            AssociationEvent::Instance { association, tags } => {
                let a = self.associations.remove(&association);
                let mut a = match a {
                    Some(a) => a,
                    None => {
                        assert(false);
                        return Ok(Vec::new());
                    },
                };
                let ghost before = a.series@;
                assert(a.series.wf());
                match pacs_file_of(a.pacs_name.copied(), &tags) {
                    Ok((f, _bad_tags)) => {
                        let key = SeriesKey::new(
                            f.info.series_instance_uid.clone(),
                            a.pacs_name.copied(),
                            association,
                        );
                        let ghost fg = f;
                        let path = f.file_path;
                        if !a.series.contains_key(&key) {
                            a.series.insert(key.copied(), f.info);
                        }
                        self.associations.insert(association, a);
                        let mut v: Vec<(SeriesKey, PendingInstance)> = Vec::new();
                        v.push((key, SeriesEvent::Instance(path)));
                        assert(is_pacs_file_of(fg, old(self)@[association].pacs_name, tags));
                        assert(self.wf());
                        Ok(v)
                    },
                    Err(e) => {
                        let uid = match &tags.series_instance_uid {
                            Some(u) => u.clone(),
                            None => String::from_str("UNKNOWN"),
                        };
                        let key = SeriesKey::new(uid, a.pacs_name.copied(), association);
                        self.associations.insert(association, a);
                        proof {
                            assert(self.associations@ =~= old(self)@);
                        }
                        assert(self.wf());
                        Err(Lonk::error(key, e.message()))
                    },
                }
            },
            AssociationEvent::Finish { association, .. } => {
                let a = self.associations.remove(&association);
                match a {
                    Some(a) => {
                        proof {
                            a.series.lemma_entries_view();
                        }
                        let ghost sm = a.series;
                        let entries = a.series.drain();
                        let mut v: Vec<(SeriesKey, PendingInstance)> = Vec::new();
                        let mut i: usize = 0;
                        let ghost es = entries@;
                        let mut rest = entries;
                        let n = rest.len();
                        assert(self.wf());
                        while rest.len() > 0
                            invariant
                                i + rest@.len() == es.len(),
                                es.len() == n,
                                rest@ == es.subrange(i as int, es.len() as int),
                                v@.len() == i,
                                forall|j: int|
                                    0 <= j < i ==> #[trigger] v@[j] == (
                                        es[j].0,
                                        SeriesEvent::Finish::<String, DicomInfo>(es[j].1),
                                    ),
                            decreases rest@.len(),
                        {
                            let (k, info) = rest.remove(0);
                            v.push((k, SeriesEvent::Finish(info)));
                            i = i + 1;
                        }
                        proof {
                            assert forall|x: int| 0 <= x < v@.len() implies sm@.contains_key(
                                (#[trigger] v@[x]).0@,
                            ) && v@[x].1 == SeriesEvent::Finish::<String, DicomInfo>(
                                sm@[v@[x].0@],
                            ) by {
                                assert(sm.entries()[x] == es[x]);
                            }
                            assert forall|id: SeriesId| #[trigger]
                                sm@.contains_key(id) implies exists|x: int|
                                0 <= x < v@.len() && (#[trigger] v@[x]).0@ == id by {
                                let x = choose|x: int|
                                    0 <= x < sm.entries().len() && (#[trigger] sm.entries()[x]).0@ == id;
                                assert(v@[x].0@ == id);
                            }
                            assert forall|x: int, y: int|
                                0 <= x < v@.len() && 0 <= y < v@.len() && x != y implies (
                                #[trigger] v@[x]).0@ != (#[trigger] v@[y]).0@ by {
                                assert(sm.entries()[x] == es[x] && sm.entries()[y] == es[y]);
                            }
                        }
                        Ok(v)
                    },
                    None => {
                        assert(false);
                        Ok(Vec::new())
                    },
                }
            },
        }
    }
}

} // verus!

verus! {

/// An instance that cannot be stored is dropped whole: the associations
/// are left as they were (so its series is not recorded and no
/// registration will follow from it), nothing is to be written, and exactly
/// one error notification is produced.
pub proof fn lemma_rejection_total(
    before: Map<u128, Association>,
    after: Map<u128, Association>,
    association: u128,
    tags: DicomTags,
    r: Result<Vec<(SeriesKey, PendingInstance)>, Lonk>,
)
    requires
        handled(before, after, AssociationEvent::Instance { association, tags }, r),
        is_rejected(tags),
    ensures
        after == before,
        r matches Err(lonk) && lonk.message is Error,
{
}

} // verus!

verus! {

/// An association that ends without delivering an instance ends no series:
/// nothing is written, published or registered for it.
pub proof fn lemma_start_then_finish(
    m0: Map<u128, Association>,
    m1: Map<u128, Association>,
    m2: Map<u128, Association>,
    association: u128,
    aec: AETitle,
    ok: bool,
    r1: Result<Vec<(SeriesKey, PendingInstance)>, Lonk>,
    r2: Result<Vec<(SeriesKey, PendingInstance)>, Lonk>,
)
    requires
        handled(m0, m1, AssociationEvent::Start { association, aec }, r1),
        handled(m1, m2, AssociationEvent::Finish { association, ok }, r2),
    ensures
        r1 matches Ok(v) && v@.len() == 0,
        r2 matches Ok(v) && v@.len() == 0,
        m2 == m1.remove(association),
{
}

/// The end of an association with one recorded series ends exactly that
/// series, with its metadata, whether the association ended cleanly or not.
pub proof fn lemma_finish_one_series(
    before: Map<u128, Association>,
    after: Map<u128, Association>,
    association: u128,
    ok: bool,
    id: SeriesId,
    info: DicomInfo,
    r: Result<Vec<(SeriesKey, PendingInstance)>, Lonk>,
)
    requires
        handled(before, after, AssociationEvent::Finish { association, ok }, r),
        before[association].series@ == Map::<SeriesId, DicomInfo>::empty().insert(id, info),
    ensures
        r matches Ok(v) && v@.len() == 1 && v@[0].0@ == id && v@[0].1 == SeriesEvent::Finish::<
            String,
            DicomInfo,
        >(info),
        after == before.remove(association),
{
    let series = before[association].series;
    let v = r->Ok_0@;
    assert(series@.contains_key(id));
    let i = choose|i: int| 0 <= i < v.len() && (#[trigger] v[i]).0@ == id;
    if v.len() >= 2 {
        let j: int = if i == 0 { 1 } else { 0 };
        assert(series@.contains_key(v[j].0@));
        assert(v[j].0@ == id);
    }
    assert(v[0].0@ == id);
}

} // verus!

