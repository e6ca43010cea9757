//! Ordering the results of a series so that its end comes after all of its
//! instances, whatever order the writes complete in.
use vstd::prelude::*;
use crate::messenger::StoredEvent;
use crate::keyed_map::SeriesMap;
use crate::types::{DicomInfo, SeriesEvent, SeriesId, SeriesKey};

verus! {

/// A series with writes under way.
pub struct Inflight {
    /// Writes started and not yet completed.
    pub pending: u64,
    /// The end of the series, held back until `pending` is zero.
    pub finish: Option<DicomInfo>,
}

/// Per-series counts of writes under way, and the ends held back.
pub struct SeriesSynchronizer {
    inflight: SeriesMap<Inflight>,
}

impl View for SeriesSynchronizer {
    type V = Map<SeriesId, Inflight>;

    closed spec fn view(&self) -> Map<SeriesId, Inflight> {
        self.inflight@
    }
}

impl SeriesSynchronizer {
    pub closed spec fn wf(&self) -> bool {
        &&& self.inflight.wf()
        &&& forall|id: SeriesId| #[trigger] self@.contains_key(id) ==> (self@[id].finish is Some
            ==> self@[id].pending > 0)
    }

    pub fn new() -> (r: SeriesSynchronizer)
        ensures
            r.wf(),
            r@ == Map::<SeriesId, Inflight>::empty(),
    {
        SeriesSynchronizer { inflight: SeriesMap::new() }
    }

    /// Number of writes of `key` started and not yet completed.
    pub fn pending(&self, key: &SeriesKey) -> (r: u64)
        requires
            self.wf(),
        ensures
            r == if self@.contains_key(key@) {
                self@[key@].pending
            } else {
                0
            },
    {
        match self.inflight.get(key) {
            Some(f) => f.pending,
            None => 0,
        }
    }

    /// Records that a write started for an instance of `key`. Refused
    /// (`false`, nothing changes) once the end of the series has arrived:
    /// no instance may follow it.
    pub fn instance_started(&mut self, key: SeriesKey) -> (r: bool)
        requires
            old(self).wf(),
        ensures
            final(self).wf(),
            r == !(old(self)@.contains_key(key@) && (old(self)@[key@].finish is Some
                || old(self)@[key@].pending == u64::MAX)),
            r ==> final(self)@ == old(self)@.insert(
                key@,
                Inflight {
                    pending: if old(self)@.contains_key(key@) {
                        (old(self)@[key@].pending + 1) as u64
                    } else {
                        1
                    },
                    finish: None,
                },
            ),
            !r ==> final(self)@ == old(self)@,
    {
        let pending: u64 = match self.inflight.get(&key) {
            Some(f) => {
                if f.finish.is_some() || f.pending == 18446744073709551615 {
                    return false;
                }
                f.pending + 1
            },
            None => 1,
        };
        self.inflight.insert(key, Inflight { pending, finish: None });
        true
    }

    /// Records that a write for `key` completed with `result`, and returns
    /// what to forward, in order: the result, then the end of the series if
    /// it was held back for this write.
    pub fn instance_done(&mut self, key: SeriesKey, result: Result<(), String>) -> (r: Vec<
        (SeriesKey, StoredEvent),
    >)
        requires
            old(self).wf(),
            old(self)@.contains_key(key@),
            old(self)@[key@].pending > 0,
        ensures
            final(self).wf(),
            r@.len() >= 1,
            r@[0] == (key, SeriesEvent::Instance::<Result<(), String>, DicomInfo>(result)),
            ({
                let f = old(self)@[key@];
                if f.pending == 1 && f.finish is Some {
                    &&& final(self)@ == old(self)@.remove(key@)
                    &&& r@.len() == 2
                    &&& r@[1] == (key, SeriesEvent::Finish::<Result<(), String>, DicomInfo>(
                        f.finish.unwrap(),
                    ))
                } else {
                    &&& final(self)@ == old(self)@.insert(
                        key@,
                        Inflight { pending: (f.pending - 1) as u64, finish: f.finish },
                    )
                    &&& r@.len() == 1
                }
            }),
    {
        let f = self.inflight.remove(&key).unwrap();
        let mut out: Vec<(SeriesKey, StoredEvent)> = Vec::new();
        if f.pending == 1 && f.finish.is_some() {
            let info = f.finish.unwrap();
            out.push((key.copied(), SeriesEvent::Instance(result)));
            out.push((key, SeriesEvent::Finish(info)));
        } else {
            self.inflight.insert(key.copied(), Inflight { pending: f.pending - 1, finish: f.finish });
            out.push((key, SeriesEvent::Instance(result)));
        }
        out
    }

    /// The end of the series `key` arrived. It is forwarded at once when no
    /// write of the series is under way, held back otherwise; an end for a
    /// series that had no instance, or whose end already arrived, is
    /// dropped.
    pub fn finish(&mut self, key: SeriesKey, info: DicomInfo) -> (r: Option<(SeriesKey, StoredEvent)>)
        requires
            old(self).wf(),
        ensures
            final(self).wf(),
            !old(self)@.contains_key(key@) || old(self)@[key@].finish is Some ==> r is None
                && final(self)@ == old(self)@,
            old(self)@.contains_key(key@) && old(self)@[key@].finish is None ==> {
                if old(self)@[key@].pending == 0 {
                    &&& final(self)@ == old(self)@.remove(key@)
                    &&& r == Some((key, SeriesEvent::Finish::<Result<(), String>, DicomInfo>(info)))
                } else {
                    &&& final(self)@ == old(self)@.insert(
                        key@,
                        Inflight { pending: old(self)@[key@].pending, finish: Some(info) },
                    )
                    &&& r is None
                }
            },
    {
        match self.inflight.get(&key) {
            None => None,
            Some(f) => {
                if f.finish.is_some() {
                    None
                } else if f.pending == 0 {
                    let _ = self.inflight.remove(&key);
                    Some((key, SeriesEvent::Finish(info)))
                } else {
                    let pending = f.pending;
                    self.inflight.insert(key, Inflight { pending, finish: Some(info) });
                    None
                }
            },
        }
    }
}

} // verus!
