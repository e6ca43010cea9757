//! Per-subject rate limiting of progress notifications, and the decision of
//! what to publish for each notification.
use vstd::prelude::*;
use crate::keyed_map::KeyedMap;
use crate::lonk::{lonk_bytes, subject_of, subject_text};
use crate::messenger::{LonkPriority, PublishLonkParams};

verus! {

/// Why a subject cannot be published on now.
#[derive(Clone, Copy, Debug, PartialEq, Eq)]
pub enum LockError {
    /// The last publish on the subject ended less than the interval ago.
    TooSoon,
    /// A publish on the subject is under way.
    Busy,
}

/// What the limiter knows of a subject.
#[derive(Clone, Copy, Debug, PartialEq, Eq)]
pub struct SubjectState {
    /// When the last publish ended (nanoseconds of a monotonic clock), if any did.
    pub last_sent: Option<u64>,
    /// Whether a publish is under way.
    pub busy: bool,
}

/// Nanoseconds from `last` to `now` (none when the clock reads earlier).
pub open spec fn elapsed(now: u64, last: u64) -> u64 {
    if now >= last {
        (now - last) as u64
    } else {
        0
    }
}

/// Whether a publish that ended at `last_sent` is too recent at `now`.
pub open spec fn too_soon(last_sent: Option<u64>, now: u64, interval: u64) -> bool {
    match last_sent {
        Some(last) => elapsed(now, last) < interval,
        None => false,
    }
}

/// What `forget` found.
#[derive(Clone, Copy, Debug, PartialEq, Eq)]
pub enum Forgotten {
    /// The subject's state was removed.
    Removed,
    /// A publish on the subject is under way; nothing was removed. Wait for
    /// it to be released, then forget again.
    InFlight,
    /// The subject was not known.
    Unknown,
}

/// Rate limiter over subjects: at most one publish under way per subject,
/// and none that starts less than `interval` after the last one ended.
pub struct SubjectLimiter {
    interval: u64,
    subjects: KeyedMap<String, SubjectState>,
}

impl View for SubjectLimiter {
    type V = Map<Seq<char>, SubjectState>;

    closed spec fn view(&self) -> Map<Seq<char>, SubjectState> {
        self.subjects@
    }
}

impl SubjectLimiter {
    pub closed spec fn wf(&self) -> bool {
        self.subjects.wf()
    }

    /// The minimum time between two publishes on a subject, in nanoseconds.
    pub closed spec fn interval(&self) -> u64 {
        self.interval
    }

    /// A limiter that knows no subject yet.
    pub fn new(interval_nanos: u64) -> (r: SubjectLimiter)
        ensures
            r.wf(),
            r@ == Map::<Seq<char>, SubjectState>::empty(),
            r.interval() == interval_nanos,
    {
        SubjectLimiter { interval: interval_nanos, subjects: KeyedMap::new() }
    }

    /// Tries to start a publish on `subject` at `now`. On success the subject
    /// is busy until `release`. A subject seen for the first time is
    /// recorded whatever the outcome.
    pub fn lock(&mut self, now: u64, subject: String) -> (r: Result<(), LockError>)
        requires
            old(self).wf(),
        ensures
            final(self).wf(),
            final(self).interval() == old(self).interval(),
            ({
                let s = if old(self)@.contains_key(subject@) {
                    old(self)@[subject@]
                } else {
                    SubjectState { last_sent: None, busy: false }
                };
                if too_soon(s.last_sent, now, old(self).interval()) {
                    &&& r == Err::<(), LockError>(LockError::TooSoon)
                    &&& final(self)@ == old(self)@.insert(subject@, s)
                } else if s.busy {
                    &&& r == Err::<(), LockError>(LockError::Busy)
                    &&& final(self)@ == old(self)@.insert(subject@, s)
                } else {
                    &&& r == Ok::<(), LockError>(())
                    &&& final(self)@ == old(self)@.insert(
                        subject@,
                        SubjectState { last_sent: s.last_sent, busy: true },
                    )
                }
            }),
    {
        let s: SubjectState = match self.subjects.get(&subject) {
            Some(s) => *s,
            None => SubjectState { last_sent: None, busy: false },
        };
        let soon = match s.last_sent {
            Some(last) => {
                let e: u64 = if now >= last {
                    now - last
                } else {
                    0
                };
                e < self.interval
            },
            None => false,
        };
        if soon {
            self.subjects.insert(subject, s);
            Err(LockError::TooSoon)
        } else if s.busy {
            self.subjects.insert(subject, s);
            Err(LockError::Busy)
        } else {
            self.subjects.insert(subject, SubjectState { last_sent: s.last_sent, busy: true });
            Ok(())
        }
    }

    /// Ends the publish on `subject` that `lock` started: it is recorded as
    /// the last one, ended at `now`. Nothing happens for an unknown subject.
    pub fn release(&mut self, now: u64, subject: &String)
        requires
            old(self).wf(),
        ensures
            final(self).wf(),
            final(self).interval() == old(self).interval(),
            old(self)@.contains_key(subject@) ==> final(self)@ == old(self)@.insert(
                subject@,
                SubjectState { last_sent: Some(now), busy: false },
            ),
            !old(self)@.contains_key(subject@) ==> final(self)@ == old(self)@,
    {
        if self.subjects.contains_key(subject) {
            self.subjects.insert(subject.clone(), SubjectState { last_sent: Some(now), busy: false });
        }
    }

    /// Forgets `subject`, so that its next publish starts afresh; not while
    /// a publish on it is under way.
    pub fn forget(&mut self, subject: &String) -> (r: Forgotten)
        requires
            old(self).wf(),
        ensures
            final(self).wf(),
            final(self).interval() == old(self).interval(),
            !old(self)@.contains_key(subject@) ==> r == Forgotten::Unknown && final(self)@ == old(
                self,
            )@,
            old(self)@.contains_key(subject@) && old(self)@[subject@].busy ==> r
                == Forgotten::InFlight && final(self)@ == old(self)@,
            old(self)@.contains_key(subject@) && !old(self)@[subject@].busy ==> r
                == Forgotten::Removed && final(self)@ == old(self)@.remove(subject@),
    {
        match self.subjects.get(subject) {
            None => Forgotten::Unknown,
            Some(s) => {
                if s.busy {
                    Forgotten::InFlight
                } else {
                    let _ = self.subjects.remove(subject);
                    Forgotten::Removed
                }
            },
        }
    }
}

/// What to do with a notification.
pub enum Route {
    /// Publish `payload` on `subject`. When `locked`, the subject was locked
    /// for this publish: release it once the publish ends.
    Publish { subject: String, payload: Vec<u8>, locked: bool },
    /// Drop the notification: it is optional and the subject is rate limited.
    Skip(LockError),
    /// A publish on the subject is under way: release it, then route this
    /// notification again.
    Wait,
}

/// Whether `r` publishes `payload` on `subj`, with the subject locked or not.
pub open spec fn publishes(r: Route, subj: Seq<char>, payload: Seq<u8>, locked: bool) -> bool {
    match r {
        Route::Publish { subject, payload: p, locked: l } => subject@ == subj && p@ == payload && l
            == locked,
        _ => false,
    }
}

/// Decides what to do with a notification at time `now`: required ones are
/// published; last ones are published once the subject's limiter state is
/// forgotten (waiting for a publish under way); optional ones only when the
/// limiter lets them through.
pub fn route(limiter: &mut SubjectLimiter, root_subject: &str, params: PublishLonkParams, now: u64) -> (r:
    Route)
    requires
        old(limiter).wf(),
    ensures
        final(limiter).wf(),
        final(limiter).interval() == old(limiter).interval(),
        ({
            let subj = subject_text(root_subject@, params.lonk.series);
            let payload = lonk_bytes(params.lonk.message);
            match params.priority {
                LonkPriority::Required => final(limiter)@ == old(limiter)@ && publishes(
                    r,
                    subj,
                    payload,
                    false,
                ),
                LonkPriority::Last => if old(limiter)@.contains_key(subj) && old(limiter)@[subj].busy {
                    final(limiter)@ == old(limiter)@ && r is Wait
                } else {
                    final(limiter)@ == old(limiter)@.remove(subj) && publishes(r, subj, payload, false)
                },
                LonkPriority::Optional => {
                    let s = if old(limiter)@.contains_key(subj) {
                        old(limiter)@[subj]
                    } else {
                        SubjectState { last_sent: None, busy: false }
                    };
                    if too_soon(s.last_sent, now, old(limiter).interval()) {
                        (r matches Route::Skip(LockError::TooSoon)) && final(limiter)@ == old(limiter)@.insert(subj, s)
                    } else if s.busy {
                        (r matches Route::Skip(LockError::Busy)) && final(limiter)@ == old(limiter)@.insert(subj, s)
                    } else {
                        publishes(r, subj, payload, true) && final(limiter)@ == old(limiter)@.insert(
                            subj,
                            SubjectState { last_sent: s.last_sent, busy: true },
                        )
                    }
                },
            }
        }),
{
    let subject = subject_of(root_subject, &params.lonk.series);
    match params.priority {
        LonkPriority::Required => {
            Route::Publish { subject, payload: params.lonk.message.into_bytes(), locked: false }
        },
        LonkPriority::Last => {
            match limiter.forget(&subject) {
                Forgotten::InFlight => Route::Wait,
                _ => {
                    proof {
                        assert(old(limiter)@.contains_key(subject@) || old(limiter)@ =~= old(limiter)@.remove(subject@));
                    }
                    Route::Publish { subject, payload: params.lonk.message.into_bytes(), locked: false }
                },
            }
        },
        LonkPriority::Optional => {
            match limiter.lock(now, subject.clone()) {
                Ok(()) => Route::Publish {
                    subject,
                    payload: params.lonk.message.into_bytes(),
                    locked: true,
                },
                Err(e) => Route::Skip(e),
            }
        },
    }
}

} // verus!
