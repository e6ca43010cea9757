//! Turning the stored-or-failed outcome of each instance, and the end of
//! each series, into progress notifications and registration requests.
use vstd::prelude::*;
use crate::lonk::{Lonk, LonkMessage};
use crate::keyed_map::SeriesMap;
use crate::types::{DicomInfo, SeriesEvent, SeriesId, SeriesKey};

verus! {

/// How a notification is to be published.
#[derive(Clone, Copy, Debug, PartialEq, Eq)]
pub enum LonkPriority {
    /// May be dropped by the rate limiter.
    Optional,
    /// Must be published.
    Required,
    /// Must be published, and is the last message of its series.
    Last,
}

/// A notification with the priority it is to be published with.
pub struct PublishLonkParams {
    pub lonk: Lonk,
    pub priority: LonkPriority,
}

impl PublishLonkParams {
    pub fn optional(lonk: Lonk) -> (r: PublishLonkParams)
        ensures
            r == (PublishLonkParams { lonk, priority: LonkPriority::Optional }),
    {
        PublishLonkParams { lonk, priority: LonkPriority::Optional }
    }

    pub fn required(lonk: Lonk) -> (r: PublishLonkParams)
        ensures
            r == (PublishLonkParams { lonk, priority: LonkPriority::Required }),
    {
        PublishLonkParams { lonk, priority: LonkPriority::Required }
    }

    pub fn last(lonk: Lonk) -> (r: PublishLonkParams)
        ensures
            r == (PublishLonkParams { lonk, priority: LonkPriority::Last }),
    {
        PublishLonkParams { lonk, priority: LonkPriority::Last }
    }
}

/// What the messenger is told: an instance of a series was stored (`Ok`) or
/// could not be (`Err` with a short reason), or the series is complete.
pub type StoredEvent = SeriesEvent<Result<(), String>, DicomInfo>;

/// A registration request: the series metadata and its number of stored instances.
pub type Registration = (DicomInfo, u32);

/// Count after one more stored instance (it stays at `u32::MAX` once there).
pub open spec fn next_count(c: u32) -> u32 {
    if c < u32::MAX {
        (c + 1) as u32
    } else {
        c
    }
}

pub open spec fn notice(key: SeriesKey, message: LonkMessage, priority: LonkPriority) -> PublishLonkParams {
    PublishLonkParams { lonk: Lonk { series: key, message }, priority }
}

/// The counts after the messenger handles `e` for `key`.
pub open spec fn step_counts(c: Map<SeriesId, u32>, key: SeriesKey, e: StoredEvent) -> Map<SeriesId, u32> {
    match e {
        SeriesEvent::Instance(Ok(_)) => if c.contains_key(key@) {
            c.insert(key@, next_count(c[key@]))
        } else {
            c.insert(key@, 1)
        },
        SeriesEvent::Instance(Err(_)) => c,
        SeriesEvent::Finish(_) => c.remove(key@),
    }
}

/// The final count of a series: what was counted, `0` when nothing was.
pub open spec fn final_count(c: Map<SeriesId, u32>, id: SeriesId) -> u32 {
    if c.contains_key(id) {
        c[id]
    } else {
        0
    }
}

/// The notifications the messenger emits when it handles `e` for `key`:
/// a first stored instance gives a required progress of 1, a later one an
/// optional progress with the new count; a failure gives a required error;
/// the end of the series gives the final count (required) and then done
/// (last).
pub open spec fn step_messages(c: Map<SeriesId, u32>, key: SeriesKey, e: StoredEvent) -> Seq<
    PublishLonkParams,
> {
    match e {
        SeriesEvent::Instance(Ok(_)) => if c.contains_key(key@) {
            seq![notice(key, LonkMessage::Ndicom(next_count(c[key@])), LonkPriority::Optional)]
        } else {
            seq![notice(key, LonkMessage::Ndicom(1), LonkPriority::Required)]
        },
        SeriesEvent::Instance(Err(reason)) => seq![
            notice(key, LonkMessage::Error(reason), LonkPriority::Required),
        ],
        SeriesEvent::Finish(_) => seq![
            notice(key, LonkMessage::Ndicom(final_count(c, key@)), LonkPriority::Required),
            notice(key, LonkMessage::Done, LonkPriority::Last),
        ],
    }
}

/// The registration the messenger requests when it handles `e`: one at the
/// end of a series, with its final count, and none otherwise.
pub open spec fn step_registration(c: Map<SeriesId, u32>, key: SeriesKey, e: StoredEvent) -> Option<
    Registration,
> {
    match e {
        SeriesEvent::Finish(info) => Some((info, final_count(c, key@))),
        _ => None,
    }
}

/// Counts a stored or failed instance and says what to publish about it.
pub fn count_series(series: SeriesKey, counts: &mut SeriesMap<u32>, result: Result<(), String>) -> (r:
    PublishLonkParams)
    requires
        old(counts).wf(),
    ensures
        final(counts).wf(),
        final(counts)@ == step_counts(old(counts)@, series, SeriesEvent::Instance(result)),
        seq![r] == step_messages(old(counts)@, series, SeriesEvent::Instance(result)),
{
    match result {
        Ok(_) => {
            match counts.get(&series) {
                Some(c) => {
                    let c: u32 = *c;
                    let n: u32 = if c < 4294967295 {
                        c + 1
                    } else {
                        c
                    };
                    counts.insert(series.copied(), n);
                    PublishLonkParams::optional(Lonk::ndicom(series, n))
                },
                None => {
                    counts.insert(series.copied(), 1);
                    PublishLonkParams::required(Lonk::ndicom(series, 1))
                },
            }
        },
        Err(e) => PublishLonkParams::required(Lonk::error(series, e)),
    }
}

/// Handles one event of a series: updates the counts and returns the
/// notifications to publish, in order, and the registration to request.
pub fn create_messages_for(
    counts: &mut SeriesMap<u32>,
    series_key: SeriesKey,
    event: StoredEvent,
) -> (r: (Vec<PublishLonkParams>, Option<Registration>))
    requires
        old(counts).wf(),
    ensures
        final(counts).wf(),
        final(counts)@ == step_counts(old(counts)@, series_key, event),
        r.0@ == step_messages(old(counts)@, series_key, event),
        r.1 == step_registration(old(counts)@, series_key, event),
{
    match event {
        SeriesEvent::Instance(result) => {
            let lonk = count_series(series_key, counts, result);
            let mut v: Vec<PublishLonkParams> = Vec::new();
            v.push(lonk);
            (v, None)
        },
        SeriesEvent::Finish(info) => {
            let ndicom: u32 = match counts.remove(&series_key) {
                Some(n) => n,
                None => 0,
            };
            let mut v: Vec<PublishLonkParams> = Vec::new();
            v.push(PublishLonkParams::required(Lonk::ndicom(series_key.copied(), ndicom)));
            v.push(PublishLonkParams::last(Lonk::done(series_key)));
            (v, Some((info, ndicom)))
        },
    }
}

} // verus!

verus! {

/// Counts and notifications after the messenger handles, in order, the
/// outcomes of successive instances of the series `key`.
pub open spec fn run_instances(
    c: Map<SeriesId, u32>,
    key: SeriesKey,
    outcomes: Seq<Result<(), String>>,
) -> (Map<SeriesId, u32>, Seq<PublishLonkParams>)
    decreases outcomes.len(),
{
    if outcomes.len() == 0 {
        (c, Seq::empty())
    } else {
        let (c1, m1) = run_instances(c, key, outcomes.drop_last());
        let e = SeriesEvent::Instance(outcomes.last());
        (step_counts(c1, key, e), m1 + step_messages(c1, key, e))
    }
}

/// Number of instances stored successfully.
pub open spec fn successes(outcomes: Seq<Result<(), String>>) -> nat
    decreases outcomes.len(),
{
    if outcomes.len() == 0 {
        0
    } else {
        successes(outcomes.drop_last()) + if outcomes.last() is Ok {
            1nat
        } else {
            0nat
        }
    }
}

/// The counts carried by the progress notifications among `m`, in order.
pub open spec fn progress_values(m: Seq<PublishLonkParams>) -> Seq<u32>
    decreases m.len(),
{
    if m.len() == 0 {
        Seq::empty()
    } else {
        let p = progress_values(m.drop_last());
        match m.last().lonk.message {
            LonkMessage::Ndicom(n) => p.push(n),
            _ => p,
        }
    }
}

proof fn lemma_progress_values_concat(a: Seq<PublishLonkParams>, b: Seq<PublishLonkParams>)
    ensures
        progress_values(a + b) == progress_values(a) + progress_values(b),
    decreases b.len(),
{
    if b.len() == 0 {
        assert(a + b == a);
    } else {
        assert((a + b).drop_last() == a + b.drop_last());
        lemma_progress_values_concat(a, b.drop_last());
    }
}

proof fn lemma_run_instances(c: Map<SeriesId, u32>, key: SeriesKey, outcomes: Seq<Result<(), String>>)
    requires
        !c.contains_key(key@),
        successes(outcomes) < u32::MAX,
    ensures
        ({
            let (c1, m) = run_instances(c, key, outcomes);
            let k = successes(outcomes);
            &&& c1.contains_key(key@) == (k > 0)
            &&& k > 0 ==> c1[key@] == k
            &&& progress_values(m) == Seq::new(k, |i: int| (i + 1) as u32)
        }),
    decreases outcomes.len(),
{
    if outcomes.len() > 0 {
        let rest = outcomes.drop_last();
        lemma_run_instances(c, key, rest);
        let (c1, m1) = run_instances(c, key, rest);
        let e = SeriesEvent::Instance(outcomes.last());
        lemma_progress_values_concat(m1, step_messages(c1, key, e));
        let k0 = successes(rest);
        if outcomes.last() is Ok {
            assert(progress_values(step_messages(c1, key, e)) == seq![(k0 + 1) as u32]) by {
                let s = step_messages(c1, key, e);
                reveal_with_fuel(progress_values, 2);
                assert(s.drop_last() == Seq::<PublishLonkParams>::empty());
            }
            assert(Seq::new(k0, |i: int| (i + 1) as u32).push((k0 + 1) as u32) == Seq::new(
                k0 + 1,
                |i: int| (i + 1) as u32,
            ));
        } else {
            assert(progress_values(step_messages(c1, key, e)) == Seq::<u32>::empty()) by {
                let s = step_messages(c1, key, e);
                reveal_with_fuel(progress_values, 2);
                assert(s.drop_last() == Seq::<PublishLonkParams>::empty());
            }
            assert(progress_values(m1) + Seq::<u32>::empty() == progress_values(m1));
        }
    }
}

/// For a series whose instances are stored with the given outcomes and
/// which then finishes: at least one progress count is published; the
/// counts published for its instances are 1, 2, ... and so strictly
/// increasing; the last count, published at its end, repeats the highest
/// one (none published for instances gives 0) and equals the number of
/// instances stored; no count exceeds it; and exactly one registration is
/// requested, carrying that number.
pub proof fn lemma_progress_counts(
    c: Map<SeriesId, u32>,
    key: SeriesKey,
    outcomes: Seq<Result<(), String>>,
    info: DicomInfo,
)
    requires
        !c.contains_key(key@),
        successes(outcomes) < u32::MAX,
    ensures
        ({
            let (c1, m) = run_instances(c, key, outcomes);
            let fin = SeriesEvent::Finish(info);
            let v = progress_values(m + step_messages(c1, key, fin));
            let k = successes(outcomes);
            &&& v.len() == k + 1
            &&& forall|i: int, j: int| 0 <= i < j < k ==> v[i] < v[j]
            &&& forall|i: int| 0 <= i < v.len() ==> v[i] <= v.last()
            &&& v.last() == k
            &&& step_registration(c1, key, fin) == Some((info, k as u32))
        }),
{
    lemma_run_instances(c, key, outcomes);
    let (c1, m) = run_instances(c, key, outcomes);
    let fin = SeriesEvent::Finish(info);
    let s = step_messages(c1, key, fin);
    lemma_progress_values_concat(m, s);
    let k = successes(outcomes);
    assert(s.drop_last().drop_last() == Seq::<PublishLonkParams>::empty());
    assert(progress_values(s) == seq![k as u32]) by {
        reveal_with_fuel(progress_values, 3);
        assert(s.drop_last().drop_last() == Seq::<PublishLonkParams>::empty());
    }
}

/// At the end of a series the messenger's last notification is `done`,
/// with the last priority, and it requests exactly one registration; an
/// instance never requests one.
pub proof fn lemma_finish_last(c: Map<SeriesId, u32>, key: SeriesKey, e: StoredEvent)
    ensures
        e is Finish ==> {
            let m = step_messages(c, key, e);
            &&& m.len() >= 1
            &&& m.last().lonk.message == LonkMessage::Done
            &&& m.last().priority == LonkPriority::Last
            &&& m.last().lonk.series == key
            &&& step_registration(c, key, e) is Some
            &&& !step_counts(c, key, e).contains_key(key@)
        },
        e is Instance ==> step_registration(c, key, e) is None && forall|i: int|
            0 <= i < step_messages(c, key, e).len() ==> (#[trigger] step_messages(c, key, e)[i]).lonk.message
                != LonkMessage::Done,
{
}

/// What the messenger does for a series under one association leaves the
/// count of a series under another association as it was: the same series
/// pushed under two associations is counted, and registered, twice,
/// independently.
pub proof fn lemma_associations_independent(
    c: Map<SeriesId, u32>,
    key: SeriesKey,
    other: SeriesKey,
    e: StoredEvent,
)
    requires
        key.association != other.association,
    ensures
        step_counts(c, key, e).contains_key(other@) == c.contains_key(other@),
        final_count(step_counts(c, key, e), other@) == final_count(c, other@),
{
}

} // verus!

verus! {

/// Counts, notifications and registrations after the messenger handles
/// `events` in order, starting from the counts `c`.
pub open spec fn run_events(c: Map<SeriesId, u32>, events: Seq<(SeriesKey, StoredEvent)>) -> (
    Map<SeriesId, u32>,
    Seq<PublishLonkParams>,
    Seq<Registration>,
)
    decreases events.len(),
{
    if events.len() == 0 {
        (c, Seq::empty(), Seq::empty())
    } else {
        let (c1, m1, g1) = run_events(c, events.drop_last());
        let (k, e) = events.last();
        (
            step_counts(c1, k, e),
            m1 + step_messages(c1, k, e),
            match step_registration(c1, k, e) {
                Some(x) => g1.push(x),
                None => g1,
            },
        )
    }
}

/// Handles a run of events, in order: the notifications to publish and the
/// registrations to request, each in the order produced.
pub fn messenger(counts: &mut SeriesMap<u32>, events: Vec<(SeriesKey, StoredEvent)>) -> (r: (
    Vec<PublishLonkParams>,
    Vec<Registration>,
))
    requires
        old(counts).wf(),
    ensures
        final(counts).wf(),
        final(counts)@ == run_events(old(counts)@, events@).0,
        r.0@ == run_events(old(counts)@, events@).1,
        r.1@ == run_events(old(counts)@, events@).2,
{
    let ghost c0 = counts@;
    let ghost all = events@;
    let mut notices: Vec<PublishLonkParams> = Vec::new();
    let mut registrations: Vec<Registration> = Vec::new();
    let mut rest = events;
    let mut i: usize = 0;
    let n = rest.len();
    while rest.len() > 0
        invariant
            counts.wf(),
            n == all.len(),
            i + rest@.len() == n,
            rest@ == all.subrange(i as int, n as int),
            counts@ == run_events(c0, all.subrange(0, i as int)).0,
            notices@ == run_events(c0, all.subrange(0, i as int)).1,
            registrations@ == run_events(c0, all.subrange(0, i as int)).2,
        decreases rest@.len(),
    {
        let (k, e) = rest.remove(0);
        let ghost prefix = all.subrange(0, i as int);
        assert(all.subrange(0, i + 1).drop_last() == prefix);
        assert(all.subrange(0, i + 1).last() == (k, e));
        let (mut m, g) = create_messages_for(counts, k, e);
        notices.append(&mut m);
        match g {
            Some(x) => registrations.push(x),
            None => {},
        }
        i = i + 1;
    }
    assert(all.subrange(0, n as int) == all);
    (notices, registrations)
}

/// The instance outcomes that `events` carry for the series `id`, in order.
pub open spec fn outcomes_for(events: Seq<(SeriesKey, StoredEvent)>, id: SeriesId) -> Seq<
    Result<(), String>,
>
    decreases events.len(),
{
    if events.len() == 0 {
        Seq::empty()
    } else {
        let p = outcomes_for(events.drop_last(), id);
        match events.last().1 {
            SeriesEvent::Instance(o) => if events.last().0@ == id {
                p.push(o)
            } else {
                p
            },
            SeriesEvent::Finish(_) => p,
        }
    }
}

/// The counts carried by the progress notifications about the series `id`
/// among `m`, in order.
pub open spec fn progress_values_for(m: Seq<PublishLonkParams>, id: SeriesId) -> Seq<u32>
    decreases m.len(),
{
    if m.len() == 0 {
        Seq::empty()
    } else {
        let p = progress_values_for(m.drop_last(), id);
        match m.last().lonk.message {
            LonkMessage::Ndicom(n) => if m.last().lonk.series@ == id {
                p.push(n)
            } else {
                p
            },
            _ => p,
        }
    }
}

proof fn lemma_progress_values_for_concat(a: Seq<PublishLonkParams>, b: Seq<PublishLonkParams>, id: SeriesId)
    ensures
        progress_values_for(a + b, id) == progress_values_for(a, id) + progress_values_for(b, id),
    decreases b.len(),
{
    if b.len() == 0 {
        assert(a + b == a);
    } else {
        assert((a + b).drop_last() == a + b.drop_last());
        lemma_progress_values_for_concat(a, b.drop_last(), id);
    }
}

proof fn lemma_stream_prefix(c: Map<SeriesId, u32>, events: Seq<(SeriesKey, StoredEvent)>, k: SeriesKey)
    requires
        !c.contains_key(k@),
        forall|i: int| 0 <= i < events.len() && (#[trigger] events[i]).0@ == k@ ==> events[i].1 is Instance,
        successes(outcomes_for(events, k@)) < u32::MAX,
    ensures
        ({
            let (c1, m1, g1) = run_events(c, events);
            let n = successes(outcomes_for(events, k@));
            &&& c1.contains_key(k@) == (n > 0)
            &&& n > 0 ==> c1[k@] == n
            &&& progress_values_for(m1, k@) == Seq::new(n, |i: int| (i + 1) as u32)
        }),
    decreases events.len(),
{
    if events.len() > 0 {
        let pre = events.drop_last();
        assert forall|i: int| 0 <= i < pre.len() && (#[trigger] pre[i]).0@ == k@ implies pre[i].1 is Instance by {
            assert(pre[i] == events[i]);
        }
        let (key, e) = events.last();
        let n0 = successes(outcomes_for(pre, k@));
        let op = outcomes_for(pre, k@);
        let oe = outcomes_for(events, k@);
        if key@ == k@ {
            assert(events[events.len() - 1].0@ == k@);
            assert(oe == op.push(e->Instance_0));
            assert(oe.drop_last() == op);
            assert(successes(oe) == successes(op) + if e->Instance_0 is Ok {
                1nat
            } else {
                0nat
            });
        } else {
            assert(oe == op);
        }
        lemma_stream_prefix(c, pre, k);
        let (c1, m1, g1) = run_events(c, pre);
        let s = step_messages(c1, key, e);
        lemma_progress_values_for_concat(m1, s, k@);
        reveal_with_fuel(progress_values_for, 3);
        if key@ == k@ {
            assert(events[events.len() - 1].0@ == k@);
            assert(s.drop_last() == Seq::<PublishLonkParams>::empty());
            if e->Instance_0 is Ok {
                assert(Seq::new(n0, |i: int| (i + 1) as u32).push((n0 + 1) as u32) == Seq::new(
                    n0 + 1,
                    |i: int| (i + 1) as u32,
                ));
            } else {
                assert(progress_values_for(m1, k@) + Seq::<u32>::empty() == progress_values_for(m1, k@));
            }
        } else {
            match e {
                SeriesEvent::Instance(_) => {
                    assert(s.drop_last() == Seq::<PublishLonkParams>::empty());
                },
                SeriesEvent::Finish(_) => {
                    assert(s.drop_last().drop_last() == Seq::<PublishLonkParams>::empty());
                },
            }
            assert(progress_values_for(s, k@) == Seq::<u32>::empty());
            assert(progress_values_for(m1, k@) + Seq::<u32>::empty() == progress_values_for(m1, k@));
        }
    }
}

/// Of any stream of events in which the series `k` (under its association)
/// has instances and then one end, interleaved with events of other series
/// and associations: the progress counts published about `k` are 1, 2, ...,
/// n and then n again at its end, where n is the number of its instances
/// stored (so at least one count, none decreasing, the last equal to n);
/// its end requests exactly one registration, carrying n, and its last
/// notification is `done`.
pub proof fn lemma_series_in_stream(
    c: Map<SeriesId, u32>,
    events: Seq<(SeriesKey, StoredEvent)>,
    k: SeriesKey,
    info: DicomInfo,
)
    requires
        !c.contains_key(k@),
        forall|i: int| 0 <= i < events.len() && (#[trigger] events[i]).0@ == k@ ==> events[i].1 is Instance,
        successes(outcomes_for(events, k@)) < u32::MAX,
    ensures
        ({
            let n = successes(outcomes_for(events, k@));
            let all = events.push((k, SeriesEvent::Finish(info)));
            let (c2, m, g) = run_events(c, all);
            let g0 = run_events(c, events).2;
            &&& progress_values_for(m, k@) == Seq::new(n, |i: int| (i + 1) as u32).push(n as u32)
            &&& g == g0.push((info, n as u32))
            &&& m.last().lonk.series == k && m.last().lonk.message == LonkMessage::Done
            &&& m.last().priority == LonkPriority::Last
            &&& !c2.contains_key(k@)
        }),
{
    lemma_stream_prefix(c, events, k);
    let all = events.push((k, SeriesEvent::Finish(info)));
    assert(all.drop_last() == events);
    let (c1, m1, g1) = run_events(c, events);
    let s = step_messages(c1, k, SeriesEvent::Finish(info));
    lemma_progress_values_for_concat(m1, s, k@);
    let n = successes(outcomes_for(events, k@));
    assert(progress_values_for(s, k@) == seq![n as u32]) by {
        reveal_with_fuel(progress_values_for, 3);
        assert(s.drop_last().drop_last() == Seq::<PublishLonkParams>::empty());
    }
}

/// The count of a series never moves because of events of a series under
/// another association: after any stream of events without events of `k`,
/// its count is as it was. So the same series pushed under two
/// associations is counted, and registered, separately.
pub proof fn lemma_stream_other_associations(
    c: Map<SeriesId, u32>,
    events: Seq<(SeriesKey, StoredEvent)>,
    k: SeriesKey,
)
    requires
        forall|i: int| 0 <= i < events.len() ==> (#[trigger] events[i]).0.association != k.association,
    ensures
        final_count(run_events(c, events).0, k@) == final_count(c, k@),
        run_events(c, events).0.contains_key(k@) == c.contains_key(k@),
    decreases events.len(),
{
    if events.len() > 0 {
        let pre = events.drop_last();
        assert forall|i: int| 0 <= i < pre.len() implies (#[trigger] pre[i]).0.association != k.association by {
            assert(pre[i] == events[i]);
        }
        lemma_stream_other_associations(c, pre, k);
        assert(events[events.len() - 1].0.association != k.association);
    }
}

} // verus!
