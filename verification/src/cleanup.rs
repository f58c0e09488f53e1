//! Cleanup worker: removing the transient recordings a viewing
//! session leaves behind.
//!
//! After a session that was not an explicit recording request, the
//! worker walks a fixed delay schedule. At each step it queries the
//! media created for the camera since shortly before the session
//! started; when something is found it asks for its deletion,
//! settles, and re-queries — an empty re-query confirms the cleanup
//! and ends the walk. Cleanup is best-effort: an exhausted schedule
//! ends the walk silently.

use vstd::prelude::*;

verus! {

/// Seconds to settle between a deletion and its verification
/// query.
pub const CLEANUP_SETTLE_SECONDS: u64 = 4;

/// Seconds before session start that the cleanup window reaches
/// back.
pub const CLEANUP_LOOKBACK_SECONDS: i64 = 60;

/// How many delay steps the schedule has.
pub const CLEANUP_STEPS: u32 = 6;

/// The fixed, escalating delay schedule, in seconds.
pub open spec fn cleanup_delay_schedule() -> Seq<u64> {
    seq![5u64, 10u64, 15u64, 20u64, 25u64, 30u64]
}

/// Builds the delay schedule.
pub fn cleanup_delays() -> (r: Vec<u64>)
    ensures
        r@ == cleanup_delay_schedule(),
{
    let r: Vec<u64> = vec![5u64, 10u64, 15u64, 20u64, 25u64, 30u64];
    assert(r@ =~= cleanup_delay_schedule());
    r
}

/// What the cleanup worker needs to know about the session it
/// cleans up after: the camera, when the session started (seconds
/// since the epoch), and whether the viewing was an explicit
/// recording request.
pub struct CleanupWindow {
    pub camera_id: i64,
    pub started_at: i64,
    pub is_recording_session: bool,
}

/// The timestamp cleanup queries reach back to: a minute before
/// the session started.
pub fn search_after(w: &CleanupWindow) -> (r: i64)
    requires
        w.started_at >= i64::MIN + CLEANUP_LOOKBACK_SECONDS,
    ensures
        r == w.started_at - CLEANUP_LOOKBACK_SECONDS,
{
    w.started_at - CLEANUP_LOOKBACK_SECONDS
}

/// One media item as the backend reports it, reduced to what the
/// cleanup logic reads: its id, the three device id fields it may
/// carry, and its creation time in seconds since the epoch, where
/// one could be read.
pub struct MediaRecord {
    pub id: i64,
    pub device_id: Option<i64>,
    pub camera_id: Option<i64>,
    pub sensor_id: Option<i64>,
    pub created_at: Option<i64>,
}

/// The record belongs to the camera: any of its device id fields
/// matches.
pub open spec fn record_matches(m: MediaRecord, camera_id: i64) -> bool {
    m.device_id == Some(camera_id) || m.camera_id == Some(camera_id) || m.sensor_id == Some(
        camera_id,
    )
}

/// The record is attributable to the session: it belongs to the
/// camera and was created at or after the window's start.
pub open spec fn record_selected(m: MediaRecord, camera_id: i64, after: i64) -> bool {
    record_matches(m, camera_id) && match m.created_at {
        Some(t) => t >= after,
        None => false,
    }
}

/// Ids of the records attributable to the session, in order.
pub open spec fn selected_ids(items: Seq<MediaRecord>, camera_id: i64, after: i64) -> Seq<i64>
    decreases items.len(),
{
    if items.len() == 0 {
        Seq::empty()
    } else {
        selected_ids(items.drop_last(), camera_id, after) + (if record_selected(
            items.last(),
            camera_id,
            after,
        ) {
            seq![items.last().id]
        } else {
            Seq::<i64>::empty()
        })
    }
}

/// Filters a media listing down to the ids the session must clean
/// up: created since `after` and carrying the camera's id in any
/// of the three device fields.
pub fn stray_media_ids(items: &Vec<MediaRecord>, camera_id: i64, after: i64) -> (r: Vec<i64>)
    ensures
        r@ == selected_ids(items@, camera_id, after),
{
    let n = items.len();
    let mut out: Vec<i64> = Vec::new();
    let mut i: usize = 0;
    while i < n
        invariant
            n == items@.len(),
            i <= n,
            out@ == selected_ids(items@.subrange(0, i as int), camera_id, after),
        decreases n - i,
    {
        let m = &items[i];
        let matched = (match m.device_id {
            Some(d) => d == camera_id,
            None => false,
        }) || (match m.camera_id {
            Some(d) => d == camera_id,
            None => false,
        }) || (match m.sensor_id {
            Some(d) => d == camera_id,
            None => false,
        });
        let fresh = match m.created_at {
            Some(t) => t >= after,
            None => false,
        };
        if matched && fresh {
            out.push(m.id);
        }
        proof {
            let pre = items@.subrange(0, i + 1);
            assert(pre.drop_last() =~= items@.subrange(0, i as int));
            assert(pre.last() == items@[i as int]);
        }
        i = i + 1;
    }
    assert(items@.subrange(0, n as int) =~= items@);
    out
}

/// The ids of `requested` that are still present in `listed`, in
/// the requested order.
pub open spec fn still_listed(requested: Seq<i64>, listed: Seq<i64>) -> Seq<i64>
    decreases requested.len(),
{
    if requested.len() == 0 {
        Seq::empty()
    } else {
        still_listed(requested.drop_last(), listed) + (if listed.contains(requested.last()) {
            seq![requested.last()]
        } else {
            Seq::<i64>::empty()
        })
    }
}

/// Of the ids whose deletion was requested, those a fresh listing
/// still shows.
pub fn remaining_media_ids(requested: &Vec<i64>, listed: &Vec<i64>) -> (r: Vec<i64>)
    ensures
        r@ == still_listed(requested@, listed@),
{
    let n = requested.len();
    let mut out: Vec<i64> = Vec::new();
    let mut i: usize = 0;
    while i < n
        invariant
            n == requested@.len(),
            i <= n,
            out@ == still_listed(requested@.subrange(0, i as int), listed@),
        decreases n - i,
    {
        let id = requested[i];
        let m = listed.len();
        let mut j: usize = 0;
        let mut found = false;
        while j < m
            invariant
                m == listed@.len(),
                j <= m,
                found == exists|k: int| 0 <= k < j && listed@[k] == id,
            decreases m - j,
        {
            if listed[j] == id {
                found = true;
            }
            j = j + 1;
        }
        proof {
            if found {
                assert(listed@.contains(id));
            } else {
                assert(forall|k: int| 0 <= k < m ==> listed@[k] != id);
                assert(!listed@.contains(id));
            }
            let pre = requested@.subrange(0, i + 1);
            assert(pre.drop_last() =~= requested@.subrange(0, i as int));
            assert(pre.last() == requested@[i as int]);
        }
        if found {
            out.push(id);
        }
        i = i + 1;
    }
    assert(requested@.subrange(0, n as int) =~= requested@);
    out
}

/// One walk of the delay schedule over a script of query answers:
/// how many steps were taken, whether an empty verification query
/// confirmed the cleanup, and which listings were deleted, in
/// order.
///
/// Each step consumes one query answer; a non-empty answer is
/// deleted and consumes a second, verifying answer, whose
/// emptiness confirms the cleanup and ends the walk. An exhausted
/// script or schedule ends the walk unconfirmed.
pub open spec fn cleanup_run(qs: Seq<Seq<i64>>, steps: nat) -> (nat, bool, Seq<Seq<i64>>)
    decreases steps,
{
    if steps == 0 || qs.len() == 0 {
        (0nat, false, Seq::empty())
    } else {
        let q1 = qs.first();
        if q1.len() == 0 {
            let rest = cleanup_run(qs.drop_first(), (steps - 1) as nat);
            (rest.0 + 1, rest.1, rest.2)
        } else if qs.len() == 1 {
            (1nat, false, seq![q1])
        } else {
            let q2 = qs[1];
            if q2.len() == 0 {
                (1nat, true, seq![q1])
            } else {
                let rest = cleanup_run(qs.skip(2), (steps - 1) as nat);
                (rest.0 + 1, rest.1, seq![q1] + rest.2)
            }
        }
    }
}

/// What the worker asks of its driver after a step's listing.
pub enum CleanupCommand {
    /// Nothing attributable was found: move on to the next step.
    Proceed,
    /// Delete the listing, settle this many seconds, re-query the
    /// same window, and hand the result to the verification
    /// decision.
    DeleteThenVerify { settle_seconds: u64 },
}

/// Per-step cleanup state: how many schedule steps have begun.
pub struct CleanupWorker {
    pub steps_taken: u32,
}

impl CleanupWorker {
    /// A fresh worker at the head of the schedule.
    pub fn new() -> (r: CleanupWorker)
        ensures
            r.steps_taken == 0,
    {
        CleanupWorker { steps_taken: 0 }
    }

    /// Begins the next schedule step: the delay to sleep before
    /// querying, or `None` once the schedule is exhausted.
    pub fn next_delay(&mut self) -> (r: Option<u64>)
        ensures
            if old(self).steps_taken < CLEANUP_STEPS {
                final(self).steps_taken == old(self).steps_taken + 1 && r == Some(
                    cleanup_delay_schedule()[old(self).steps_taken as int],
                )
            } else {
                *final(self) == *old(self) && r is None
            },
    {
        if self.steps_taken < CLEANUP_STEPS {
            let delays = cleanup_delays();
            let d = delays[self.steps_taken as usize];
            self.steps_taken = self.steps_taken + 1;
            Some(d)
        } else {
            None
        }
    }

    /// Decides on a step's listing: an empty one proceeds to the
    /// next step; anything found is deleted and then verified
    /// after the fixed settle delay.
    pub fn on_listing(&self, found: &Vec<i64>) -> (r: CleanupCommand)
        ensures
            r == (if found@.len() == 0 {
                CleanupCommand::Proceed
            } else {
                CleanupCommand::DeleteThenVerify { settle_seconds: CLEANUP_SETTLE_SECONDS }
            }),
    {
        if found.len() == 0 {
            CleanupCommand::Proceed
        } else {
            CleanupCommand::DeleteThenVerify { settle_seconds: CLEANUP_SETTLE_SECONDS }
        }
    }

    /// Decides on a verification listing: an empty one confirms
    /// the cleanup and ends the walk.
    pub fn confirmed(&self, remaining: &Vec<i64>) -> (r: bool)
        ensures
            r == (remaining@.len() == 0),
    {
        remaining.len() == 0
    }
}

/// Runs the whole cleanup decision against a script of query
/// answers, stepping [`CleanupWorker`] the way a live driver does.
///
/// An explicit recording session is left alone: nothing is
/// consumed, nothing deleted. Otherwise the walk follows
/// [`cleanup_run`] over the six-step schedule exactly; it never
/// takes more than six steps and never fails, however the backend
/// answers.
#[verifier::loop_isolation(false)]
pub fn run_cleanup(window: &CleanupWindow, queries: &mut Vec<Vec<i64>>) -> (r: (
    u32,
    bool,
    Vec<Vec<i64>>,
))
    ensures
        window.is_recording_session ==> r.0 == 0 && !r.1 && r.2.deep_view() == Seq::<
            Seq<i64>,
        >::empty() && final(queries)@ == old(queries)@,
        !window.is_recording_session ==> (r.0 as nat, r.1, r.2.deep_view()) == cleanup_run(
            old(queries).deep_view(),
            CLEANUP_STEPS as nat,
        ),
        r.0 <= CLEANUP_STEPS,
{
    if window.is_recording_session {
        let none: Vec<Vec<i64>> = Vec::new();
        assert(none.deep_view() =~= Seq::<Seq<i64>>::empty());
        return (0, false, none);
    }
    let ghost script = queries.deep_view();
    let mut worker = CleanupWorker::new();
    let mut dels: Vec<Vec<i64>> = Vec::new();
    let result: (u32, bool, Vec<Vec<i64>>);
    proof {
        assert(dels.deep_view() =~= Seq::<Seq<i64>>::empty());
    }
    loop
        invariant
            worker.steps_taken <= CLEANUP_STEPS,
            ({
                let rest = cleanup_run(
                    queries.deep_view(),
                    (CLEANUP_STEPS - worker.steps_taken) as nat,
                );
                cleanup_run(script, CLEANUP_STEPS as nat) == (
                    (worker.steps_taken + rest.0) as nat,
                    rest.1,
                    dels.deep_view() + rest.2,
                )
            }),
        decreases queries@.len(),
    {
        let ghost qdv = queries.deep_view();
        let ghost left = (CLEANUP_STEPS - worker.steps_taken) as nat;
        if queries.len() == 0 {
            proof {
                assert(cleanup_run(qdv, left) == (0nat, false, Seq::<Seq<i64>>::empty()));
                assert(dels.deep_view() + Seq::<Seq<i64>>::empty() =~= dels.deep_view());
            }
            result = (worker.steps_taken, false, dels);
            break;
        }
        let delay = worker.next_delay();
        if delay.is_none() {
            proof {
                assert(cleanup_run(qdv, left) == (0nat, false, Seq::<Seq<i64>>::empty()));
                assert(dels.deep_view() + Seq::<Seq<i64>>::empty() =~= dels.deep_view());
            }
            result = (worker.steps_taken, false, dels);
            break;
        }
        let q1 = queries.remove(0);
        proof {
            assert(qdv[0] == q1.deep_view());
            assert(queries.deep_view() =~= qdv.drop_first());
        }
        match worker.on_listing(&q1) {
            CleanupCommand::Proceed => {
                proof {
                    assert(q1.deep_view().len() == 0);
                    let rest = cleanup_run(qdv.drop_first(), (left - 1) as nat);
                    assert(cleanup_run(qdv, left) == (rest.0 + 1, rest.1, rest.2));
                }
            },
            CleanupCommand::DeleteThenVerify { settle_seconds: _ } => {
                let ghost dels_before = dels.deep_view();
                dels.push(q1);
                proof {
                    assert(dels.deep_view() =~= dels_before + seq![qdv.first()]);
                }
                if queries.len() == 0 {
                    proof {
                        assert(cleanup_run(qdv, left) == (1nat, false, seq![qdv.first()]));
                    }
                    result = (worker.steps_taken, false, dels);
                    break;
                }
                let q2 = queries.remove(0);
                proof {
                    assert(qdv.drop_first()[0] == q2.deep_view());
                    assert(qdv.drop_first()[0] == qdv[1]);
                    assert(queries.deep_view() =~= qdv.skip(2));
                }
                if worker.confirmed(&q2) {
                    proof {
                        assert(cleanup_run(qdv, left) == (1nat, true, seq![qdv.first()]));
                    }
                    result = (worker.steps_taken, true, dels);
                    break;
                }
                proof {
                    let rest = cleanup_run(qdv.skip(2), (left - 1) as nat);
                    assert(cleanup_run(qdv, left) == (rest.0 + 1, rest.1, seq![qdv.first()]
                        + rest.2));
                    assert((dels_before + seq![qdv.first()]) + rest.2 =~= dels_before + (seq![
                        qdv.first(),
                    ] + rest.2));
                }
            },
        }
    }
    result
}

} // verus!
