//! Playback clock and event scheduler.
//!
//! The clock never reads the machine's time itself: every operation takes
//! the current monotonic time in nanoseconds as an argument, so the caller
//! decides what drives the session and the clock's behaviour stays a pure
//! function of its inputs.

use vstd::prelude::*;

use crate::analysis::AnalysisFrame;

verus! {

/// Deterministic playback clock shared between systems.
#[derive(Debug, Clone, Copy, PartialEq)]
pub struct PlaybackClock {
    origin_ns: u64,
    paused_at_ns: Option<u64>,
}

impl PlaybackClock {
    /// The time playback began, shifted forward by every completed pause.
    pub closed spec fn origin(&self) -> u64 {
        self.origin_ns
    }

    /// When the clock was paused, if it is paused.
    pub closed spec fn paused_at(&self) -> Option<u64> {
        self.paused_at_ns
    }

    /// A pause can only begin after the origin.
    pub open spec fn wf(&self) -> bool {
        match self.paused_at() {
            Some(p) => self.origin() <= p,
            None => true,
        }
    }

    /// Starts a running clock at the given current time.
    pub fn start(now_ns: u64) -> (r: Self)
        ensures
            r.origin() == now_ns,
            r.paused_at() is None,
            r.wf(),
    {
        PlaybackClock { origin_ns: now_ns, paused_at_ns: None }
    }

    /// Nanoseconds of playback elapsed at the given current time; a paused
    /// clock reports the time up to the pause.
    pub fn elapsed(&self, now_ns: u64) -> (r: u64)
        requires
            self.wf(),
            self.paused_at() is None ==> self.origin() <= now_ns,
        ensures
            r == (match self.paused_at() {
                Some(p) => p - self.origin(),
                None => now_ns - self.origin(),
            }),
    {
        match self.paused_at_ns {
            Some(p) => p - self.origin_ns,
            None => now_ns - self.origin_ns,
        }
    }

    /// Pauses at the given current time; pausing an already paused clock
    /// changes nothing.
    pub fn pause(&mut self, now_ns: u64)
        requires
            old(self).wf(),
            old(self).origin() <= now_ns,
        ensures
            final(self).wf(),
            final(self).origin() == old(self).origin(),
            final(self).paused_at() == (if old(self).paused_at() is None {
                Some(now_ns)
            } else {
                old(self).paused_at()
            }),
    {
        if self.paused_at_ns.is_none() {
            self.paused_at_ns = Some(now_ns);
        }
    }

    /// Resumes at the given current time, shifting the origin forward by the
    /// length of the pause so elapsed time continues where it stopped;
    /// resuming a running clock changes nothing.
    pub fn resume(&mut self, now_ns: u64)
        requires
            old(self).wf(),
            old(self).paused_at() matches Some(p) ==> p <= now_ns,
        ensures
            final(self).wf(),
            old(self).paused_at() matches Some(p) ==> final(self).origin() == old(self).origin()
                + (now_ns - p) && final(self).paused_at() is None,
            old(self).paused_at() is None ==> *final(self) == *old(self),
    {
        match self.paused_at_ns {
            Some(p) => {
                self.origin_ns = self.origin_ns + (now_ns - p);
                self.paused_at_ns = None;
            },
            None => {},
        }
    }
}

/// Representation of a future action.
#[derive(Debug, Clone, PartialEq)]
pub struct ScheduledEvent {
    /// When the event fires, in the driving clock's time units.
    pub timestamp: u64,
    /// Free-form label naming the event.
    pub label: String,
    /// The analysis frame current when the event fired, once it has.
    pub last_analysis: Option<AnalysisFrame>,
}

impl ScheduledEvent {
    /// Creates a pending event.
    pub fn new(timestamp: u64, label: String) -> (r: Self)
        ensures
            r.timestamp == timestamp,
            r.label == label,
            r.last_analysis is None,
    {
        ScheduledEvent { timestamp, label, last_analysis: None }
    }
}

/// The position at which an event with timestamp `t` is inserted into a
/// sorted event list: after every event at or before `t`.
pub open spec fn spec_insert_pos(events: Seq<ScheduledEvent>, t: u64) -> int
    decreases events.len(),
{
    if events.len() == 0 {
        0
    } else if events.last().timestamp <= t {
        events.len() as int
    } else {
        spec_insert_pos(events.drop_last(), t)
    }
}

/// On a sorted event list, the insert position is the unique boundary: every
/// event before it fires at or before `t`, every event after it fires later.
pub proof fn lemma_insert_pos_boundary(events: Seq<ScheduledEvent>, t: u64, k: int)
    requires
        forall|i: int, j: int|
            0 <= i < j < events.len() ==> (#[trigger] events[i]).timestamp <= (
            #[trigger] events[j]).timestamp,
        0 <= k <= events.len(),
        forall|i: int| 0 <= i < k ==> (#[trigger] events[i]).timestamp <= t,
        k < events.len() ==> events[k].timestamp > t,
    ensures
        spec_insert_pos(events, t) == k,
    decreases events.len(),
{
    if events.len() > 0 {
        if events.last().timestamp <= t {
            if k < events.len() {
                assert(events[k].timestamp > t);
                assert(events[k].timestamp <= events[events.len() - 1].timestamp);
            }
        } else {
            assert(k < events.len());
            assert forall|i: int, j: int|
                0 <= i < j < events.drop_last().len() implies (
            #[trigger] events.drop_last()[i]).timestamp <= (
            #[trigger] events.drop_last()[j]).timestamp by {
                assert(events.drop_last()[i] == events[i]);
                assert(events.drop_last()[j] == events[j]);
            }
            assert forall|i: int| 0 <= i < k implies (#[trigger] events.drop_last()[i]).timestamp
                <= t by {
                assert(events.drop_last()[i] == events[i]);
            }
            if k < events.len() - 1 {
                assert(events.drop_last()[k] == events[k]);
            }
            lemma_insert_pos_boundary(events.drop_last(), t, k);
        }
    }
}

/// Schedules scene transitions and other time-aligned events.
#[derive(Debug)]
pub struct Scheduler {
    events: Vec<ScheduledEvent>,
}

impl View for Scheduler {
    type V = Seq<ScheduledEvent>;

    closed spec fn view(&self) -> Seq<ScheduledEvent> {
        self.events@
    }
}

impl Scheduler {
    /// Pending events are sorted by timestamp.
    pub open spec fn wf(&self) -> bool {
        forall|i: int, j: int|
            0 <= i < j < self@.len() ==> (#[trigger] self@[i]).timestamp <= (
            #[trigger] self@[j]).timestamp
    }

    /// Creates a scheduler with no pending events.
    pub fn new() -> (r: Self)
        ensures
            r@ == Seq::<ScheduledEvent>::empty(),
            r.wf(),
    {
        let r = Scheduler { events: Vec::new() };
        proof {
            assert(r@ =~= Seq::<ScheduledEvent>::empty());
        }
        r
    }

    /// Adds an event, keeping the pending list sorted by timestamp; an event
    /// that ties goes after the ones already present.
    #[verifier::loop_isolation(false)]
    pub fn add_event(&mut self, event: ScheduledEvent)
        requires
            old(self).wf(),
        ensures
            final(self).wf(),
            final(self)@ == old(self)@.insert(spec_insert_pos(old(self)@, event.timestamp), event),
    {
        let ghost pre = self@;
        let len = self.events.len();
        let mut k: usize = len;
        while k > 0 && self.events[k - 1].timestamp > event.timestamp
            invariant
                k <= len,
                self@ == pre,
                forall|i: int| k <= i < len ==> (#[trigger] pre[i]).timestamp > event.timestamp,
            decreases k,
        {
            k = k - 1;
        }
        proof {
            lemma_insert_pos_boundary(pre, event.timestamp, k as int);
        }
        self.events.insert(k, event);
        proof {
            let post = self@;
            assert(post =~= pre.insert(k as int, event));
            assert forall|i: int, j: int|
                0 <= i < j < post.len() implies (#[trigger] post[i]).timestamp <= (
            #[trigger] post[j]).timestamp by {
                if i < k && j < k {
                    assert(post[i] == pre[i]);
                    assert(post[j] == pre[j]);
                } else if i < k && j == k {
                    assert(post[i] == pre[i]);
                    assert(pre[i].timestamp <= pre[k - 1].timestamp);
                } else if i < k && j > k {
                    assert(post[i] == pre[i]);
                    assert(post[j] == pre[j - 1]);
                } else if i == k && j > k {
                    assert(post[j] == pre[j - 1]);
                } else if i > k && j > k {
                    assert(post[i] == pre[i - 1]);
                    assert(post[j] == pre[j - 1]);
                }
            }
        }
    }

    /// Removes and returns, in order, every pending event due at or before
    /// `now`, stamping each with the current analysis frame.
    #[verifier::loop_isolation(false)]
    pub fn tick(&mut self, now: u64, analysis: &AnalysisFrame) -> (r: Vec<ScheduledEvent>)
        requires
            old(self).wf(),
        ensures
            final(self).wf(),
            final(self)@ == old(self)@.skip(spec_insert_pos(old(self)@, now)),
            r@.len() == spec_insert_pos(old(self)@, now),
            forall|i: int|
                0 <= i < r@.len() ==> r@[i] == (ScheduledEvent {
                    last_analysis: Some(*analysis),
                    ..old(self)@[i]
                }),
    {
        let ghost pre = self@;
        let mut triggered: Vec<ScheduledEvent> = Vec::new();
        proof {
            assert(pre.skip(0) =~= pre);
        }
        while self.events.len() > 0 && self.events[0].timestamp <= now
            invariant
                triggered@.len() <= pre.len(),
                self@ == pre.skip(triggered@.len() as int),
                forall|i: int|
                    0 <= i < triggered@.len() ==> triggered@[i] == (ScheduledEvent {
                        last_analysis: Some(*analysis),
                        ..pre[i]
                    }),
                forall|i: int|
                    0 <= i < triggered@.len() ==> (#[trigger] pre[i]).timestamp <= now,
            decreases self@.len(),
        {
            let ghost k = triggered@.len() as int;
            let mut event = self.events.remove(0);
            proof {
                assert(pre.skip(k)[0] == pre[k]);
                assert(pre.skip(k).drop_first() =~= pre.skip(k + 1));
            }
            event.last_analysis = Some(*analysis);
            triggered.push(event);
        }
        proof {
            let k = triggered@.len() as int;
            if k < pre.len() {
                assert(pre.skip(k)[0] == pre[k]);
            }
            lemma_insert_pos_boundary(pre, now, k);
        }
        triggered
    }
}

} // verus!
