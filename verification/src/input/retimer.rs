//! Event retiming buffer for smooth input delivery.
//!
//! Incoming input events are buffered and emitted with proper timing based on
//! their timestamps, preventing bursts from network jitter. Local times are
//! nanoseconds of a [`Clock`].

use vstd::prelude::*;

use std::collections::VecDeque;

use crate::clock::{Clock, LATEST};
use crate::protocol::packets::InputPacket;

verus! {

/// Maximum events to buffer (prevents unbounded memory usage).
pub const MAX_BUFFER_SIZE: usize = 64;

/// Maximum delay to wait for an event (prevents excessive lag): 50 ms.
pub const MAX_DELAY: u128 = 50_000_000;

/// Minimum time between events (prevents too-fast emission): 1 ms.
pub const MIN_INTERVAL: u128 = 1_000_000;

/// What an [`EventRetimer`] holds.
pub struct RetimerModel {
    /// Buffered events with their target emission time, oldest first.
    pub buffer: Seq<(u128, InputPacket)>,
    /// A timestamp of the client, in microseconds, and the local time that it
    /// stands for.
    pub clock_offset: Option<(u64, u128)>,
    /// When an event was last emitted.
    pub last_emit: Option<u128>,
}

impl RetimerModel {
    /// Nothing buffered, and no clock to go by.
    pub open spec fn empty() -> RetimerModel {
        RetimerModel { buffer: Seq::empty(), clock_offset: None, last_emit: None }
    }

    /// What the client's clock is compared with when an event arrives: what
    /// the first event has fixed.
    pub open spec fn synced(self, timestamp: u64, now: u128) -> (u64, u128) {
        match self.clock_offset {
            Some(offset) => offset,
            None => (timestamp, now),
        }
    }

    /// When an event that arrives now is to be emitted: as long after the
    /// first event as it was made, but within the maximum delay; at once if
    /// the client's clock went backwards.
    pub open spec fn target(self, timestamp: u64, now: u128) -> int {
        let (base, at) = self.synced(timestamp, now);
        let due: int = if timestamp >= base {
            at + (timestamp - base) * 1000
        } else {
            now as int
        };
        if due <= now + MAX_DELAY {
            due
        } else {
            now + MAX_DELAY
        }
    }

    /// With an event more; a full buffer loses its oldest event.
    pub open spec fn pushed(self, packet: InputPacket, now: u128) -> RetimerModel {
        let kept = if self.buffer.len() >= MAX_BUFFER_SIZE {
            self.buffer.drop_first()
        } else {
            self.buffer
        };
        RetimerModel {
            buffer: kept.push((self.target(packet.timestamp, now) as u128, packet)),
            clock_offset: Some(self.synced(packet.timestamp, now)),
            last_emit: self.last_emit,
        }
    }

    /// Whether the last event was emitted long enough before `now`.
    pub open spec fn interval_passed(self, now: u128) -> bool {
        self.last_emit matches Some(last) ==> now - last >= MIN_INTERVAL
    }

    /// Whether there is nothing to be gained by keeping an event that arrives
    /// now: none waits before it, its time has come, and the last event was
    /// emitted long enough ago.
    pub open spec fn needs_no_retiming(self, timestamp: u64, now: u128) -> bool {
        &&& self.buffer.len() == 0
        &&& self.target(timestamp, now) <= now
        &&& self.interval_passed(now)
    }

    /// What becomes of an event that arrives now: it is emitted at once where
    /// retiming is not beneficial, and waits for its time otherwise.
    pub open spec fn arrived(self, packet: InputPacket, now: u128) -> (
        Option<InputPacket>,
        RetimerModel,
    ) {
        if self.needs_no_retiming(packet.timestamp, now) {
            (
                Some(packet),
                RetimerModel {
                    buffer: self.buffer,
                    clock_offset: Some(self.synced(packet.timestamp, now)),
                    last_emit: Some(now),
                },
            )
        } else {
            (None, self.pushed(packet, now))
        }
    }

    /// Whether the oldest event is emitted at `now`: its time has come, and
    /// the last event was emitted long enough ago.
    pub open spec fn ready(self, now: u128) -> bool {
        &&& self.interval_passed(now)
        &&& self.buffer.len() > 0
        &&& self.buffer[0].0 <= now
    }

    /// When the oldest event is ready: at its time, but not before the last
    /// event was emitted long enough ago.
    pub open spec fn ready_at(self) -> int {
        match self.last_emit {
            Some(last) => if last + MIN_INTERVAL > self.buffer[0].0 {
                last + MIN_INTERVAL
            } else {
                self.buffer[0].0 as int
            },
            None => self.buffer[0].0 as int,
        }
    }

    /// The event that is emitted at `now`, and what remains.
    pub open spec fn popped(self, now: u128) -> (Option<InputPacket>, RetimerModel) {
        if self.ready(now) {
            (
                Some(self.buffer[0].1),
                RetimerModel {
                    buffer: self.buffer.drop_first(),
                    last_emit: Some(now),
                    ..self
                },
            )
        } else {
            (None, self)
        }
    }

    /// The events that are emitted at the given times, one at each, and what
    /// remains.
    pub open spec fn drained(self, times: Seq<u128>) -> (Seq<InputPacket>, RetimerModel)
        decreases times.len(),
    {
        if times.len() == 0 {
            (Seq::empty(), self)
        } else {
            let (packets, rest) = self.drained(times.drop_last());
            let (packet, after) = rest.popped(times.last());
            match packet {
                Some(packet) => (packets.push(packet), after),
                None => (packets, after),
            }
        }
    }

    /// Whether the retimer can be in this state: the buffer is bounded, and
    /// the times are times of the clock.
    pub open spec fn well_formed(self) -> bool {
        &&& self.buffer.len() <= MAX_BUFFER_SIZE
        &&& self.clock_offset matches Some(offset) ==> offset.1 <= LATEST
        &&& self.last_emit matches Some(last) ==> last <= LATEST
    }
}

/// Whether a clock can show all of the times.
pub open spec fn all_shown(clock: Clock, times: Seq<u128>) -> bool {
    forall|i: int| 0 <= i < times.len() ==> clock.shows(#[trigger] times[i])
}

/// Buffers input events and emits them with proper timing.
#[derive(Debug, Clone)]
pub struct EventRetimer {
    buffer: VecDeque<(u128, InputPacket)>,
    clock_offset: Option<(u64, u128)>,
    last_emit: Option<u128>,
    clock: Clock,
}

impl View for EventRetimer {
    type V = RetimerModel;

    closed spec fn view(&self) -> RetimerModel {
        RetimerModel {
            buffer: self.buffer@,
            clock_offset: self.clock_offset,
            last_emit: self.last_emit,
        }
    }
}

impl EventRetimer {
    /// Whether the retimer can be in this state.
    pub open spec fn wf(&self) -> bool {
        self@.well_formed()
    }

    /// The clock that the retimer goes by.
    pub closed spec fn clock(&self) -> Clock {
        self.clock
    }

    /// Creates a retimer with nothing buffered.
    pub fn new() -> (retimer: EventRetimer)
        ensures
            retimer.wf(),
            retimer@ == RetimerModel::empty(),
    {
        EventRetimer {
            buffer: VecDeque::with_capacity(MAX_BUFFER_SIZE),
            clock_offset: None,
            last_emit: None,
            clock: Clock::start(),
        }
    }

    /// The current time of the retimer's clock.
    pub fn now(&self) -> (now: u128)
        ensures
            now <= LATEST,
            self.clock().shows(now),
    {
        self.clock.now()
    }

    /// Reset the retimer state (e.g., on disconnect).
    pub fn reset(&mut self)
        ensures
            final(self).wf(),
            final(self)@ == RetimerModel::empty(),
            final(self).clock() == old(self).clock(),
    {
        self.buffer.clear();
        self.clock_offset = None;
        self.last_emit = None;
    }

    /// Add an event to the buffer.
    /// Returns the event immediately if retiming is not beneficial.
    pub fn push(&mut self, packet: InputPacket) -> (at_once: Option<InputPacket>)
        requires
            old(self).wf(),
        ensures
            final(self).wf(),
            final(self).clock() == old(self).clock(),
            exists|now: u128|
                now <= LATEST && old(self).clock().shows(now) && (at_once, final(self)@)
                    == #[trigger] old(self)@.arrived(packet, now),
    {
        let now: u128 = self.clock.now();
        let at_once: Option<InputPacket> = self.push_at(packet, now);
        assert((at_once, self@) == old(self)@.arrived(packet, now));
        at_once
    }

    /// Add an event that arrives at `now` to the buffer.
    /// Returns the event immediately if retiming is not beneficial.
    pub fn push_at(&mut self, packet: InputPacket, now: u128) -> (at_once: Option<InputPacket>)
        requires
            old(self).wf(),
            now <= LATEST,
        ensures
            final(self).wf(),
            final(self).clock() == old(self).clock(),
            (at_once, final(self)@) == old(self)@.arrived(packet, now),
    {
        let (base, at): (u64, u128) = match self.clock_offset {
            Some(offset) => offset,
            None => (packet.timestamp, now),
        };
        self.clock_offset = Some((base, at));
        let due: u128 = if packet.timestamp >= base {
            at + (packet.timestamp - base) as u128 * 1000
        } else {
            now
        };
        let target: u128 = if due <= now + MAX_DELAY {
            due
        } else {
            now + MAX_DELAY
        };
        assert(target == old(self)@.target(packet.timestamp, now));
        if self.buffer.len() == 0 && target <= now && self.interval_over(now) {
            self.last_emit = Some(now);
            return Some(packet);
        }
        if self.buffer.len() >= MAX_BUFFER_SIZE {
            let _ = self.buffer.pop_front();
            assert(self.buffer@ =~= old(self)@.buffer.drop_first());
        }
        self.buffer.push_back((target, packet));
        None
    }

    fn interval_over(&self, now: u128) -> (over: bool)
        ensures
            over == self@.interval_passed(now),
    {
        match self.last_emit {
            Some(last) => now >= last && now - last >= MIN_INTERVAL,
            None => true,
        }
    }

    /// Get the next event that's ready to be emitted, if any.
    /// Returns None if no events are ready yet.
    pub fn pop_ready(&mut self) -> (packet: Option<InputPacket>)
        requires
            old(self).wf(),
        ensures
            final(self).wf(),
            final(self).clock() == old(self).clock(),
            exists|now: u128|
                now <= LATEST && old(self).clock().shows(now) && (packet, final(self)@)
                    == #[trigger] old(self)@.popped(now),
    {
        let now: u128 = self.clock.now();
        let packet: Option<InputPacket> = self.pop_ready_at(now);
        assert((packet, self@) == old(self)@.popped(now));
        packet
    }

    /// Get the next event that's ready to be emitted at `now`, if any.
    pub fn pop_ready_at(&mut self, now: u128) -> (packet: Option<InputPacket>)
        requires
            old(self).wf(),
            now <= LATEST,
        ensures
            final(self).wf(),
            final(self).clock() == old(self).clock(),
            (packet, final(self)@) == old(self)@.popped(now),
    {
        if !self.interval_over(now) {
            return None;
        }
        if self.buffer.len() > 0 && self.buffer[0].0 <= now {
            self.last_emit = Some(now);
            let first: Option<(u128, InputPacket)> = self.buffer.pop_front();
            assert(self.buffer@ =~= old(self)@.buffer.drop_first());
            match first {
                Some((_, packet)) => Some(packet),
                None => None,
            }
        } else {
            None
        }
    }

    /// Get all events that are ready to be emitted: the events that come out
    /// one after the other, until none does.
    pub fn drain_ready(&mut self) -> (ready: Vec<InputPacket>)
        requires
            old(self).wf(),
        ensures
            final(self).wf(),
            final(self).clock() == old(self).clock(),
            exists|times: Seq<u128>, last: u128|
                #![trigger old(self)@.drained(times), final(self)@.popped(last)]
                last <= LATEST && old(self).clock().shows(last) && times.len() == ready@.len()
                    && all_shown(old(self).clock(), times) && old(self)@.drained(times) == (
                    ready@,
                    final(self)@,
                ) && final(self)@.popped(last).0 is None,
    {
        let mut ready: Vec<InputPacket> = Vec::new();
        let ghost mut times: Seq<u128> = Seq::empty();
        loop
            invariant
                self.wf(),
                self.clock() == old(self).clock(),
                all_shown(self.clock(), times),
                old(self)@.drained(times) == (ready@, self@),
                times.len() == ready@.len(),
            decreases self@.buffer.len(),
        {
            let now: u128 = self.clock.now();
            let ghost before = self@;
            match self.pop_ready_at(now) {
                Some(packet) => {
                    ready.push(packet);
                    proof {
                        assert(times.push(now).drop_last() =~= times);
                        times = times.push(now);
                    }
                },
                None => {
                    assert(self@ == before);
                    assert(self@.popped(now).0 is None);
                    return ready;
                },
            }
        }
    }

    /// Nanoseconds until the next event is ready, or None if buffer is empty.
    pub fn time_until_next(&self) -> (wait: Option<u128>)
        requires
            self.wf(),
        ensures
            wait is Some <==> self@.buffer.len() > 0,
            wait matches Some(nanos) ==> exists|now: u128|
                now <= LATEST && self.clock().shows(now) && nanos == #[trigger] until(
                    self@.ready_at(),
                    now,
                ),
    {
        let now: u128 = self.clock.now();
        let wait: Option<u128> = self.time_until_next_at(now);
        assert(wait matches Some(nanos) ==> nanos == until(self@.ready_at(), now));
        wait
    }

    /// Nanoseconds from `now` until the next event is ready, or None if buffer
    /// is empty.
    pub fn time_until_next_at(&self, now: u128) -> (wait: Option<u128>)
        requires
            self.wf(),
        ensures
            wait is Some <==> self@.buffer.len() > 0,
            wait matches Some(nanos) ==> nanos == until(self@.ready_at(), now),
    {
        if self.buffer.len() == 0 {
            return None;
        }
        let target: u128 = self.buffer[0].0;
        let ready_at: u128 = match self.last_emit {
            Some(last) => if last + MIN_INTERVAL > target {
                last + MIN_INTERVAL
            } else {
                target
            },
            None => target,
        };
        if ready_at > now {
            Some((ready_at - now) as u128)
        } else {
            Some(0)
        }
    }

    /// Check if there are buffered events.
    pub fn has_pending(&self) -> (pending: bool)
        ensures
            pending == (self@.buffer.len() > 0),
    {
        self.buffer.len() > 0
    }
}

impl Default for EventRetimer {
    fn default() -> (retimer: Self)
        ensures
            retimer.wf(),
            retimer@ == RetimerModel::empty(),
    {
        EventRetimer::new()
    }
}

/// How long it is from `now` until `time`; nothing if it has passed.
pub open spec fn until(time: int, now: u128) -> int {
    if time > now {
        time - now
    } else {
        0
    }
}

/// The time until the next event is exact: from `now` on, the next event is
/// ready at `later` exactly if that much time has passed.
pub proof fn wait_is_exact(state: RetimerModel, now: u128, later: u128)
    requires
        state.buffer.len() > 0,
        now <= later,
    ensures
        state.ready(later) <==> later >= now + until(state.ready_at(), now),
        state.popped(later).0 is Some <==> later >= now + until(state.ready_at(), now),
{
}

/// An event is returned immediately exactly if it would come out of an empty
/// buffer at the time that it goes in, and with the same effect. It never
/// overtakes an event that waits.
pub proof fn at_once_is_no_sooner(state: RetimerModel, packet: InputPacket, now: u128)
    requires
        state.well_formed(),
        now <= LATEST,
    ensures
        state.arrived(packet, now).0 is Some ==> state.arrived(packet, now) == state.pushed(
            packet,
            now,
        ).popped(now),
        state.buffer.len() == 0 ==> (state.arrived(packet, now).0 is Some <==> state.pushed(
            packet,
            now,
        ).popped(now).0 is Some),
        state.buffer.len() > 0 ==> state.arrived(packet, now) == (
            None::<InputPacket>,
            state.pushed(packet, now),
        ),
{
    if state.buffer.len() == 0 {
        assert(state.pushed(packet, now).buffer.drop_first() =~= state.buffer);
    }
}

/// An event waits for at most the maximum delay: at that time after its
/// arrival it is due, and if it is the oldest one then and the last event was
/// emitted long enough ago, it is emitted.
pub proof fn bounded_delay(
    state: RetimerModel,
    packet: InputPacket,
    now: u128,
    later: RetimerModel,
    at: u128,
)
    requires
        state.well_formed(),
        now <= LATEST,
        at >= now + MAX_DELAY,
        later.buffer.len() > 0,
        later.buffer[0] == state.pushed(packet, now).buffer.last(),
        later.last_emit matches Some(last) ==> at - last >= MIN_INTERVAL,
    ensures
        state.pushed(packet, now).buffer.last().1 == packet,
        state.pushed(packet, now).buffer.last().0 <= now + MAX_DELAY,
        later.popped(at).0 == Some(packet),
{
}

/// Between two emitted events there is at least the minimum interval.
pub proof fn events_are_spaced(state: RetimerModel, first: u128, second: u128)
    requires
        state.popped(first).0 is Some,
        state.popped(first).1.popped(second).0 is Some,
    ensures
        second - first >= MIN_INTERVAL,
{
}

/// At one time, at most one event is emitted.
pub proof fn one_event_at_a_time(state: RetimerModel, times: Seq<u128>)
    requires
        times.len() > 0,
        forall|i: int| 0 <= i < times.len() ==> #[trigger] times[i] == times[0],
    ensures
        state.drained(times).0.len() <= 1,
        state.drained(times).0.len() == 1 ==> state.drained(times).1.last_emit == Some(times[0]),
        state.drained(times).0.len() == 0 ==> state.drained(times).1 == state,
    decreases times.len(),
{
    if times.len() > 1 {
        let front = times.drop_last();
        assert forall|i: int| 0 <= i < front.len() implies #[trigger] front[i] == front[0] by {
            assert(times[i] == times[0]);
        }
        one_event_at_a_time(state, front);
        assert(times.last() == times[0]);
    } else {
        assert(state.drained(times.drop_last()) == (Seq::<InputPacket>::empty(), state));
    }
}

/// The packets of buffered events.
pub open spec fn packets(buffer: Seq<(u128, InputPacket)>) -> Seq<InputPacket> {
    buffer.map_values(|entry: (u128, InputPacket)| entry.1)
}

/// Events come out in the order in which they were put in, and none is lost
/// or made up: those that come out and those that remain are those that were
/// there.
pub proof fn first_in_first_out(state: RetimerModel, times: Seq<u128>)
    ensures
        state.drained(times).0 + packets(state.drained(times).1.buffer) == packets(state.buffer),
    decreases times.len(),
{
    if times.len() == 0 {
        assert(state.drained(times).0 + packets(state.drained(times).1.buffer) =~= packets(
            state.buffer,
        ));
    } else {
        first_in_first_out(state, times.drop_last());
        let (before, rest) = state.drained(times.drop_last());
        if rest.ready(times.last()) {
            assert(packets(rest.buffer) =~= seq![rest.buffer[0].1] + packets(
                rest.buffer.drop_first(),
            ));
            assert(before.push(rest.buffer[0].1) + packets(rest.buffer.drop_first()) =~= before
                + packets(rest.buffer));
        }
    }
}

/// An event that is put in goes behind all others; only the oldest is lost,
/// and only if the buffer is full.
pub proof fn pushed_goes_last(state: RetimerModel, packet: InputPacket, now: u128)
    requires
        state.well_formed(),
    ensures
        state.buffer.len() < MAX_BUFFER_SIZE ==> packets(state.pushed(packet, now).buffer)
            == packets(state.buffer).push(packet),
        state.buffer.len() == MAX_BUFFER_SIZE ==> packets(state.pushed(packet, now).buffer)
            == packets(state.buffer).drop_first().push(packet),
{
    assert(state.buffer.len() < MAX_BUFFER_SIZE ==> packets(state.pushed(packet, now).buffer)
        =~= packets(state.buffer).push(packet));
    assert(state.buffer.len() == MAX_BUFFER_SIZE ==> packets(state.pushed(packet, now).buffer)
        =~= packets(state.buffer).drop_first().push(packet));
}

/// Events keep the distance that they had at the client: if the client's
/// clock has not gone backwards and neither event is delayed too long, their
/// emission times are as far apart as their timestamps.
pub proof fn distances_are_kept(
    state: RetimerModel,
    first: InputPacket,
    second: InputPacket,
    now: u128,
    later: u128,
    base: u64,
    at: u128,
)
    requires
        state.well_formed(),
        state.clock_offset == Some((base, at)),
        base <= first.timestamp <= second.timestamp,
        at + (second.timestamp - base) * 1000 <= now + MAX_DELAY,
        now <= later <= LATEST,
    ensures
        state.pushed(first, now).pushed(second, later).buffer.last().0 - state.pushed(
            first,
            now,
        ).buffer.last().0 == (second.timestamp - first.timestamp) * 1000,
{
}

/// An event comes out exactly if it is the oldest one, its time has come, and
/// the last event came out at least a millisecond before. It comes out as it went
/// in; all others stay, with their times, and the time is noted. Otherwise
/// nothing changes.
pub proof fn events_come_out_in_time(state: RetimerModel, now: u128)
    ensures
        ({
            let (packet, after) = state.popped(now);
            let due = state.buffer.len() > 0 && state.buffer[0].0 <= now && (state.last_emit is None
                || now - state.last_emit->Some_0 >= 1_000_000);
            &&& packet is Some <==> due
            &&& due ==> packet == Some(state.buffer[0].1) && after.buffer == state.buffer.skip(1)
                && after.last_emit == Some(now)
            &&& !due ==> after == state
            &&& after.clock_offset == state.clock_offset
        }),
{
    if state.buffer.len() > 0 {
        assert(state.buffer.drop_first() =~= state.buffer.skip(1));
    }
}

/// The time until an event can come out is that until its own time, or until a
/// millisecond after the last one, whichever is later; it is nothing if both have
/// passed.
pub proof fn wait_is_for_time_and_interval(state: RetimerModel, now: u128)
    requires
        state.buffer.len() > 0,
    ensures
        ({
            let wait = until(state.ready_at(), now);
            let target = state.buffer[0].0;
            &&& wait >= 0
            &&& now + wait >= target
            &&& state.last_emit is Some ==> now + wait >= state.last_emit->Some_0 + 1_000_000
            &&& wait == 0 || now + wait == target || (state.last_emit is Some && now + wait
                == state.last_emit->Some_0 + 1_000_000)
        }),
{
}

/// The first event fixes what the clock of the client is compared with, and
/// nothing changes that afterwards but a reset. From then on an event is due as
/// long after that moment as it was made after the first one, but at most fifty
/// milliseconds after it arrives; one that was made before the first is due when
/// it arrives. It waits behind all others, but comes back at once if it is due,
/// none waits, and the last one came out at least a millisecond before. Only a
/// full buffer loses an event, the oldest one.
pub proof fn events_are_due_as_they_were_made(
    state: RetimerModel,
    packet: InputPacket,
    now: u128,
)
    requires
        state.well_formed(),
        now <= LATEST,
    ensures
        ({
            let (at_once, after) = state.arrived(packet, now);
            let (base, at) = if state.clock_offset is Some {
                state.clock_offset->Some_0
            } else {
                (packet.timestamp, now)
            };
            let made = at + (packet.timestamp - base) * 1000;
            let due = if packet.timestamp < base {
                now as int
            } else if made > now + 50_000_000 {
                now + 50_000_000
            } else {
                made
            };
            let kept = if state.buffer.len() == 64 {
                state.buffer.skip(1)
            } else {
                state.buffer
            };
            let passes = state.buffer.len() == 0 && due <= now && (state.last_emit is None || now
                - state.last_emit->Some_0 >= 1_000_000);
            &&& after.clock_offset == Some((base, at))
            &&& passes ==> at_once == Some(packet) && after.buffer == state.buffer
                && after.last_emit == Some(now)
            &&& !passes ==> {
                &&& at_once is None
                &&& after.last_emit == state.last_emit
                &&& after.buffer.len() == kept.len() + 1
                &&& after.buffer.drop_last() == kept
                &&& after.buffer.last().0 == due
                &&& after.buffer.last().1 == packet
            }
        }),
{
    let after = state.arrived(packet, now).1;
    if state.buffer.len() == 64 {
        assert(state.buffer.drop_first() =~= state.buffer.skip(1));
        assert(after.buffer.drop_last() =~= state.buffer.skip(1));
    } else if after.buffer.len() > state.buffer.len() {
        assert(after.buffer.drop_last() =~= state.buffer);
    }
}

/// Events that come out one after the other, one at each of the given times, are
/// the oldest ones in their order, each at its time or later, and at least a
/// millisecond apart. So two of them are as far apart as their times, counted from
/// when the first came out, allow. What remains is the rest, as it was.
pub proof fn drained_events_keep_their_times(state: RetimerModel, times: Seq<u128>)
    requires
        state.drained(times).0.len() == times.len(),
    ensures
        ({
            let (packets, after) = state.drained(times);
            let n = times.len() as int;
            &&& n <= state.buffer.len()
            &&& after.buffer == state.buffer.skip(n)
            &&& after.clock_offset == state.clock_offset
            &&& after.last_emit == if n == 0 {
                state.last_emit
            } else {
                Some(times.last())
            }
            &&& forall|i: int|
                #![trigger packets[i]]
                #![trigger times[i]]
                0 <= i < n ==> packets[i] == state.buffer[i].1 && state.buffer[i].0 <= times[i]
            &&& n > 0 && state.last_emit is Some ==> times[0] - state.last_emit->Some_0 >= 1_000_000
            &&& forall|i: int, j: int|
                #![trigger times[i], times[j]]
                0 <= i < j < n ==> times[j] - times[i] >= (j - i) * 1_000_000 && times[j]
                    >= state.buffer[j].0
        }),
    decreases times.len(),
{
    if times.len() == 0 {
        assert(state.buffer.skip(0) =~= state.buffer);
    } else {
        let front = times.drop_last();
        lemma_drained_len(state, front);
        drained_events_keep_their_times(state, front);
        let (before, rest) = state.drained(front);
        let (packets, after) = state.drained(times);
        let n = times.len() as int;
        events_come_out_in_time(rest, times.last());
        assert(rest.buffer[0] == state.buffer[n - 1]);
        assert(rest.buffer.skip(1) =~= state.buffer.skip(n));
        assert forall|i: int|
            #![trigger packets[i]]
            #![trigger times[i]]
            0 <= i < n implies packets[i] == state.buffer[i].1 && state.buffer[i].0 <= times[i] by {
            if i < n - 1 {
                assert(packets[i] == before[i]);
                assert(times[i] == front[i]);
            }
        }
        assert(n > 1 ==> times[0] == front[0]);
        assert forall|i: int, j: int|
            #![trigger times[i], times[j]]
            0 <= i < j < n implies times[j] - times[i] >= (j - i) * 1_000_000 && times[j]
            >= state.buffer[j].0 by {
            assert(times[i] == front[i]);
            if j < n - 1 {
                assert(times[j] == front[j]);
            } else {
                assert(front.last() == front[n - 2]);
                if i < n - 2 {
                    assert(front[n - 2] - front[i] >= (n - 2 - i) * 1_000_000);
                }
            }
        }
    }
}

/// No more events come out than times are given.
proof fn lemma_drained_len(state: RetimerModel, times: Seq<u128>)
    ensures
        state.drained(times).0.len() <= times.len(),
    decreases times.len(),
{
    if times.len() > 0 {
        lemma_drained_len(state, times.drop_last());
    }
}

/// An event never comes out before its time, however many wait with it: one that
/// waits for its time, and comes out later on, comes out as long after the moment
/// that the clocks are compared at as it was made, or fifty milliseconds after it
/// arrived. So a burst is spread as it was made.
pub proof fn bursts_are_spread(
    state: RetimerModel,
    packet: InputPacket,
    now: u128,
    later: RetimerModel,
    out: u128,
    base: u64,
    at: u128,
)
    requires
        state.well_formed(),
        now <= LATEST,
        state.clock_offset == Some((base, at)),
        packet.timestamp >= base,
        state.arrived(packet, now).0 is None,
        later.buffer.len() > 0,
        later.buffer[0] == state.arrived(packet, now).1.buffer.last(),
        later.popped(out).0 is Some,
    ensures
        later.popped(out).0 == Some(packet),
        out >= at + (packet.timestamp - base) * 1000 || out >= now + 50_000_000,
{
    events_come_out_in_time(later, out);
    events_are_due_as_they_were_made(state, packet, now);
}

/// A retimer that is new or was reset knows nothing: no event waits, no clock was
/// compared, and none has come out.
pub proof fn empty_retimer_knows_nothing()
    ensures
        RetimerModel::empty().buffer.len() == 0,
        RetimerModel::empty().clock_offset is None,
        RetimerModel::empty().last_emit is None,
{
}

} // verus!
