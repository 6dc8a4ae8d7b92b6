//! What holds of the virtual tablet over its whole life: from its creation on,
//! whatever is asked of it and whichever emissions fail.

use vstd::prelude::*;

use crate::input::tablet_laws::{
    entered_sound, processed_sound, serial_sent_on_entering, serial_sent_once, without_serial,
};
use crate::input::tablet_model::{
    active_count, ensure_proximity, enter_proximity, initial, pen_event, pen_recent, processed, release_all,
    release_slots, still, stylus_updated, sync_slots, sync_touches, well_formed, Step, TabletModel,
    Trace,
};
use crate::protocol::packets::InputEvent;

verus! {

/// What is asked of the tablet.
pub enum Call {
    /// To process an event of the client, and the times at which it looks at
    /// the clock.
    Process { event: InputEvent, seen: u128, now: u128 },
    /// To bring the pen into proximity.
    EnterProximity,
}

/// What is asked of the tablet, and the emission that failed, if one did.
pub struct Turn {
    pub call: Call,
    pub failed: Option<nat>,
}

/// The emissions that are called for.
pub open spec fn called(state: TabletModel, call: Call) -> Trace {
    match call {
        Call::Process { event, seen, now } => processed(state, event, seen, now),
        Call::EnterProximity => enter_proximity(still(state)),
    }
}

/// The emissions that the tablet has tried to make in a turn.
pub open spec fn tried(state: TabletModel, turn: Turn) -> Seq<Step> {
    let t = called(state, turn.call);
    match turn.failed {
        Some(k) if k < t.steps.len() => t.steps.take(k as int + 1),
        _ => t.steps,
    }
}

/// The state of the tablet after a turn.
pub open spec fn after(state: TabletModel, turn: Turn) -> TabletModel {
    let t = called(state, turn.call);
    match turn.failed {
        Some(k) if k < t.steps.len() => t.steps[k as int].state,
        _ => t.end,
    }
}

/// The state of a new tablet after some turns.
pub open spec fn state_after(turns: Seq<Turn>) -> TabletModel
    decreases turns.len(),
{
    if turns.len() == 0 {
        initial()
    } else {
        after(state_after(turns.drop_last()), turns.last())
    }
}

/// All emissions that a new tablet has tried to make in some turns.
pub open spec fn tried_in(turns: Seq<Turn>) -> Seq<Step>
    decreases turns.len(),
{
    if turns.len() == 0 {
        Seq::empty()
    } else {
        tried_in(turns.drop_last()) + tried(state_after(turns.drop_last()), turns.last())
    }
}

// ---------------------------------------------------------------------------
// An announced tool stays announced
// ---------------------------------------------------------------------------

/// Whether the tool, once announced, stays so from emission to emission;
/// `from` tells whether it was announced before the first.
spec fn stays_announced(t: Trace, from: bool) -> bool {
    &&& forall|i: int, j: int|
        #![trigger t.steps[i], t.steps[j]]
        0 <= i <= j < t.steps.len() && t.steps[i].state.tool_announced
            ==> t.steps[j].state.tool_announced
    &&& forall|i: int|
        #![trigger t.steps[i]]
        0 <= i < t.steps.len() ==> (from ==> t.steps[i].state.tool_announced) && (
        t.steps[i].state.tool_announced ==> t.end.tool_announced)
    &&& from ==> t.end.tool_announced
}

proof fn lemma_release_slots_announced(t: Trace, n: nat, from: bool)
    requires
        stays_announced(t, from),
    ensures
        stays_announced(release_slots(t, n), from),
    decreases n,
{
    if n > 0 {
        lemma_release_slots_announced(t, (n - 1) as nat, from);
    }
}

proof fn lemma_sync_slots_announced(t: Trace, n: nat, count: nat, from: bool)
    requires
        stays_announced(t, from),
    ensures
        stays_announced(sync_slots(t, n, count), from),
    decreases n,
{
    if n > 0 {
        lemma_sync_slots_announced(t, (n - 1) as nat, count, from);
    }
}

proof fn lemma_sync_touches_announced(state: TabletModel)
    ensures
        stays_announced(sync_touches(still(state)), state.tool_announced),
{
    let count = active_count(state.slots);
    lemma_sync_slots_announced(still(state), 10, count, state.tool_announced);
}

proof fn lemma_ensure_proximity_announced(t: Trace, from: bool)
    requires
        stays_announced(t, from),
    ensures
        stays_announced(ensure_proximity(t), from),
{
}

proof fn lemma_pen_event_announced(t: Trace, event: InputEvent, from: bool)
    requires
        stays_announced(t, from),
    ensures
        stays_announced(pen_event(t, event), from),
{
    lemma_ensure_proximity_announced(t, from);
    lemma_ensure_proximity_announced(stylus_updated(t, event), from);
}

proof fn lemma_processed_announced(state: TabletModel, event: InputEvent, seen: u128, now: u128)
    ensures
        stays_announced(processed(state, event, seen, now), state.tool_announced),
{
    let from = state.tool_announced;
    match event {
        InputEvent::TouchDown { .. } | InputEvent::TouchMove { .. } | InputEvent::TouchUp { .. } => {
            assert forall|s: TabletModel| stays_announced(
                #[trigger] sync_touches(still(s)),
                s.tool_announced,
            ) by {
                lemma_sync_touches_announced(s);
            }
        },
        _ => {
            let noted = still(TabletModel { last_pen_activity: Some(now), ..state });
            lemma_release_slots_announced(noted, 10, from);
            let start = if pen_recent(state.last_pen_activity, seen) {
                noted
            } else {
                release_all(noted)
            };
            assert(stays_announced(start, from));
            lemma_pen_event_announced(start, event, from);
        },
    }
}

// ---------------------------------------------------------------------------
// The serial
// ---------------------------------------------------------------------------

proof fn lemma_called(state: TabletModel, call: Call)
    requires
        well_formed(state),
    ensures
        ({
            let t = called(state, call);
            &&& well_formed(t.end)
            &&& forall|i: int| 0 <= i < t.steps.len() ==> well_formed((#[trigger] t.steps[i]).state)
            &&& stays_announced(t, state.tool_announced)
            &&& forall|i: int|
                #![trigger t.steps[i]]
                0 <= i < t.steps.len() && !without_serial(t.steps[i].events)
                    ==> !state.tool_announced && t.steps[i].state.tool_announced
            &&& forall|i: int, j: int|
                #![trigger t.steps[i], t.steps[j]]
                0 <= i < t.steps.len() && 0 <= j < t.steps.len() && !without_serial(
                    t.steps[i].events,
                ) && !without_serial(t.steps[j].events) ==> i == j
        }),
{
    match call {
        Call::Process { event, seen, now } => {
            processed_sound(state, event, seen, now);
            serial_sent_once(state, event, seen, now);
            lemma_processed_announced(state, event, seen, now);
        },
        Call::EnterProximity => {
            entered_sound(still(state));
            serial_sent_on_entering(state);
        },
    }
}

/// Over the whole life of a tablet at most one emission carries the serial of
/// the pen, also when emissions fail; from then on the tool counts as
/// announced.
pub proof fn serial_sent_once_in_life(turns: Seq<Turn>)
    ensures
        well_formed(state_after(turns)),
        forall|i: int, j: int|
            #![trigger tried_in(turns)[i], tried_in(turns)[j]]
            0 <= i < tried_in(turns).len() && 0 <= j < tried_in(turns).len() && !without_serial(
                tried_in(turns)[i].events,
            ) && !without_serial(tried_in(turns)[j].events) ==> i == j,
        forall|i: int|
            #![trigger tried_in(turns)[i]]
            0 <= i < tried_in(turns).len() && !without_serial(tried_in(turns)[i].events)
                ==> state_after(turns).tool_announced,
    decreases turns.len(),
{
    if turns.len() > 0 {
        let before = turns.drop_last();
        let turn = turns.last();
        serial_sent_once_in_life(before);
        let state = state_after(before);
        let t = called(state, turn.call);
        lemma_called(state, turn.call);
        let earlier = tried_in(before);
        let new = tried(state, turn);
        let all = tried_in(turns);
        assert(all == earlier + new);
        assert forall|i: int| 0 <= i < new.len() implies #[trigger] new[i] == t.steps[i] by {}
        assert forall|i: int|
            #![trigger all[i]]
            0 <= i < all.len() && !without_serial(all[i].events) implies state_after(
            turns,
        ).tool_announced by {
            if i < earlier.len() {
                assert(all[i] == earlier[i]);
            } else {
                assert(all[i] == t.steps[i - earlier.len()]);
            }
        }
        assert forall|i: int, j: int|
            #![trigger all[i], all[j]]
            0 <= i < all.len() && 0 <= j < all.len() && !without_serial(all[i].events)
                && !without_serial(all[j].events) implies i == j by {
            let at = earlier.len() as int;
            if i < at {
                assert(all[i] == earlier[i]);
            } else {
                assert(all[i] == t.steps[i - at]);
            }
            if j < at {
                assert(all[j] == earlier[j]);
            } else {
                assert(all[j] == t.steps[j - at]);
            }
        }
    } else {
        assert(well_formed(initial()));
    }
}

} // verus!
