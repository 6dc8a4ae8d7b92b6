//! Which fingers a gesture is made of: those that were down before and still
//! are.

use vstd::prelude::*;

use crate::input::events::{TouchSlot, MT_SLOTS};
use crate::input::tablet_model::active_in;

verus! {

/// Where a finger was, and which one it was.
#[derive(Debug, Clone, Copy, PartialEq, Eq, Structural)]
pub struct Point {
    pub tracking_id: i32,
    pub x: i32,
    pub y: i32,
}

/// A finger that is down now and was before: where it was and where it is.
#[derive(Debug, Clone, Copy, PartialEq, Eq, Structural)]
pub struct MatchedPair {
    pub previous_x: i32,
    pub previous_y: i32,
    pub x: i32,
    pub y: i32,
}

/// The finger in a slot.
pub open spec fn point_in(slot: TouchSlot) -> Option<Point> {
    if slot.active {
        Some(Point { tracking_id: slot.tracking_id, x: slot.x, y: slot.y })
    } else {
        None
    }
}

/// What is remembered once the slots have been seen.
pub open spec fn seen(previous: Seq<Option<Point>>, slots: Seq<TouchSlot>) -> Seq<Option<Point>> {
    Seq::new(
        previous.len(),
        |i: int|
            if i < slots.len() {
                point_in(slots[i])
            } else {
                previous[i]
            },
    )
}

/// The finger that was in a slot and still is, if there is one.
pub open spec fn pair_in(previous: Option<Point>, slot: TouchSlot) -> Option<MatchedPair> {
    match previous {
        Some(point) => if slot.active && point.tracking_id == slot.tracking_id {
            Some(
                MatchedPair {
                    previous_x: point.x,
                    previous_y: point.y,
                    x: slot.x,
                    y: slot.y,
                },
            )
        } else {
            None
        },
        None => None,
    }
}

/// The fingers of the first `n` slots that were there and still are, in order.
pub open spec fn matched(previous: Seq<Option<Point>>, slots: Seq<TouchSlot>, n: nat) -> Seq<
    MatchedPair,
>
    decreases n,
{
    if n == 0 {
        Seq::empty()
    } else {
        let before = matched(previous, slots, (n - 1) as nat);
        match pair_in(previous[n - 1], slots[n - 1]) {
            Some(pair) => before.push(pair),
            None => before,
        }
    }
}

/// A simple gesture detector that finds the fingers of a gesture in multitouch
/// data.
#[derive(Debug, Clone)]
pub struct GestureDetector {
    /// Previous positions of active slots. The tracking ID ensures that the
    /// correct fingers are matched.
    previous_points: Vec<Option<Point>>,
}

impl View for GestureDetector {
    type V = Seq<Option<Point>>;

    closed spec fn view(&self) -> Seq<Option<Point>> {
        self.previous_points@
    }
}

impl Default for GestureDetector {
    fn default() -> (detector: Self)
        ensures
            detector.wf(),
            detector@ == Seq::new(10, |i: int| None::<Point>),
    {
        GestureDetector::new()
    }
}

impl GestureDetector {
    /// There is one point for each slot.
    pub open spec fn wf(&self) -> bool {
        self@.len() == MT_SLOTS
    }

    /// Creates a detector that has seen no finger.
    pub fn new() -> (detector: GestureDetector)
        ensures
            detector.wf(),
            detector@ == Seq::new(10, |i: int| None::<Point>),
    {
        let mut previous_points: Vec<Option<Point>> = Vec::new();
        while previous_points.len() < 10
            invariant
                previous_points.len() <= 10,
                forall|i: int| 0 <= i < previous_points.len() ==> previous_points@[i] is None,
            decreases 10 - previous_points.len(),
        {
            previous_points.push(None);
        }
        let detector = GestureDetector { previous_points };
        assert(detector@ =~= Seq::new(10, |i: int| None::<Point>));
        detector
    }

    /// Process the current state of touch slots: the fingers that were active
    /// before and still are, if there are two or more.
    pub fn process(&mut self, slots: &[TouchSlot]) -> (pairs: Option<Vec<MatchedPair>>)
        requires
            old(self).wf(),
            slots@.len() <= MT_SLOTS,
        ensures
            final(self).wf(),
            final(self)@ == seen(old(self)@, slots@),
            match pairs {
                Some(pairs) => pairs@ == matched(old(self)@, slots@, slots@.len())
                    && pairs@.len() >= 2,
                None => matched(old(self)@, slots@, slots@.len()).len() < 2,
            },
    {
        let mut pairs: Vec<MatchedPair> = Vec::new();
        let mut i: usize = 0;
        while i < slots.len()
            invariant
                *self == *old(self),
                self.previous_points@.len() == 10,
                i <= slots@.len() <= 10,
                pairs@ == matched(self@, slots@, i as nat),
            decreases slots@.len() - i,
        {
            let slot: TouchSlot = slots[i];
            if slot.active {
                if let Some(point) = self.previous_points[i] {
                    if point.tracking_id == slot.tracking_id {
                        pairs.push(
                            MatchedPair {
                                previous_x: point.x,
                                previous_y: point.y,
                                x: slot.x,
                                y: slot.y,
                            },
                        );
                    }
                }
            }
            i = i + 1;
        }
        self.update_previous(slots);
        if pairs.len() < 2 {
            None
        } else {
            Some(pairs)
        }
    }

    fn update_previous(&mut self, slots: &[TouchSlot])
        requires
            old(self).wf(),
            slots@.len() <= MT_SLOTS,
        ensures
            final(self).wf(),
            final(self)@ == seen(old(self)@, slots@),
    {
        let mut i: usize = 0;
        while i < slots.len()
            invariant
                self.previous_points@.len() == 10,
                old(self)@.len() == 10,
                i <= slots@.len() <= 10,
                forall|j: int|
                    0 <= j < i ==> #[trigger] self.previous_points@[j] == point_in(slots@[j]),
                forall|j: int|
                    i <= j < 10 ==> #[trigger] self.previous_points@[j] == old(self)@[j],
            decreases slots@.len() - i,
        {
            let slot: TouchSlot = slots[i];
            let point: Option<Point> = if slot.active {
                Some(Point { tracking_id: slot.tracking_id, x: slot.x, y: slot.y })
            } else {
                None
            };
            self.previous_points.set(i, point);
            i = i + 1;
        }
        assert(self@ =~= seen(old(self)@, slots@));
    }
}

/// A gesture has no more fingers than are down: with fewer than two active
/// fingers there is none.
pub proof fn gesture_needs_two_fingers(
    previous: Seq<Option<Point>>,
    slots: Seq<TouchSlot>,
    n: nat,
)
    ensures
        matched(previous, slots, n).len() <= active_in(slots, n),
    decreases n,
{
    if n > 0 {
        gesture_needs_two_fingers(previous, slots, (n - 1) as nat);
    }
}

/// Fingers that stay where they are have not moved: seeing the same slots
/// again matches every active finger with itself.
pub proof fn same_fingers_do_not_move(
    previous: Seq<Option<Point>>,
    slots: Seq<TouchSlot>,
    n: nat,
)
    requires
        n <= slots.len() <= previous.len(),
    ensures
        matched(seen(previous, slots), slots, n).len() == active_in(slots, n),
        forall|i: int|
            #![trigger matched(seen(previous, slots), slots, n)[i]]
            0 <= i < matched(seen(previous, slots), slots, n).len() ==> {
                let pair = matched(seen(previous, slots), slots, n)[i];
                pair.x == pair.previous_x && pair.y == pair.previous_y
            },
    decreases n,
{
    if n > 0 {
        same_fingers_do_not_move(previous, slots, (n - 1) as nat);
    }
}

/// A finger is matched only with itself: after a slot's touch was replaced by
/// another one, the slot takes no part in the gesture.
pub proof fn other_fingers_do_not_match(previous: Option<Point>, slot: TouchSlot)
    requires
        previous matches Some(point) ==> point.tracking_id != slot.tracking_id,
    ensures
        pair_in(previous, slot) is None,
{
}

/// Whether a slot holds the finger that was in it before.
pub open spec fn holds_same_finger(previous: Option<Point>, slot: TouchSlot) -> bool {
    previous is Some && slot.active && previous->Some_0.tracking_id == slot.tracking_id
}

/// Every finger that was there and still is takes part in the gesture, wherever
/// it has moved to, and no other one does: there is one pair for each slot that
/// holds the same finger as before, in the order of the slots, with where the
/// finger was and where it is. `places` are these slots.
pub proof fn every_finger_takes_part(
    previous: Seq<Option<Point>>,
    slots: Seq<TouchSlot>,
    n: nat,
) -> (places: Seq<int>)
    requires
        n <= slots.len() <= previous.len(),
    ensures
        ({
            let pairs = matched(previous, slots, n);
            &&& pairs.len() == places.len()
            &&& forall|k: int|
                #![trigger places[k]]
                0 <= k < places.len() ==> {
                    let i = places[k];
                    &&& 0 <= i < n
                    &&& holds_same_finger(previous[i], slots[i])
                    &&& pairs[k].previous_x == previous[i]->Some_0.x
                    &&& pairs[k].previous_y == previous[i]->Some_0.y
                    &&& pairs[k].x == slots[i].x
                    &&& pairs[k].y == slots[i].y
                }
            &&& forall|k: int, l: int|
                #![trigger places[k], places[l]]
                0 <= k < l < places.len() ==> places[k] < places[l]
            &&& forall|i: int|
                #![trigger slots[i]]
                0 <= i < n && holds_same_finger(previous[i], slots[i]) ==> places.contains(i)
        }),
    decreases n,
{
    if n == 0 {
        Seq::empty()
    } else {
        let before = every_finger_takes_part(previous, slots, (n - 1) as nat);
        if holds_same_finger(previous[n - 1], slots[n - 1]) {
            let places = before.push(n - 1);
            assert forall|i: int|
                #![trigger slots[i]]
                0 <= i < n && holds_same_finger(previous[i], slots[i]) implies places.contains(
                i,
            ) by {
                if i < n - 1 {
                    assert(before.contains(i));
                    let k = choose|k: int| 0 <= k < before.len() && before[k] == i;
                    assert(places[k] == i);
                } else {
                    assert(places[before.len() as int] == i);
                }
            }
            places
        } else {
            before
        }
    }
}

/// What is remembered of a slot is the finger that is in it, where it is, or
/// that there is none; slots that were not seen are remembered as before.
pub proof fn fingers_are_remembered(
    previous: Seq<Option<Point>>,
    slots: Seq<TouchSlot>,
    i: int,
)
    requires
        slots.len() <= previous.len(),
        0 <= i < previous.len(),
    ensures
        seen(previous, slots).len() == previous.len(),
        i >= slots.len() ==> seen(previous, slots)[i] == previous[i],
        i < slots.len() ==> (seen(previous, slots)[i] is Some <==> slots[i].active),
        i < slots.len() && slots[i].active ==> {
            let point = seen(previous, slots)[i]->Some_0;
            point.tracking_id == slots[i].tracking_id && point.x == slots[i].x && point.y
                == slots[i].y
        },
{
}

/// Fingers that move keep making up the gesture: of two frames one after the
/// other, every slot that holds the same active finger in both of them gives one
/// pair, however far the finger has moved, and what was before does not matter.
pub proof fn moving_fingers_are_matched(
    previous: Seq<Option<Point>>,
    first: Seq<TouchSlot>,
    second: Seq<TouchSlot>,
    i: int,
)
    requires
        first.len() == second.len(),
        first.len() <= previous.len(),
        0 <= i < first.len(),
        first[i].active,
        second[i].active,
        first[i].tracking_id == second[i].tracking_id,
    ensures
        matched(seen(previous, first), second, second.len()).contains(
            MatchedPair {
                previous_x: first[i].x,
                previous_y: first[i].y,
                x: second[i].x,
                y: second[i].y,
            },
        ),
        forall|other: Seq<Option<Point>>|
            #![trigger seen(other, first)]
            other.len() == previous.len() ==> matched(
                seen(other, first),
                second,
                second.len(),
            ) == matched(seen(previous, first), second, second.len()),
{
    let pairs = matched(seen(previous, first), second, second.len());
    let places = every_finger_takes_part(seen(previous, first), second, second.len());
    fingers_are_remembered(previous, first, i);
    assert(holds_same_finger(seen(previous, first)[i], second[i]));
    let k = choose|k: int| 0 <= k < places.len() && places[k] == i;
    assert(pairs[k] == (MatchedPair {
        previous_x: first[i].x,
        previous_y: first[i].y,
        x: second[i].x,
        y: second[i].y,
    }));
    assert forall|other: Seq<Option<Point>>|
        #![trigger seen(other, first)]
        other.len() == previous.len() implies matched(seen(other, first), second, second.len())
        == pairs by {
        lemma_same_before(seen(other, first), seen(previous, first), second, second.len());
    }
}

proof fn lemma_same_before(
    a: Seq<Option<Point>>,
    b: Seq<Option<Point>>,
    slots: Seq<TouchSlot>,
    n: nat,
)
    requires
        forall|i: int| 0 <= i < n ==> #[trigger] a[i] == b[i],
    ensures
        matched(a, slots, n) == matched(b, slots, n),
    decreases n,
{
    if n > 0 {
        lemma_same_before(a, b, slots, (n - 1) as nat);
        assert(a[n - 1] == b[n - 1]);
    }
}

} // verus!
