//! Keyframes in H.264 byte streams.

use vstd::prelude::*;

verus! {

/// NAL unit type of an instantaneous decoder refresh.
pub const NAL_IDR: u8 = 5;

/// NAL unit type of a sequence parameter set.
pub const NAL_SPS: u8 = 7;

/// NAL unit type of a picture parameter set.
pub const NAL_PPS: u8 = 8;

/// Where the NAL unit begins whose start code is at `i`: behind the three
/// bytes 0, 0, 1 or the four bytes 0, 0, 0, 1.
pub open spec fn unit_start(data: Seq<u8>, i: int) -> Option<int> {
    if i + 3 <= data.len() && data[i] == 0 && data[i + 1] == 0 && data[i + 2] == 1 {
        Some(i + 3)
    } else if i + 4 <= data.len() && data[i] == 0 && data[i + 1] == 0 && data[i + 2] == 0 && data[i
        + 3] == 1 {
        Some(i + 4)
    } else {
        None
    }
}

/// The type of a NAL unit: the low five bits of its first byte.
pub open spec fn unit_type(first: u8) -> u8 {
    (first % 32) as u8
}

/// Whether a NAL unit of this type belongs to a keyframe.
pub open spec fn marks_keyframe(kind: u8) -> bool {
    kind == NAL_IDR || kind == NAL_SPS || kind == NAL_PPS
}

/// Whether a NAL unit of a keyframe, of which at least the first byte is there,
/// has its start code at `i`.
pub open spec fn keyframe_unit_at(data: Seq<u8>, i: int) -> bool {
    &&& 0 <= i
    &&& unit_start(data, i) matches Some(start) && start < data.len() && marks_keyframe(
        unit_type(data[start]),
    )
}

/// Whether the data contains a NAL unit of a keyframe.
pub open spec fn contains_keyframe(data: Seq<u8>) -> bool {
    exists|i: int| #[trigger] keyframe_unit_at(data, i)
}

/// Check if H.264 data contains keyframe NAL units (SPS, PPS, or IDR).
pub fn is_h264_keyframe(data: &[u8]) -> (keyframe: bool)
    ensures
        keyframe == contains_keyframe(data@),
{
    let mut i: usize = 0;
    while i < data.len() && data.len() - i >= 4
        invariant
            i <= data@.len(),
            forall|j: int| 0 <= j < i ==> !#[trigger] keyframe_unit_at(data@, j),
        decreases data@.len() - i,
    {
        if data[i] == 0 && data[i + 1] == 0 {
            let start: usize = if data[i + 2] == 1 {
                i + 3
            } else if data[i + 2] == 0 && data[i + 3] == 1 {
                i + 4
            } else {
                data.len()
            };
            if start < data.len() {
                assert(unit_start(data@, i as int) == Some(start as int));
                let kind: u8 = data[start] % 32;
                if kind == NAL_SPS || kind == NAL_PPS || kind == NAL_IDR {
                    assert(keyframe_unit_at(data@, i as int));
                    return true;
                }
            }
        }
        assert(!keyframe_unit_at(data@, i as int));
        i = i + 1;
    }
    false
}

/// Whatever comes before or after it, a keyframe stays one: data is a keyframe
/// if any part of it is.
pub proof fn keyframe_anywhere(before: Seq<u8>, data: Seq<u8>, after: Seq<u8>)
    requires
        contains_keyframe(data),
    ensures
        contains_keyframe(before + data + after),
{
    let i = choose|i: int| #[trigger] keyframe_unit_at(data, i);
    let whole = before + data + after;
    assert forall|k: int| 0 <= k < data.len() implies whole[before.len() + k] == data[k] by {}
    let at = before.len() + i;
    let start = unit_start(data, i)->Some_0;
    assert(whole[at] == data[i]);
    assert(whole[at + 1] == data[i + 1]);
    assert(whole[at + 2] == data[i + 2]);
    assert(whole[at + 3] == data[i + 3]);
    assert(whole[before.len() + start] == data[start]);
    assert(keyframe_unit_at(whole, at));
}

/// A NAL unit with a start code of three or four bytes makes the data a keyframe
/// exactly if its type does, where no byte behind its first is zero.
pub proof fn unit_decides(first: u8, body: Seq<u8>)
    requires
        forall|i: int| 0 <= i < body.len() ==> #[trigger] body[i] != 0,
    ensures
        contains_keyframe(seq![0u8, 0u8, 1u8, first] + body) == marks_keyframe(unit_type(first)),
        contains_keyframe(seq![0u8, 0u8, 0u8, 1u8, first] + body) == marks_keyframe(
            unit_type(first),
        ),
{
    let short = seq![0u8, 0u8, 1u8, first] + body;
    let long = seq![0u8, 0u8, 0u8, 1u8, first] + body;
    assert(short[0] == 0 && short[1] == 0 && short[2] == 1 && short[3] == first);
    assert(long[0] == 0 && long[1] == 0 && long[2] == 0 && long[3] == 1 && long[4] == first);
    assert forall|i: int| 1 <= i implies !#[trigger] keyframe_unit_at(short, i) by {
        if i >= 3 && i + 1 < short.len() {
            assert(short[i + 1] == body[i - 3]);
        }
    }
    assert forall|i: int| 2 <= i implies !#[trigger] keyframe_unit_at(long, i) by {
        if i >= 4 && i + 1 < long.len() {
            assert(long[i + 1] == body[i - 4]);
        }
    }
    assert(!keyframe_unit_at(long, 1) || marks_keyframe(unit_type(first)));
    assert(keyframe_unit_at(short, 0) == marks_keyframe(unit_type(first)));
    assert(keyframe_unit_at(long, 0) == marks_keyframe(unit_type(first)));
}

/// Whether a NAL unit of a keyframe begins at `at`: its start code, whose last
/// three bytes are 0, 0, 1, stands right before it, and its type, the low five
/// bits of its first byte, is 5, 7 or 8.
pub open spec fn keyframe_begins(data: Seq<u8>, at: int) -> bool {
    &&& 3 <= at < data.len()
    &&& data[at - 3] == 0 && data[at - 2] == 0 && data[at - 1] == 1
    &&& data[at] % 32 == 5 || data[at] % 32 == 7 || data[at] % 32 == 8
}

/// Data is a keyframe exactly if a unit of the types 5, 7 or 8 begins somewhere
/// in it; no other byte matters.
pub proof fn keyframe_where_unit_begins(data: Seq<u8>)
    ensures
        contains_keyframe(data) <==> exists|at: int| #[trigger] keyframe_begins(data, at),
{
    if contains_keyframe(data) {
        let i = choose|i: int| #[trigger] keyframe_unit_at(data, i);
        let start = unit_start(data, i)->Some_0;
        assert(keyframe_begins(data, start));
    }
    if exists|at: int| #[trigger] keyframe_begins(data, at) {
        let at = choose|at: int| #[trigger] keyframe_begins(data, at);
        assert(unit_start(data, at - 3) == Some(at));
        assert(keyframe_unit_at(data, at - 3));
    }
}

/// A NAL unit in a byte stream: whether its start code has four bytes, and its
/// own bytes.
pub struct Unit {
    pub long: bool,
    pub bytes: Seq<u8>,
}

/// The start code of a unit.
pub open spec fn start_code(long: bool) -> Seq<u8> {
    if long {
        seq![0u8, 0u8, 0u8, 1u8]
    } else {
        seq![0u8, 0u8, 1u8]
    }
}

/// Units one after the other, each behind its start code.
pub open spec fn stream_of(units: Seq<Unit>) -> Seq<u8>
    decreases units.len(),
{
    if units.len() == 0 {
        Seq::empty()
    } else {
        stream_of(units.drop_last()) + start_code(units.last().long) + units.last().bytes
    }
}

/// Whether a unit has a first byte and no start code among its bytes.
pub open spec fn is_unit(bytes: Seq<u8>) -> bool {
    &&& bytes.len() > 0
    &&& forall|i: int|
        #![trigger bytes[i]]
        0 <= i && i + 2 < bytes.len() ==> !(bytes[i] == 0 && bytes[i + 1] == 0 && bytes[i + 2] == 1)
}

/// Units one after the other, each behind its start code and without one inside,
/// are a keyframe exactly if one of them is an instantaneous decoder refresh or a
/// set of parameters: of type 5, 7 or 8. What the units hold behind their first
/// byte does not matter, and neither do units of any other type.
pub proof fn units_decide(units: Seq<Unit>)
    requires
        forall|k: int| 0 <= k < units.len() ==> is_unit((#[trigger] units[k]).bytes),
    ensures
        contains_keyframe(stream_of(units)) <==> exists|k: int|
            0 <= k < units.len() && {
                let kind = (#[trigger] units[k]).bytes[0] % 32;
                kind == 5 || kind == 7 || kind == 8
            },
    decreases units.len(),
{
    let data = stream_of(units);
    keyframe_where_unit_begins(data);
    if units.len() == 0 {
        assert(forall|at: int| !#[trigger] keyframe_begins(data, at));
    } else {
        let n = units.len() - 1;
        let front = units.drop_last();
        let unit = units.last();
        assert(is_unit(units[n].bytes));
        assert forall|k: int| 0 <= k < front.len() implies is_unit((#[trigger] front[k]).bytes) by {
            assert(is_unit(units[k].bytes));
        }
        units_decide(front);
        let before = stream_of(front);
        keyframe_where_unit_begins(before);
        let code = start_code(unit.long);
        let first = before.len() + code.len() as int;
        assert(data == before + code + unit.bytes);
        assert forall|i: int| 0 <= i < before.len() implies data[i] == before[i] by {}
        assert(data[first - 3] == 0 && data[first - 2] == 0 && data[first - 1] == 1);
        assert(data[first] == unit.bytes[0]);
        assert forall|at: int| #[trigger] keyframe_begins(data, at) implies keyframe_begins(
            before,
            at,
        ) || at == first by {
            if at > first {
                assert(data[at - 1] == unit.bytes[at - 1 - first]);
                if at - 3 >= first {
                    assert(data[at - 3] == unit.bytes[at - 3 - first]);
                    assert(data[at - 2] == unit.bytes[at - 3 - first + 1]);
                    assert(data[at - 1] == unit.bytes[at - 3 - first + 2]);
                } else if at - 2 >= first {
                    assert(data[at - 3] == 1);
                } else {
                    assert(data[at - 2] == 1);
                }
            } else if before.len() <= at < first {
                assert(data[at] == code[at - before.len()]);
                if at > before.len() {
                    assert(data[at - 1] == code[at - 1 - before.len()]);
                }
            }
        }
        assert forall|at: int| #[trigger] keyframe_begins(before, at) implies keyframe_begins(
            data,
            at,
        ) by {}
        if contains_keyframe(data) {
            let at = choose|at: int| #[trigger] keyframe_begins(data, at);
            if at == first {
                assert(units[n].bytes[0] % 32 == 5 || units[n].bytes[0] % 32 == 7
                    || units[n].bytes[0] % 32 == 8);
            } else {
                let k = choose|k: int|
                    0 <= k < front.len() && {
                        let kind = (#[trigger] front[k]).bytes[0] % 32;
                        kind == 5 || kind == 7 || kind == 8
                    };
                assert(units[k] == front[k]);
            }
        }
        if exists|k: int|
            0 <= k < units.len() && {
                let kind = (#[trigger] units[k]).bytes[0] % 32;
                kind == 5 || kind == 7 || kind == 8
            } {
            let k = choose|k: int|
                0 <= k < units.len() && {
                    let kind = (#[trigger] units[k]).bytes[0] % 32;
                    kind == 5 || kind == 7 || kind == 8
                };
            if k == n {
                assert(keyframe_begins(data, first));
            } else {
                assert(front[k] == units[k]);
                assert(contains_keyframe(before));
                let at = choose|at: int| #[trigger] keyframe_begins(before, at);
                assert(keyframe_begins(data, at));
            }
        }
    }
}

} // verus!
