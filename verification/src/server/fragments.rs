//! Encoded frames on their way to the client: in fragments small enough for
//! one datagram each.

use vstd::prelude::*;

use crate::encoder::video::{EncodedFrame, EncodedView};
use crate::protocol::codec::{
    decoded, encode_video, frame, framed, video_payload, CodecError,
};
use crate::protocol::packets::{
    DecodedView, PacketType, VideoPacket, VideoView, MAX_FRAGMENT_DATA,
};
use crate::protocol::round_trip::video_round_trip;

verus! {

/// Datagrams that are sent before a pause.
pub const BATCH_SIZE: usize = 8;

/// The pause between batches, in microseconds.
pub const PACING_MICROS: u64 = 100;

/// Bytes of a fragment's datagram besides its data.
pub const FRAGMENT_OVERHEAD: usize = 28;

/// How many fragments a frame of `len` bytes takes. The number has 16 bits.
pub open spec fn fragment_count(len: nat) -> nat {
    ((len + MAX_FRAGMENT_DATA - 1) / MAX_FRAGMENT_DATA as int % 0x1_0000) as nat
}

/// The bytes of the `i`th fragment.
pub open spec fn fragment_data(data: Seq<u8>, i: int) -> Seq<u8> {
    data.subrange(
        i * MAX_FRAGMENT_DATA,
        if (i + 1) * MAX_FRAGMENT_DATA <= data.len() {
            (i + 1) * MAX_FRAGMENT_DATA
        } else {
            data.len() as int
        },
    )
}

/// The `i`th fragment of a frame.
pub open spec fn fragment(sequence: u32, encoded: EncodedView, i: int) -> VideoView {
    VideoView {
        sequence,
        timestamp: encoded.pts,
        is_keyframe: encoded.is_keyframe,
        fragment_index: i as u16,
        fragment_count: fragment_count(encoded.data.len()) as u16,
        data: fragment_data(encoded.data, i),
    }
}

/// The datagrams of a frame.
pub open spec fn datagrams(sequence: u32, encoded: EncodedView) -> Seq<Seq<u8>> {
    Seq::new(
        fragment_count(encoded.data.len()),
        |i: int| frame(PacketType::Video, video_payload(fragment(sequence, encoded, i))),
    )
}

/// The contents of byte strings.
pub open spec fn contents(packets: Seq<Vec<u8>>) -> Seq<Seq<u8>> {
    packets.map_values(|packet: Vec<u8>| packet@)
}

proof fn lemma_fragment_bounds(len: nat, i: int)
    requires
        0 <= i < fragment_count(len),
    ensures
        0 <= i * MAX_FRAGMENT_DATA < len,
        fragment_count(len) <= 0xffff,
{
}

proof fn lemma_fragment_fits(sequence: u32, encoded: EncodedView, i: int)
    requires
        0 <= i < fragment_count(encoded.data.len()),
    ensures
        fragment(sequence, encoded, i).data.len() <= MAX_FRAGMENT_DATA,
        fragment(sequence, encoded, i).data.len() > 0,
        framed(PacketType::Video, video_payload(fragment(sequence, encoded, i))) == Ok::<
            Seq<u8>,
            CodecError,
        >(datagrams(sequence, encoded)[i]),
{
    lemma_fragment_bounds(encoded.data.len(), i);
    video_round_trip(fragment(sequence, encoded, i), Seq::empty());
}

/// Splits an encoded frame into the datagrams that carry it.
pub fn fragment_frame(sequence: u32, encoded: &EncodedFrame) -> (packets: Vec<Vec<u8>>)
    ensures
        contents(packets@) == datagrams(sequence, encoded@),
{
    let len: usize = encoded.data.len();
    let whole: usize = len / MAX_FRAGMENT_DATA + if len % MAX_FRAGMENT_DATA > 0 {
        1
    } else {
        0
    };
    let count: u16 = (whole % 0x1_0000) as u16;
    assert(count as nat == fragment_count(len as nat));
    let mut packets: Vec<Vec<u8>> = Vec::new();
    let mut i: u16 = 0;
    while i < count
        invariant
            i <= count,
            len == encoded.data@.len(),
            count as nat == fragment_count(len as nat),
            packets@.len() == i,
            forall|j: int| 0 <= j < i ==> #[trigger] packets@[j]@ == datagrams(sequence, encoded@)[j],
        decreases count - i,
    {
        proof {
            lemma_fragment_bounds(len as nat, i as int);
            lemma_fragment_fits(sequence, encoded@, i as int);
        }
        let start: usize = i as usize * MAX_FRAGMENT_DATA;
        let end: usize = if len - start > MAX_FRAGMENT_DATA {
            start + MAX_FRAGMENT_DATA
        } else {
            len
        };
        let packet = VideoPacket {
            sequence,
            timestamp: encoded.pts,
            is_keyframe: encoded.is_keyframe,
            fragment_index: i,
            fragment_count: count,
            data: copy_range(&encoded.data, start, end),
        };
        assert(packet@ == fragment(sequence, encoded@, i as int));
        match encode_video(&packet) {
            Ok(wire) => packets.push(wire),
            Err(_) => {
                assert(false);
                return packets;
            },
        }
        i = i + 1;
    }
    assert(contents(packets@) =~= datagrams(sequence, encoded@));
    packets
}

fn copy_range(data: &Vec<u8>, start: usize, end: usize) -> (copy: Vec<u8>)
    requires
        start <= end <= data@.len(),
    ensures
        copy@ == data@.subrange(start as int, end as int),
{
    let mut copy: Vec<u8> = Vec::new();
    let mut i: usize = start;
    while i < end
        invariant
            start <= i <= end <= data@.len(),
            copy@ == data@.subrange(start as int, i as int),
        decreases end - i,
    {
        copy.push(data[i]);
        i = i + 1;
        assert(copy@ =~= data@.subrange(start as int, i as int));
    }
    copy
}

/// Where the next batch of datagrams ends, of which `sent` of `total` have been
/// sent: a batch is as large as it may be, and the last one has the rest.
pub fn batch_end(sent: usize, total: usize) -> (end: usize)
    requires
        sent <= total,
    ensures
        end == if total - sent <= BATCH_SIZE {
            total as int
        } else {
            sent + BATCH_SIZE
        },
{
    if total - sent <= BATCH_SIZE {
        total
    } else {
        sent + BATCH_SIZE
    }
}

/// The data of fragments, put together in the order of their indices.
pub open spec fn reassembled(fragments: Seq<VideoView>) -> Seq<u8>
    decreases fragments.len(),
{
    if fragments.len() == 0 {
        Seq::empty()
    } else {
        reassembled(fragments.drop_last()) + fragments.last().data
    }
}

/// The fragments of a frame, in order.
pub open spec fn fragments(sequence: u32, encoded: EncodedView) -> Seq<VideoView> {
    Seq::new(
        fragment_count(encoded.data.len()),
        |i: int| fragment(sequence, encoded, i),
    )
}

/// Every datagram of a frame is decoded as its fragment: with the number and
/// the time of the frame, its place among the fragments, and its data. None is
/// larger than 1428 bytes, so that it fits into one Ethernet frame.
pub proof fn datagram_carries_fragment(sequence: u32, encoded: EncodedView, i: int)
    requires
        0 <= i < fragment_count(encoded.data.len()),
    ensures
        decoded(datagrams(sequence, encoded)[i]) == Ok::<DecodedView, CodecError>(
            DecodedView::Video(fragments(sequence, encoded)[i]),
        ),
        fragments(sequence, encoded)[i].sequence == sequence,
        fragments(sequence, encoded)[i].timestamp == encoded.pts,
        fragments(sequence, encoded)[i].is_keyframe == encoded.is_keyframe,
        fragments(sequence, encoded)[i].fragment_index == i,
        fragments(sequence, encoded)[i].fragment_count == datagrams(sequence, encoded).len(),
        datagrams(sequence, encoded)[i].len() <= MAX_FRAGMENT_DATA + FRAGMENT_OVERHEAD,
{
    lemma_fragment_bounds(encoded.data.len(), i);
    lemma_fragment_fits(sequence, encoded, i);
    let packet = fragment(sequence, encoded, i);
    video_round_trip(packet, Seq::empty());
    let wire = frame(PacketType::Video, video_payload(packet));
    assert(wire + Seq::<u8>::empty() =~= wire);
}

proof fn lemma_reassembled_prefix(sequence: u32, encoded: EncodedView, n: int)
    requires
        encoded.data.len() <= 0xffff * MAX_FRAGMENT_DATA,
        0 <= n <= fragment_count(encoded.data.len()),
    ensures
        reassembled(fragments(sequence, encoded).take(n)) == encoded.data.take(
            if n * MAX_FRAGMENT_DATA <= encoded.data.len() {
                n * MAX_FRAGMENT_DATA
            } else {
                encoded.data.len() as int
            },
        ),
    decreases n,
{
    let all = fragments(sequence, encoded);
    if n == 0 {
        assert(all.take(0).len() == 0);
        assert(encoded.data.take(0) =~= Seq::<u8>::empty());
    } else {
        lemma_reassembled_prefix(sequence, encoded, n - 1);
        lemma_fragment_bounds(encoded.data.len(), n - 1);
        assert(all.take(n).drop_last() =~= all.take(n - 1));
        assert(all.take(n).last() == fragment(sequence, encoded, n - 1));
        assert(reassembled(all.take(n)) =~= encoded.data.take(
            if n * MAX_FRAGMENT_DATA <= encoded.data.len() {
                n * MAX_FRAGMENT_DATA
            } else {
                encoded.data.len() as int
            },
        ));
    }
}

/// A client that puts the fragments of a frame together in the order of their
/// indices gets the frame back, if the frame is not larger than 65535 fragments
/// can carry.
pub proof fn fragments_give_frame_back(sequence: u32, encoded: EncodedView)
    requires
        encoded.data.len() <= 0xffff * MAX_FRAGMENT_DATA,
    ensures
        reassembled(fragments(sequence, encoded)) == encoded.data,
{
    let n = fragment_count(encoded.data.len()) as int;
    lemma_reassembled_prefix(sequence, encoded, n);
    assert(fragments(sequence, encoded).take(n) =~= fragments(sequence, encoded));
    assert(n * MAX_FRAGMENT_DATA >= encoded.data.len());
    assert(encoded.data.take(encoded.data.len() as int) =~= encoded.data);
}

/// No fragment is superfluous: each carries data, and all but the last carry
/// as much as they can.
pub proof fn fragments_are_full(sequence: u32, encoded: EncodedView, i: int)
    requires
        0 <= i < fragment_count(encoded.data.len()),
        encoded.data.len() <= 0xffff * MAX_FRAGMENT_DATA,
    ensures
        fragments(sequence, encoded)[i].data.len() > 0,
        i + 1 < fragment_count(encoded.data.len()) ==> fragments(sequence, encoded)[i].data.len()
            == MAX_FRAGMENT_DATA,
{
    lemma_fragment_bounds(encoded.data.len(), i);
    if i + 1 < fragment_count(encoded.data.len()) {
        lemma_fragment_bounds(encoded.data.len(), i + 1);
    }
}

/// A frame takes as many fragments as it has whole ones and one for the rest, of
/// 1400 bytes each, as far as sixteen bits can count them.
pub proof fn fragments_are_as_many_as_needed(len: nat)
    ensures
        ({
            let whole = len / 1400;
            let needed = if len % 1400 == 0 {
                whole
            } else {
                whole + 1
            };
            &&& fragment_count(len) == needed % 65536
            &&& needed <= 65535 ==> fragment_count(len) == needed
            &&& len == 0 ==> fragment_count(len) == 0
        }),
{
}

/// Every fragment is a piece of the frame, right behind the one before it, and
/// each says to which frame it belongs and how many there are.
pub proof fn fragments_are_pieces(sequence: u32, encoded: EncodedView, i: int)
    requires
        0 <= i < fragment_count(encoded.data.len()),
    ensures
        ({
            let piece = fragments(sequence, encoded)[i];
            let from = 1400 * i;
            let to = if from + 1400 <= encoded.data.len() {
                from + 1400
            } else {
                encoded.data.len() as int
            };
            &&& 0 <= from < to <= encoded.data.len()
            &&& piece.data == encoded.data.subrange(from, to)
            &&& piece.sequence == sequence
            &&& piece.timestamp == encoded.pts
            &&& piece.is_keyframe == encoded.is_keyframe
            &&& piece.fragment_index == i
            &&& piece.fragment_count == fragment_count(encoded.data.len())
            &&& datagrams(sequence, encoded).len() == fragment_count(encoded.data.len())
            &&& datagrams(sequence, encoded)[i].len() == 28 + piece.data.len()
        }),
{
    lemma_fragment_bounds(encoded.data.len(), i);
    video_round_trip(fragment(sequence, encoded, i), Seq::empty());
}

} // verus!
