//! Little-endian numbers and length-prefixed bytes, the building blocks of a
//! packet's payload.

use vstd::prelude::*;

verus! {

/// The `width` low bytes of `n`, least significant byte first.
pub open spec fn le(n: nat, width: nat) -> Seq<u8>
    decreases width,
{
    if width == 0 {
        Seq::empty()
    } else {
        seq![(n % 256) as u8] + le(n / 256, (width - 1) as nat)
    }
}

/// The number that `bytes` denote, least significant byte first.
pub open spec fn le_value(bytes: Seq<u8>) -> nat
    decreases bytes.len(),
{
    if bytes.len() == 0 {
        0
    } else {
        bytes.first() as nat + 256 * le_value(bytes.drop_first())
    }
}

/// One more than the largest number that `width` bytes can hold.
pub open spec fn capacity(width: nat) -> nat
    decreases width,
{
    if width == 0 {
        1
    } else {
        256 * capacity((width - 1) as nat)
    }
}

/// The capacities of the widths in use.
pub proof fn lemma_capacities()
    ensures
        capacity(1) == 0x100,
        capacity(2) == 0x1_0000,
        capacity(4) == 0x1_0000_0000,
        capacity(8) == 0x1_0000_0000_0000_0000,
{
    reveal_with_fuel(capacity, 9);
}

/// Writing and reading back: `le` has the width asked for, and `le_value`
/// undoes it for every number that fits.
pub proof fn le_round_trip(n: nat, width: nat)
    ensures
        le(n, width).len() == width,
        n < capacity(width) ==> le_value(le(n, width)) == n,
    decreases width,
{
    if width > 0 {
        le_round_trip(n / 256, (width - 1) as nat);
        assert(le(n, width).drop_first() =~= le(n / 256, (width - 1) as nat));
        assert(le(n, width).first() == (n % 256) as u8);
    }
}

/// Reading and writing back: the bytes come out as they were, and the number
/// read fits their count.
pub proof fn le_value_round_trip(bytes: Seq<u8>)
    ensures
        le_value(bytes) < capacity(bytes.len()),
        le(le_value(bytes), bytes.len()) == bytes,
    decreases bytes.len(),
{
    if bytes.len() > 0 {
        le_value_round_trip(bytes.drop_first());
        let rest = le_value(bytes.drop_first());
        assert(le_value(bytes) % 256 == bytes.first() as nat);
        assert(le_value(bytes) / 256 == rest);
        assert(le(le_value(bytes), bytes.len()) =~= seq![bytes.first()] + bytes.drop_first());
    } else {
        assert(le(le_value(bytes), bytes.len()) =~= bytes);
    }
}

/// A byte string behind its length in eight bytes.
pub open spec fn prefixed(bytes: Seq<u8>) -> Seq<u8> {
    le(bytes.len(), 8) + bytes
}

/// Error of the `bincode` crate. Nothing is assumed of its contents.
#[verifier::external_type_specification]
#[verifier::external_body]
pub struct ExErrorKind(bincode::ErrorKind);

/// `bincode::serialize` of a `u8`: the byte itself. It does not fail.
#[verifier::external_body]
pub(crate) fn serialize_u8(value: u8) -> (bytes: Result<Vec<u8>, bincode::Error>)
    ensures
        bytes is Ok,
        bytes->Ok_0@ == seq![value],
{
    bincode::serialize(&value)
}

/// `bincode::serialize` of a `u16`: two bytes, least significant first. It
/// does not fail.
#[verifier::external_body]
pub(crate) fn serialize_u16(value: u16) -> (bytes: Result<Vec<u8>, bincode::Error>)
    ensures
        bytes is Ok,
        bytes->Ok_0@ == le(value as nat, 2),
{
    bincode::serialize(&value)
}

/// `bincode::serialize` of a `u32`: four bytes, least significant first. It
/// does not fail.
#[verifier::external_body]
pub(crate) fn serialize_u32(value: u32) -> (bytes: Result<Vec<u8>, bincode::Error>)
    ensures
        bytes is Ok,
        bytes->Ok_0@ == le(value as nat, 4),
{
    bincode::serialize(&value)
}

/// `bincode::serialize` of a `u64`: eight bytes, least significant first. It
/// does not fail.
#[verifier::external_body]
pub(crate) fn serialize_u64(value: u64) -> (bytes: Result<Vec<u8>, bincode::Error>)
    ensures
        bytes is Ok,
        bytes->Ok_0@ == le(value as nat, 8),
{
    bincode::serialize(&value)
}

/// `bincode::serialize` of a byte string: its length in eight bytes, then the
/// bytes. It does not fail.
#[verifier::external_body]
pub(crate) fn serialize_bytes(value: &[u8]) -> (bytes: Result<Vec<u8>, bincode::Error>)
    ensures
        bytes is Ok,
        bytes->Ok_0@ == prefixed(value@),
{
    bincode::serialize(value)
}

/// `bincode::deserialize` into a `u8`: the first byte. What follows is
/// ignored; no byte at all is an error.
#[verifier::external_body]
pub(crate) fn deserialize_u8(bytes: &[u8]) -> (value: Result<u8, bincode::Error>)
    ensures
        match value {
            Ok(v) => bytes@.len() >= 1 && v == bytes@[0],
            Err(_) => bytes@.len() < 1,
        },
{
    bincode::deserialize(bytes)
}

/// `bincode::deserialize` into a `u16`: the number in the first two bytes.
/// What follows is ignored; fewer than two bytes are an error.
#[verifier::external_body]
pub(crate) fn deserialize_u16(bytes: &[u8]) -> (value: Result<u16, bincode::Error>)
    ensures
        match value {
            Ok(v) => bytes@.len() >= 2 && v as nat == le_value(bytes@.take(2)),
            Err(_) => bytes@.len() < 2,
        },
{
    bincode::deserialize(bytes)
}

/// `bincode::deserialize` into a `u32`: the number in the first four bytes.
/// What follows is ignored; fewer than four bytes are an error.
#[verifier::external_body]
pub(crate) fn deserialize_u32(bytes: &[u8]) -> (value: Result<u32, bincode::Error>)
    ensures
        match value {
            Ok(v) => bytes@.len() >= 4 && v as nat == le_value(bytes@.take(4)),
            Err(_) => bytes@.len() < 4,
        },
{
    bincode::deserialize(bytes)
}

/// `bincode::deserialize` into a `u64`: the number in the first eight bytes.
/// What follows is ignored; fewer than eight bytes are an error.
#[verifier::external_body]
pub(crate) fn deserialize_u64(bytes: &[u8]) -> (value: Result<u64, bincode::Error>)
    ensures
        match value {
            Ok(v) => bytes@.len() >= 8 && v as nat == le_value(bytes@.take(8)),
            Err(_) => bytes@.len() < 8,
        },
{
    bincode::deserialize(bytes)
}

/// The byte string that `bytes` begin with, if they hold all of it.
pub open spec fn unprefixed(bytes: Seq<u8>) -> Option<Seq<u8>> {
    if bytes.len() >= 8 && le_value(bytes.take(8)) <= bytes.len() - 8 {
        Some(bytes.subrange(8, 8 + le_value(bytes.take(8)) as int))
    } else {
        None
    }
}

/// `bincode::deserialize` into a `Vec<u8>`: as many bytes as the first eight
/// say. What follows is ignored; too few bytes are an error.
#[verifier::external_body]
pub(crate) fn deserialize_bytes(bytes: &[u8]) -> (value: Result<Vec<u8>, bincode::Error>)
    ensures
        match value {
            Ok(v) => unprefixed(bytes@) == Some(v@),
            Err(_) => unprefixed(bytes@) is None,
        },
{
    bincode::deserialize(bytes)
}

/// Whether the first `at` of the bytes are UTF-8, and not so if any more are
/// added to them.
pub open spec fn is_longest_text(encoded: Seq<u8>, at: int) -> bool {
    &&& 0 <= at <= encoded.len()
    &&& vstd::utf8::valid_utf8(encoded.take(at))
    &&& forall|more: int|
        at < more <= encoded.len() ==> !vstd::utf8::valid_utf8(#[trigger] encoded.take(more))
}

/// How many bytes the sequence has that keeps `bincode::deserialize` from
/// reading a `String`, as the error that it gives tells; `None` if the error
/// tells that the text ends within a character.
pub uninterp spec fn text_fault_len(bytes: Seq<u8>) -> Option<usize>;

/// `bincode::deserialize` into a `String`: the text that is encoded in as many
/// bytes as the first eight say. What follows is ignored. Too few bytes are an
/// error (`None` here). Bytes that are no UTF-8 are an error too, which tells
/// how many of them are, and how long the sequence behind these is that is not;
/// of that length nothing is claimed but that it depends on the bytes alone.
#[verifier::external_body]
pub(crate) fn deserialize_text(bytes: &[u8]) -> (text: Result<
    String,
    Option<(usize, Option<usize>)>,
>)
    ensures
        match text {
            Ok(t) => {
                &&& unprefixed(bytes@) is Some
                &&& vstd::utf8::valid_utf8(unprefixed(bytes@)->Some_0)
                &&& t@ == vstd::utf8::decode_utf8(unprefixed(bytes@)->Some_0)
            },
            Err(None) => unprefixed(bytes@) is None,
            Err(Some((at, len))) => {
                &&& unprefixed(bytes@) is Some
                &&& !vstd::utf8::valid_utf8(unprefixed(bytes@)->Some_0)
                &&& is_longest_text(unprefixed(bytes@)->Some_0, at as int)
                &&& len == text_fault_len(bytes@)
            },
        },
{
    match bincode::deserialize::<String>(bytes) {
        Ok(text) => Ok(text),
        Err(error) => match *error {
            bincode::ErrorKind::InvalidUtf8Encoding(fault) => {
                Err(Some((fault.valid_up_to(), fault.error_len())))
            },
            _ => Err(None),
        },
    }
}

/// `String::from_utf8`: the text that the bytes encode, where they are UTF-8;
/// an error where they are not.
#[verifier::external_body]
pub(crate) fn string_from_utf8(bytes: Vec<u8>) -> (text: Result<String, std::string::FromUtf8Error>)
    ensures
        match text {
            Ok(t) => vstd::utf8::valid_utf8(bytes@) && t@ == vstd::utf8::decode_utf8(bytes@),
            Err(_) => !vstd::utf8::valid_utf8(bytes@),
        },
{
    String::from_utf8(bytes)
}

/// Error of `String::from_utf8`. Nothing is assumed of its contents.
#[verifier::external_type_specification]
#[verifier::external_body]
pub struct ExFromUtf8Error(std::string::FromUtf8Error);

/// A length-prefixed byte string is read back, whatever follows it.
pub proof fn prefixed_round_trip(bytes: Seq<u8>, rest: Seq<u8>)
    requires
        bytes.len() <= u64::MAX,
    ensures
        unprefixed(prefixed(bytes) + rest) == Some(bytes),
{
    lemma_capacities();
    le_round_trip(bytes.len(), 8);
    let all = prefixed(bytes) + rest;
    assert(all.take(8) =~= le(bytes.len(), 8));
    assert(all.subrange(8, 8 + bytes.len() as int) =~= bytes);
}

} // verus!
