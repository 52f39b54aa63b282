//! The binary encoding of the wire: postcard's format, field by field.
//!
//! A struct is the concatenation of its fields. An enum is the index of its
//! variant as a `u32`, then the variant's fields. Bytes behind the last
//! field are left unread, which is what lets a message grow.
use vstd::prelude::*;
use vstd::utf8::{decode_utf8, encode_utf8, valid_utf8};

verus! {

/// Why bytes could not be decoded.
#[derive(Debug, Clone, Copy, PartialEq, Eq, Structural)]
pub enum WireFault {
    /// The input ended before the value did.
    UnexpectedEnd,
    /// A variable-length integer does not fit its type.
    BadVarint,
    /// A boolean is neither 0 nor 1.
    BadBool,
    /// A string is not valid UTF-8.
    BadUtf8,
    /// An enum tag names no variant.
    UnknownVariant,
    /// Any other failure.
    Other,
}

impl WireFault {
    /// The message of the failure.
    pub open spec fn text(self) -> Seq<char> {
        match self {
            WireFault::UnexpectedEnd => "Hit the end of buffer, expected more data"@,
            WireFault::BadVarint => {
                "Found a varint that didn't terminate. Is the usize too big for this platform?"@
            },
            WireFault::BadBool => "Found a bool that wasn't 0 or 1"@,
            WireFault::BadUtf8 => "Tried to parse invalid utf-8"@,
            WireFault::UnknownVariant => "Serde Deserialization Error"@,
            WireFault::Other => "The original data was not well encoded"@,
        }
    }

    /// The message of the failure.
    pub fn as_str(&self) -> (s: &'static str)
        ensures
            s@ == self.text(),
    {
        match self {
            WireFault::UnexpectedEnd => "Hit the end of buffer, expected more data",
            WireFault::BadVarint => {
                "Found a varint that didn't terminate. Is the usize too big for this platform?"
            },
            WireFault::BadBool => "Found a bool that wasn't 0 or 1",
            WireFault::BadUtf8 => "Tried to parse invalid utf-8",
            WireFault::UnknownVariant => "Serde Deserialization Error",
            WireFault::Other => "The original data was not well encoded",
        }
    }
}

/// What a reader gives: a value and the bytes behind it.
pub type Read<T> = Result<(T, Seq<u8>), WireFault>;

/// An unsigned integer in seven-bit groups, lowest first. The high bit of a
/// byte says that more follow.
pub open spec fn varint(n: nat) -> Seq<u8>
    decreases n,
{
    if n < 128 {
        seq![n as u8]
    } else {
        seq![(128 + n % 128) as u8] + varint(n / 128)
    }
}

/// Signed integers alternate around zero: 0, -1, 1, -2, 2, ...
pub open spec fn zigzag(v: int) -> nat {
    if v >= 0 {
        (2 * v) as nat
    } else {
        (-2 * v - 1) as nat
    }
}

/// The signed integer that [`zigzag`] takes to `n`.
pub open spec fn unzigzag(n: nat) -> int {
    if n % 2 == 0 {
        n as int / 2
    } else {
        -((n as int + 1) / 2)
    }
}

/// Reads an unsigned integer of at most `room` bytes whose value may not
/// exceed `limit`.
pub open spec fn read_varint(s: Seq<u8>, room: nat, limit: nat) -> Read<nat>
    decreases room,
{
    if room == 0 {
        Err(WireFault::BadVarint)
    } else if s.len() == 0 {
        Err(WireFault::UnexpectedEnd)
    } else if s[0] < 128 {
        if s[0] <= limit {
            Ok((s[0] as nat, s.skip(1)))
        } else {
            Err(WireFault::BadVarint)
        }
    } else {
        match read_varint(s.skip(1), (room - 1) as nat, limit / 128) {
            Ok((n, rest)) => Ok(((s[0] - 128 + 128 * n) as nat, rest)),
            Err(e) => Err(e),
        }
    }
}

/// Reads one byte.
pub open spec fn read_u8(s: Seq<u8>) -> Read<u8> {
    if s.len() == 0 {
        Err(WireFault::UnexpectedEnd)
    } else {
        Ok((s[0], s.skip(1)))
    }
}

pub open spec fn read_u16(s: Seq<u8>) -> Read<u16> {
    match read_varint(s, 3, u16::MAX as nat) {
        Ok((n, rest)) => Ok((n as u16, rest)),
        Err(e) => Err(e),
    }
}

pub open spec fn read_u32(s: Seq<u8>) -> Read<u32> {
    match read_varint(s, 5, u32::MAX as nat) {
        Ok((n, rest)) => Ok((n as u32, rest)),
        Err(e) => Err(e),
    }
}

pub open spec fn read_u64(s: Seq<u8>) -> Read<u64> {
    match read_varint(s, 10, u64::MAX as nat) {
        Ok((n, rest)) => Ok((n as u64, rest)),
        Err(e) => Err(e),
    }
}

/// Reads a length, which has the width of a machine word.
pub open spec fn read_len(s: Seq<u8>) -> Read<nat> {
    read_varint(
        s,
        if usize::MAX > u32::MAX {
            10
        } else {
            5
        },
        usize::MAX as nat,
    )
}

pub open spec fn read_i16(s: Seq<u8>) -> Read<i16> {
    match read_varint(s, 3, u16::MAX as nat) {
        Ok((n, rest)) => Ok((unzigzag(n) as i16, rest)),
        Err(e) => Err(e),
    }
}

pub open spec fn read_i32(s: Seq<u8>) -> Read<i32> {
    match read_varint(s, 5, u32::MAX as nat) {
        Ok((n, rest)) => Ok((unzigzag(n) as i32, rest)),
        Err(e) => Err(e),
    }
}

pub open spec fn read_bool(s: Seq<u8>) -> Read<bool> {
    if s.len() == 0 {
        Err(WireFault::UnexpectedEnd)
    } else if s[0] == 0 {
        Ok((false, s.skip(1)))
    } else if s[0] == 1 {
        Ok((true, s.skip(1)))
    } else {
        Err(WireFault::BadBool)
    }
}

/// Reads bytes that are preceded by their number.
pub open spec fn read_bytes(s: Seq<u8>) -> Read<Seq<u8>> {
    match read_len(s) {
        Ok((n, rest)) => if rest.len() < n {
            Err(WireFault::UnexpectedEnd)
        } else {
            Ok((rest.take(n as int), rest.skip(n as int)))
        },
        Err(e) => Err(e),
    }
}

/// Reads text: its UTF-8 bytes, preceded by their number.
pub open spec fn read_string(s: Seq<u8>) -> Read<Seq<char>> {
    match read_bytes(s) {
        Ok((bytes, rest)) => if valid_utf8(bytes) {
            Ok((decode_utf8(bytes), rest))
        } else {
            Err(WireFault::BadUtf8)
        },
        Err(e) => Err(e),
    }
}

/// Reads `n` values one after the other.
pub open spec fn read_items<T>(s: Seq<u8>, n: nat, one: spec_fn(Seq<u8>) -> Read<T>) -> Read<
    Seq<T>,
>
    decreases n,
{
    if n == 0 {
        Ok((Seq::empty(), s))
    } else {
        match one(s) {
            Ok((item, rest)) => match read_items(rest, (n - 1) as nat, one) {
                Ok((items, end)) => Ok((seq![item] + items, end)),
                Err(e) => Err(e),
            },
            Err(e) => Err(e),
        }
    }
}

/// Reads values that are preceded by their number.
pub open spec fn read_list<T>(s: Seq<u8>, one: spec_fn(Seq<u8>) -> Read<T>) -> Read<Seq<T>> {
    match read_len(s) {
        Ok((n, rest)) => read_items(rest, n, one),
        Err(e) => Err(e),
    }
}

pub open spec fn enc_bool(v: bool) -> Seq<u8> {
    seq![
        if v {
            1u8
        } else {
            0u8
        },
    ]
}

pub open spec fn enc_bytes(v: Seq<u8>) -> Seq<u8> {
    varint(v.len()) + v
}

pub open spec fn enc_str(v: Seq<char>) -> Seq<u8> {
    enc_bytes(encode_utf8(v))
}

/// The encodings of some values one after the other.
pub open spec fn enc_items<T>(items: Seq<T>, one: spec_fn(T) -> Seq<u8>) -> Seq<u8>
    decreases items.len(),
{
    if items.len() == 0 {
        Seq::empty()
    } else {
        one(items[0]) + enc_items(items.skip(1), one)
    }
}

pub open spec fn enc_list<T>(items: Seq<T>, one: spec_fn(T) -> Seq<u8>) -> Seq<u8> {
    varint(items.len()) + enc_items(items, one)
}

/// A decoded value with the bytes behind it, as a sequence.
pub open spec fn taken<T>(r: Result<(T, &[u8]), WireFault>) -> Read<T> {
    match r {
        Ok((v, rest)) => Ok((v, rest@)),
        Err(e) => Err(e),
    }
}

/// A decoded value by its view, with the bytes behind it.
pub open spec fn taken_view<T: View>(r: Result<(T, &[u8]), WireFault>) -> Read<T::V> {
    match r {
        Ok((v, rest)) => Ok((v@, rest@)),
        Err(e) => Err(e),
    }
}

/// Encodes an unsigned integer through `postcard::to_allocvec`: a varint,
/// the same for every width above a byte.
#[verifier::external_body]
fn encode_u64(v: u64) -> (r: Result<Vec<u8>, WireFault>)
    ensures
        r is Ok && r->Ok_0@ == varint(v as nat),
{
    postcard::to_allocvec(&v).map_err(|_e| WireFault::Other)
}

/// Encodes a byte through `postcard::to_allocvec`: the byte itself.
#[verifier::external_body]
fn encode_u8(v: u8) -> (r: Result<Vec<u8>, WireFault>)
    ensures
        r is Ok && r->Ok_0@ == seq![v],
{
    postcard::to_allocvec(&v).map_err(|_e| WireFault::Other)
}

/// Encodes a signed integer through `postcard::to_allocvec`: the varint of
/// its zigzag number, the same for every width above a byte.
#[verifier::external_body]
fn encode_i32(v: i32) -> (r: Result<Vec<u8>, WireFault>)
    ensures
        r is Ok && r->Ok_0@ == varint(zigzag(v as int)),
{
    postcard::to_allocvec(&v).map_err(|_e| WireFault::Other)
}

/// Encodes a boolean through `postcard::to_allocvec`: one byte, 0 or 1.
#[verifier::external_body]
fn encode_bool(v: bool) -> (r: Result<Vec<u8>, WireFault>)
    ensures
        r is Ok && r->Ok_0@ == enc_bool(v),
{
    postcard::to_allocvec(&v).map_err(|_e| WireFault::Other)
}

/// Encodes text through `postcard::to_allocvec`: the number of its UTF-8
/// bytes as a varint, then those bytes.
#[verifier::external_body]
fn encode_str(v: &str) -> (r: Result<Vec<u8>, WireFault>)
    ensures
        r is Ok && r->Ok_0@ == enc_str(v@),
{
    postcard::to_allocvec(v).map_err(|_e| WireFault::Other)
}

/// Encodes bytes through `postcard::to_allocvec`: their number as a varint,
/// then the bytes.
#[verifier::external_body]
fn encode_bytes(v: &[u8]) -> (r: Result<Vec<u8>, WireFault>)
    ensures
        r is Ok && r->Ok_0@ == enc_bytes(v@),
{
    postcard::to_allocvec(v).map_err(|_e| WireFault::Other)
}

/// Decodes a byte through `postcard::take_from_bytes`, with the bytes
/// behind it.
#[verifier::external_body]
pub(crate) fn take_u8<'a>(s: &'a [u8]) -> (r: Result<(u8, &'a [u8]), WireFault>)
    ensures
        taken(r) == read_u8(s@),
{
    postcard::take_from_bytes::<u8>(s).map_err(
        |e|
            match e {
                postcard::Error::DeserializeUnexpectedEnd => WireFault::UnexpectedEnd,
                _ => WireFault::Other,
            },
    )
}

/// Decodes a `u16` through `postcard::take_from_bytes`: a varint of at most
/// three bytes that fits the type, with the bytes behind it.
#[verifier::external_body]
pub(crate) fn take_u16<'a>(s: &'a [u8]) -> (r: Result<(u16, &'a [u8]), WireFault>)
    ensures
        taken(r) == read_u16(s@),
{
    postcard::take_from_bytes::<u16>(s).map_err(
        |e|
            match e {
                postcard::Error::DeserializeUnexpectedEnd => WireFault::UnexpectedEnd,
                postcard::Error::DeserializeBadVarint => WireFault::BadVarint,
                _ => WireFault::Other,
            },
    )
}

/// Decodes a `u32` through `postcard::take_from_bytes`: a varint of at most
/// five bytes that fits the type, with the bytes behind it.
#[verifier::external_body]
pub(crate) fn take_u32<'a>(s: &'a [u8]) -> (r: Result<(u32, &'a [u8]), WireFault>)
    ensures
        taken(r) == read_u32(s@),
{
    postcard::take_from_bytes::<u32>(s).map_err(
        |e|
            match e {
                postcard::Error::DeserializeUnexpectedEnd => WireFault::UnexpectedEnd,
                postcard::Error::DeserializeBadVarint => WireFault::BadVarint,
                _ => WireFault::Other,
            },
    )
}

/// Decodes a `u64` through `postcard::take_from_bytes`: a varint of at most
/// ten bytes that fits the type, with the bytes behind it.
#[verifier::external_body]
pub(crate) fn take_u64<'a>(s: &'a [u8]) -> (r: Result<(u64, &'a [u8]), WireFault>)
    ensures
        taken(r) == read_u64(s@),
{
    postcard::take_from_bytes::<u64>(s).map_err(
        |e|
            match e {
                postcard::Error::DeserializeUnexpectedEnd => WireFault::UnexpectedEnd,
                postcard::Error::DeserializeBadVarint => WireFault::BadVarint,
                _ => WireFault::Other,
            },
    )
}

/// Decodes a length: a varint as wide as a machine word, with the bytes
/// behind it.
pub(crate) fn take_len<'a>(s: &'a [u8]) -> (r: Result<(usize, &'a [u8]), WireFault>)
    ensures
        (match r {
            Ok((n, rest)) => Ok((n as nat, rest@)),
            Err(e) => Err(e),
        }) == read_len(s@),
{
    if usize::MAX as u64 > u32::MAX as u64 {
        proof {
            reveal_with_fuel(groups, 10);
            lemma_varint_bounded(s@, 10, u64::MAX as nat, 2);
        }
        match take_u64(s) {
            Ok((n, rest)) => Ok((n as usize, rest)),
            Err(e) => Err(e),
        }
    } else {
        proof {
            reveal_with_fuel(groups, 5);
            lemma_varint_bounded(s@, 5, u32::MAX as nat, 16);
        }
        match take_u32(s) {
            Ok((n, rest)) => Ok((n as usize, rest)),
            Err(e) => Err(e),
        }
    }
}

/// What is read of a varint does not exceed its limit, if that leaves `top`
/// values to the last byte.
proof fn lemma_varint_bounded(s: Seq<u8>, room: nat, limit: nat, top: nat)
    requires
        room > 0,
        limit + 1 == top * groups((room - 1) as nat),
    ensures
        read_varint(s, room, limit) matches Ok((n, _)) ==> n <= limit,
    decreases room,
{
    reveal_with_fuel(read_varint, 2);
    if room > 1 && s.len() > 0 && s[0] >= 128 {
        let rest = groups((room - 2) as nat);
        assert(top * (128 * rest) == 128 * (top * rest)) by (nonlinear_arith);
        lemma_varint_bounded(s.skip(1), (room - 1) as nat, limit / 128, top);
    }
}

/// Decodes an `i16` through `postcard::take_from_bytes`: the zigzag number
/// in a varint of a `u16`, with the bytes behind it.
#[verifier::external_body]
pub(crate) fn take_i16<'a>(s: &'a [u8]) -> (r: Result<(i16, &'a [u8]), WireFault>)
    ensures
        taken(r) == read_i16(s@),
{
    postcard::take_from_bytes::<i16>(s).map_err(
        |e|
            match e {
                postcard::Error::DeserializeUnexpectedEnd => WireFault::UnexpectedEnd,
                postcard::Error::DeserializeBadVarint => WireFault::BadVarint,
                _ => WireFault::Other,
            },
    )
}

/// Decodes an `i32` through `postcard::take_from_bytes`: the zigzag number
/// in a varint of a `u32`, with the bytes behind it.
#[verifier::external_body]
pub(crate) fn take_i32<'a>(s: &'a [u8]) -> (r: Result<(i32, &'a [u8]), WireFault>)
    ensures
        taken(r) == read_i32(s@),
{
    postcard::take_from_bytes::<i32>(s).map_err(
        |e|
            match e {
                postcard::Error::DeserializeUnexpectedEnd => WireFault::UnexpectedEnd,
                postcard::Error::DeserializeBadVarint => WireFault::BadVarint,
                _ => WireFault::Other,
            },
    )
}

/// Decodes a boolean through `postcard::take_from_bytes`: one byte, 0 or 1,
/// with the bytes behind it.
#[verifier::external_body]
pub(crate) fn take_bool<'a>(s: &'a [u8]) -> (r: Result<(bool, &'a [u8]), WireFault>)
    ensures
        taken(r) == read_bool(s@),
{
    postcard::take_from_bytes::<bool>(s).map_err(
        |e|
            match e {
                postcard::Error::DeserializeUnexpectedEnd => WireFault::UnexpectedEnd,
                postcard::Error::DeserializeBadBool => WireFault::BadBool,
                _ => WireFault::Other,
            },
    )
}

/// Decodes text through `postcard::take_from_bytes`: a length, then that
/// many bytes of valid UTF-8, with the bytes behind them.
#[verifier::external_body]
pub(crate) fn take_string<'a>(s: &'a [u8]) -> (r: Result<(String, &'a [u8]), WireFault>)
    ensures
        taken_view(r) == read_string(s@),
{
    postcard::take_from_bytes::<String>(s).map_err(
        |e|
            match e {
                postcard::Error::DeserializeUnexpectedEnd => WireFault::UnexpectedEnd,
                postcard::Error::DeserializeBadVarint => WireFault::BadVarint,
                postcard::Error::DeserializeBadUtf8 => WireFault::BadUtf8,
                _ => WireFault::Other,
            },
    )
}

/// Decodes bytes through `postcard::take_from_bytes`: a length, then that
/// many bytes, with the bytes behind them.
#[verifier::external_body]
pub(crate) fn take_bytes<'a>(s: &'a [u8]) -> (r: Result<(Vec<u8>, &'a [u8]), WireFault>)
    ensures
        taken_view(r) == read_bytes(s@),
{
    postcard::take_from_bytes::<Vec<u8>>(s).map_err(
        |e|
            match e {
                postcard::Error::DeserializeUnexpectedEnd => WireFault::UnexpectedEnd,
                postcard::Error::DeserializeBadVarint => WireFault::BadVarint,
                _ => WireFault::Other,
            },
    )
}

/// Appends an encoding, which never fails.
fn put(out: &mut Vec<u8>, encoded: Result<Vec<u8>, WireFault>)
    requires
        encoded is Ok,
    ensures
        final(out)@ == old(out)@ + encoded->Ok_0@,
{
    if let Ok(bytes) = encoded {
        let mut bytes = bytes;
        out.append(&mut bytes);
    }
}

pub(crate) fn put_u8(out: &mut Vec<u8>, v: u8)
    ensures
        final(out)@ == old(out)@ + seq![v],
{
    put(out, encode_u8(v));
}

pub(crate) fn put_u16(out: &mut Vec<u8>, v: u16)
    ensures
        final(out)@ == old(out)@ + varint(v as nat),
{
    put(out, encode_u64(v as u64));
}

pub(crate) fn put_u32(out: &mut Vec<u8>, v: u32)
    ensures
        final(out)@ == old(out)@ + varint(v as nat),
{
    put(out, encode_u64(v as u64));
}

pub(crate) fn put_u64(out: &mut Vec<u8>, v: u64)
    ensures
        final(out)@ == old(out)@ + varint(v as nat),
{
    put(out, encode_u64(v));
}

pub(crate) fn put_len(out: &mut Vec<u8>, v: usize)
    ensures
        final(out)@ == old(out)@ + varint(v as nat),
{
    put(out, encode_u64(v as u64));
}

pub(crate) fn put_i16(out: &mut Vec<u8>, v: i16)
    ensures
        final(out)@ == old(out)@ + varint(zigzag(v as int)),
{
    put(out, encode_i32(v as i32));
}

pub(crate) fn put_i32(out: &mut Vec<u8>, v: i32)
    ensures
        final(out)@ == old(out)@ + varint(zigzag(v as int)),
{
    put(out, encode_i32(v));
}

pub(crate) fn put_bool(out: &mut Vec<u8>, v: bool)
    ensures
        final(out)@ == old(out)@ + enc_bool(v),
{
    put(out, encode_bool(v));
}

pub(crate) fn put_str(out: &mut Vec<u8>, v: &str)
    ensures
        final(out)@ == old(out)@ + enc_str(v@),
{
    put(out, encode_str(v));
}

pub(crate) fn put_bytes(out: &mut Vec<u8>, v: &[u8])
    ensures
        final(out)@ == old(out)@ + enc_bytes(v@),
{
    put(out, encode_bytes(v));
}

/// How encodings are grouped does not matter.
pub broadcast proof fn lemma_add_assoc(a: Seq<u8>, b: Seq<u8>, c: Seq<u8>)
    ensures
        #[trigger] ((a + b) + c) == a + (b + c),
{
    assert((a + b) + c =~= a + (b + c));
}

/// 128 to the power of `k`: what `k` groups of seven bits can hold.
pub open spec fn groups(k: nat) -> nat
    decreases k,
{
    if k == 0 {
        1
    } else {
        128 * groups((k - 1) as nat)
    }
}

/// Reading a varint that was written gives back its value.
pub proof fn lemma_varint_read(n: nat, rest: Seq<u8>, room: nat, limit: nat)
    requires
        room > 0,
        n <= limit,
        n < groups(room),
    ensures
        read_varint(varint(n) + rest, room, limit) == Ok::<(nat, Seq<u8>), WireFault>((n, rest)),
    decreases room,
{
    let s = varint(n) + rest;
    if n < 128 {
        assert(s[0] == n);
        assert(s.skip(1) =~= rest);
    } else {
        assert(s[0] == 128 + n % 128);
        assert(s.skip(1) =~= varint(n / 128) + rest);
        assert(n / 128 <= limit / 128);
        assert(n / 128 < groups((room - 1) as nat));
        lemma_varint_read(n / 128, rest, (room - 1) as nat, limit / 128);
    }
}

/// A varint has no more bytes than seven-bit groups are needed.
pub proof fn lemma_varint_len(n: nat, k: nat)
    requires
        n < groups(k),
        k > 0,
    ensures
        1 <= varint(n).len() <= k,
    decreases k,
{
    if n >= 128 {
        assert(n / 128 < groups((k - 1) as nat));
        lemma_varint_len(n / 128, (k - 1) as nat);
    }
}

pub proof fn lemma_groups()
    ensures
        groups(3) > u16::MAX,
        groups(5) > u32::MAX,
        groups(10) > u64::MAX,
{
    reveal_with_fuel(groups, 11);
}

pub proof fn lemma_read_u8(v: u8, rest: Seq<u8>)
    ensures
        read_u8(seq![v] + rest) == Ok::<(u8, Seq<u8>), WireFault>((v, rest)),
{
    assert((seq![v] + rest).skip(1) =~= rest);
}

pub proof fn lemma_read_u16(v: u16, rest: Seq<u8>)
    ensures
        read_u16(varint(v as nat) + rest) == Ok::<(u16, Seq<u8>), WireFault>((v, rest)),
{
    lemma_groups();
    lemma_varint_read(v as nat, rest, 3, u16::MAX as nat);
}

pub proof fn lemma_read_u32(v: u32, rest: Seq<u8>)
    ensures
        read_u32(varint(v as nat) + rest) == Ok::<(u32, Seq<u8>), WireFault>((v, rest)),
{
    lemma_groups();
    lemma_varint_read(v as nat, rest, 5, u32::MAX as nat);
}

pub proof fn lemma_read_u64(v: u64, rest: Seq<u8>)
    ensures
        read_u64(varint(v as nat) + rest) == Ok::<(u64, Seq<u8>), WireFault>((v, rest)),
{
    lemma_groups();
    lemma_varint_read(v as nat, rest, 10, u64::MAX as nat);
}

pub proof fn lemma_read_len(v: nat, rest: Seq<u8>)
    requires
        v <= usize::MAX,
    ensures
        read_len(varint(v) + rest) == Ok::<(nat, Seq<u8>), WireFault>((v, rest)),
{
    lemma_groups();
    if usize::MAX > u32::MAX {
        lemma_varint_read(v, rest, 10, usize::MAX as nat);
    } else {
        lemma_varint_read(v, rest, 5, usize::MAX as nat);
    }
}

pub proof fn lemma_read_i16(v: i16, rest: Seq<u8>)
    ensures
        read_i16(varint(zigzag(v as int)) + rest) == Ok::<(i16, Seq<u8>), WireFault>((v, rest)),
{
    lemma_groups();
    lemma_varint_read(zigzag(v as int), rest, 3, u16::MAX as nat);
}

pub proof fn lemma_read_i32(v: i32, rest: Seq<u8>)
    ensures
        read_i32(varint(zigzag(v as int)) + rest) == Ok::<(i32, Seq<u8>), WireFault>((v, rest)),
{
    lemma_groups();
    lemma_varint_read(zigzag(v as int), rest, 5, u32::MAX as nat);
}

pub proof fn lemma_read_bool(v: bool, rest: Seq<u8>)
    ensures
        read_bool(enc_bool(v) + rest) == Ok::<(bool, Seq<u8>), WireFault>((v, rest)),
{
    assert((enc_bool(v) + rest).skip(1) =~= rest);
}

pub proof fn lemma_read_bytes(v: Seq<u8>, rest: Seq<u8>)
    requires
        v.len() <= usize::MAX,
    ensures
        read_bytes(enc_bytes(v) + rest) == Ok::<(Seq<u8>, Seq<u8>), WireFault>((v, rest)),
{
    assert(enc_bytes(v) + rest =~= varint(v.len()) + (v + rest));
    lemma_read_len(v.len(), v + rest);
    assert((v + rest).take(v.len() as int) =~= v);
    assert((v + rest).skip(v.len() as int) =~= rest);
}

pub proof fn lemma_read_string(v: Seq<char>, rest: Seq<u8>)
    requires
        encode_utf8(v).len() <= usize::MAX,
    ensures
        read_string(enc_str(v) + rest) == Ok::<(Seq<char>, Seq<u8>), WireFault>((v, rest)),
{
    broadcast use vstd::utf8::group_utf8_lib;

    lemma_read_bytes(encode_utf8(v), rest);
    vstd::utf8::encode_utf8_decode_utf8(v);
    vstd::utf8::encode_utf8_valid_utf8(v);
}

/// Reading values that were written gives them back, if each of them comes
/// back.
pub proof fn lemma_read_items<T>(
    items: Seq<T>,
    rest: Seq<u8>,
    enc: spec_fn(T) -> Seq<u8>,
    one: spec_fn(Seq<u8>) -> Read<T>,
)
    requires
        forall|i: int, end: Seq<u8>|
            0 <= i < items.len() ==> #[trigger] one(enc(items[i]) + end) == Ok::<
                (T, Seq<u8>),
                WireFault,
            >((items[i], end)),
    ensures
        read_items(enc_items(items, enc) + rest, items.len(), one) == Ok::<
            (Seq<T>, Seq<u8>),
            WireFault,
        >((items, rest)),
    decreases items.len(),
{
    if items.len() == 0 {
        assert(enc_items(items, enc) + rest =~= rest);
        assert(items =~= Seq::empty());
    } else {
        let tail = items.skip(1);
        let end = enc_items(tail, enc) + rest;
        assert(enc_items(items, enc) + rest =~= enc(items[0]) + end);
        assert(one(enc(items[0]) + end) == Ok::<(T, Seq<u8>), WireFault>((items[0], end)));
        assert forall|i: int, e: Seq<u8>|
            0 <= i < tail.len() implies #[trigger] one(enc(tail[i]) + e) == Ok::<
            (T, Seq<u8>),
            WireFault,
        >((tail[i], e)) by {
            assert(tail[i] == items[i + 1]);
            assert(one(enc(items[i + 1]) + e) == Ok::<(T, Seq<u8>), WireFault>((items[i + 1], e)));
        }
        lemma_read_items(tail, rest, enc, one);
        assert(seq![items[0]] + tail =~= items);
    }
}

pub proof fn lemma_read_list<T>(
    items: Seq<T>,
    rest: Seq<u8>,
    enc: spec_fn(T) -> Seq<u8>,
    one: spec_fn(Seq<u8>) -> Read<T>,
)
    requires
        items.len() <= usize::MAX,
        forall|i: int, end: Seq<u8>|
            0 <= i < items.len() ==> #[trigger] one(enc(items[i]) + end) == Ok::<
                (T, Seq<u8>),
                WireFault,
            >((items[i], end)),
    ensures
        read_list(enc_list(items, enc) + rest, one) == Ok::<(Seq<T>, Seq<u8>), WireFault>(
            (items, rest),
        ),
{
    assert(enc_list(items, enc) + rest =~= varint(items.len()) + (enc_items(items, enc) + rest));
    lemma_read_len(items.len(), enc_items(items, enc) + rest);
    lemma_read_items(items, rest, enc, one);
}

/// The encodings of a list grow at the end as its items do.
pub proof fn lemma_enc_items_push<T>(items: Seq<T>, item: T, enc: spec_fn(T) -> Seq<u8>)
    ensures
        enc_items(items.push(item), enc) == enc_items(items, enc) + enc(item),
    decreases items.len(),
{
    if items.len() == 0 {
        reveal_with_fuel(enc_items, 2);
        assert(items.push(item).skip(1) =~= Seq::empty());
        assert(enc_items(items.push(item), enc) =~= enc_items(items, enc) + enc(item));
    } else {
        lemma_enc_items_push(items.skip(1), item, enc);
        assert(items.push(item).skip(1) =~= items.skip(1).push(item));
        assert(enc_items(items.push(item), enc) =~= enc_items(items, enc) + enc(item));
    }
}

} // verus!
