//! The primitives of the postcard wire format.
//!
//! A message on the wire is a concatenation of fields. An unsigned integer is
//! a little-endian base-128 varint, a byte string or a text is its length as
//! a varint followed by the bytes, and a fixed-size array is its bytes with no
//! prefix. This module states those encodings as spec functions, calls
//! `postcard` for the integers, and builds the byte strings and texts on top
//! of that in verified code.

use vstd::prelude::*;
use vstd::slice::{slice_subrange, slice_to_vec};
use vstd::utf8::{decode_utf8, encode_utf8, valid_utf8};

verus! {

/// The varint encoding of `v`: seven bits per byte, least significant group
/// first, the top bit of a byte set when another byte follows.
pub open spec fn varint(v: nat) -> Seq<u8>
    decreases v,
{
    if v < 128 {
        seq![v as u8]
    } else {
        seq![(v % 128 + 128) as u8] + varint(v / 128)
    }
}

/// Reads a varint of at most `max_bytes` bytes from the front of `input`.
/// The byte in the last permitted position may not exceed `last_max`.
/// Gives the value and the bytes that follow it, or `None` when the input
/// ends early or the varint is too long or too large. Encodings with
/// superfluous zero groups are accepted.
pub open spec fn varint_take(input: Seq<u8>, max_bytes: nat, last_max: nat) -> Option<
    (nat, Seq<u8>),
>
    decreases max_bytes,
{
    if max_bytes == 0 || input.len() == 0 {
        None
    } else if input[0] < 128 {
        if max_bytes == 1 && input[0] > last_max {
            None
        } else {
            Some((input[0] as nat, input.skip(1)))
        }
    } else {
        match varint_take(input.skip(1), (max_bytes - 1) as nat, last_max) {
            Some((v, rest)) => Some(((input[0] - 128) as nat + 128 * v, rest)),
            None => None,
        }
    }
}

/// Whether `v` is small enough for a varint of `max_bytes` bytes whose last
/// byte is at most `last_max`.
pub open spec fn varint_fits(v: nat, max_bytes: nat, last_max: nat) -> bool
    decreases max_bytes,
{
    if max_bytes == 0 {
        false
    } else if max_bytes == 1 {
        v <= last_max
    } else {
        v < 128 || varint_fits(v / 128, (max_bytes - 1) as nat, last_max)
    }
}

/// Reading a 64-bit varint: up to ten bytes, the tenth at most 1.
pub open spec fn take_u64_spec(input: Seq<u8>) -> Option<(nat, Seq<u8>)> {
    varint_take(input, 10, 1)
}

/// Reading a 32-bit varint: up to five bytes, the fifth at most 15.
pub open spec fn take_u32_spec(input: Seq<u8>) -> Option<(nat, Seq<u8>)> {
    varint_take(input, 5, 15)
}

/// Reading a length: a 64-bit varint whose value fits the machine word.
pub open spec fn take_len_spec(input: Seq<u8>) -> Option<(nat, Seq<u8>)> {
    match take_u64_spec(input) {
        Some((n, rest)) => if n <= usize::MAX {
            Some((n, rest))
        } else {
            None
        },
        None => None,
    }
}

/// A byte string on the wire: its length, then its bytes.
pub open spec fn bytes_enc(b: Seq<u8>) -> Seq<u8> {
    varint(b.len()) + b
}

/// Reads a length-prefixed byte string from the front of `input`.
pub open spec fn bytes_take(input: Seq<u8>) -> Option<(Seq<u8>, Seq<u8>)> {
    match take_len_spec(input) {
        Some((n, rest)) => if n <= rest.len() {
            Some((rest.take(n as int), rest.skip(n as int)))
        } else {
            None
        },
        None => None,
    }
}

/// A text on the wire: the length of its UTF-8 form, then that form.
pub open spec fn str_enc(s: Seq<char>) -> Seq<u8> {
    bytes_enc(encode_utf8(s))
}

/// Reads a length-prefixed UTF-8 text from the front of `input`.
pub open spec fn str_take(input: Seq<u8>) -> Option<(Seq<char>, Seq<u8>)> {
    match bytes_take(input) {
        Some((b, rest)) => if valid_utf8(b) {
            Some((decode_utf8(b), rest))
        } else {
            None
        },
        None => None,
    }
}

/// Reads exactly `n` bytes from the front of `input`.
pub open spec fn fixed_take(input: Seq<u8>, n: nat) -> Option<(Seq<u8>, Seq<u8>)> {
    if n <= input.len() {
        Some((input.take(n as int), input.skip(n as int)))
    } else {
        None
    }
}

/// Reading back a varint that fits gives the value and leaves what follows.
pub proof fn lemma_varint_round_trip(v: nat, tail: Seq<u8>, max_bytes: nat, last_max: nat)
    requires
        varint_fits(v, max_bytes, last_max),
        last_max < 128,
    ensures
        varint_take(varint(v) + tail, max_bytes, last_max) == Some((v, tail)),
    decreases max_bytes,
{
    let input = varint(v) + tail;
    if v < 128 {
        assert(input[0] == v as u8);
        assert(input.skip(1) =~= tail);
    } else {
        lemma_varint_round_trip(v / 128, tail, (max_bytes - 1) as nat, last_max);
        assert(input[0] == (v % 128 + 128) as u8);
        assert(input.skip(1) =~= varint(v / 128) + tail);
    }
}

/// Every 64-bit value fits a ten-byte varint.
pub proof fn lemma_u64_fits(v: nat)
    requires
        v <= u64::MAX,
    ensures
        varint_fits(v, 10, 1),
{
    reveal_with_fuel(varint_fits, 11);
}

/// Every 32-bit value fits a five-byte varint.
pub proof fn lemma_u32_fits(v: nat)
    requires
        v <= u32::MAX,
    ensures
        varint_fits(v, 5, 15),
{
    reveal_with_fuel(varint_fits, 6);
}

/// What a successful read leaves is a proper suffix of the input, and the
/// value read fits the width.
pub proof fn lemma_varint_take_bounds(input: Seq<u8>, max_bytes: nat, last_max: nat)
    requires
        last_max < 128,
    ensures
        match varint_take(input, max_bytes, last_max) {
            Some((v, rest)) => {
                &&& rest.len() < input.len()
                &&& rest == input.skip(input.len() - rest.len())
                &&& varint_fits(v, max_bytes, last_max)
            },
            None => true,
        },
    decreases max_bytes,
{
    if max_bytes == 0 || input.len() == 0 {
    } else if input[0] < 128 {
    } else {
        lemma_varint_take_bounds(input.skip(1), (max_bytes - 1) as nat, last_max);
        match varint_take(input.skip(1), (max_bytes - 1) as nat, last_max) {
            Some((v, rest)) => {
                assert(rest =~= input.skip(input.len() - rest.len()));
                let w = (input[0] - 128) as nat + 128 * v;
                assert(w / 128 == v);
                assert(w >= 128 ==> max_bytes >= 2);
            },
            None => {},
        }
    }
}

/// Reading back a byte string gives the bytes and leaves what follows.
pub proof fn lemma_bytes_round_trip(b: Seq<u8>, tail: Seq<u8>)
    requires
        b.len() <= usize::MAX,
    ensures
        bytes_take(bytes_enc(b) + tail) == Some((b, tail)),
{
    let n = b.len();
    lemma_u64_fits(n);
    lemma_varint_round_trip(n, b + tail, 10, 1);
    assert(bytes_enc(b) + tail =~= varint(n) + (b + tail));
    assert((b + tail).take(n as int) =~= b);
    assert((b + tail).skip(n as int) =~= tail);
}

/// Reading back a text gives the text and leaves what follows.
pub proof fn lemma_str_round_trip(s: Seq<char>, tail: Seq<u8>)
    requires
        encode_utf8(s).len() <= usize::MAX,
    ensures
        str_take(str_enc(s) + tail) == Some((s, tail)),
{
    lemma_bytes_round_trip(encode_utf8(s), tail);
    vstd::utf8::encode_utf8_valid_utf8(s);
    vstd::utf8::encode_utf8_decode_utf8(s);
}

/// Reading back `n` fixed bytes gives them and leaves what follows.
pub proof fn lemma_fixed_round_trip(b: Seq<u8>, tail: Seq<u8>)
    ensures
        fixed_take(b + tail, b.len()) == Some((b, tail)),
{
    assert((b + tail).take(b.len() as int) =~= b);
    assert((b + tail).skip(b.len() as int) =~= tail);
}

/// Trusted: `postcard::to_stdvec` on a `u64`. The serializer writes the low
/// seven bits of the value per byte and sets the top bit while more follow;
/// writing into a growable vector cannot fail.
#[verifier::external_body]
fn varint_bytes(v: u64) -> (out: Vec<u8>)
    ensures
        out@ == varint(v as nat),
{
    postcard::to_stdvec(&v).unwrap_or_default()
}

/// Trusted: `postcard::take_from_bytes` at type `u64`. It reads at most ten
/// bytes, rejects a tenth byte above 1, and hands back the unread bytes.
#[verifier::external_body]
fn postcard_take_u64(input: &[u8]) -> (r: Option<(u64, &[u8])>)
    ensures
        match take_u64_spec(input@) {
            Some((v, rest)) => r matches Some((x, tail)) && x as nat == v && tail@ == rest,
            None => r is None,
        },
{
    postcard::take_from_bytes::<u64>(input).ok()
}

/// Trusted: `postcard::take_from_bytes` at type `u32`. It reads at most five
/// bytes, rejects a fifth byte above 15, and hands back the unread bytes.
#[verifier::external_body]
fn postcard_take_u32(input: &[u8]) -> (r: Option<(u32, &[u8])>)
    ensures
        match take_u32_spec(input@) {
            Some((v, rest)) => r matches Some((x, tail)) && x as nat == v && tail@ == rest,
            None => r is None,
        },
{
    postcard::take_from_bytes::<u32>(input).ok()
}

/// Trusted: `String::from_utf8`. It succeeds exactly on well-formed UTF-8 and
/// then yields the text those bytes spell.
#[verifier::external_body]
fn string_from_utf8(bytes: Vec<u8>) -> (r: Option<String>)
    ensures
        match r {
            Some(s) => valid_utf8(bytes@) && s@ == decode_utf8(bytes@),
            None => !valid_utf8(bytes@),
        },
{
    String::from_utf8(bytes).ok()
}

/// The text that `bytes` spell in UTF-8, if they are well formed.
pub fn text_from_utf8(bytes: Vec<u8>) -> (r: Option<String>)
    ensures
        match r {
            Some(s) => valid_utf8(bytes@) && s@ == decode_utf8(bytes@),
            None => !valid_utf8(bytes@),
        },
{
    string_from_utf8(bytes)
}

/// Appends the varint of `v`.
pub fn put_u64(out: &mut Vec<u8>, v: u64)
    ensures
        final(out)@ == old(out)@ + varint(v as nat),
{
    let mut encoded = varint_bytes(v);
    out.append(&mut encoded);
}

/// Appends `b` as it is, with no length in front.
pub fn put_raw(out: &mut Vec<u8>, b: &[u8])
    ensures
        final(out)@ == old(out)@ + b@,
{
    out.extend_from_slice(b);
    assert(out@ =~= old(out)@ + b@);
}

/// Appends the byte string `b`: its length, then its bytes.
pub fn put_bytes(out: &mut Vec<u8>, b: &[u8])
    ensures
        final(out)@ == old(out)@ + bytes_enc(b@),
{
    put_u64(out, b.len() as u64);
    put_raw(out, b);
    assert(out@ =~= old(out)@ + bytes_enc(b@));
}

/// Appends the text `s`: the length of its UTF-8 form, then that form.
pub fn put_str(out: &mut Vec<u8>, s: &str)
    ensures
        final(out)@ == old(out)@ + str_enc(s@),
{
    put_bytes(out, s.as_bytes());
}

/// Reads a 64-bit varint from the front of `input`.
pub fn take_u64(input: &[u8]) -> (r: Option<(u64, &[u8])>)
    ensures
        match take_u64_spec(input@) {
            Some((v, rest)) => r matches Some((x, tail)) && x as nat == v && tail@ == rest,
            None => r is None,
        },
        r matches Some((_, tail)) ==> tail@.len() < input@.len(),
{
    proof {
        lemma_varint_take_bounds(input@, 10, 1);
    }
    postcard_take_u64(input)
}

/// Reads a 32-bit varint from the front of `input`.
pub fn take_u32(input: &[u8]) -> (r: Option<(u32, &[u8])>)
    ensures
        match take_u32_spec(input@) {
            Some((v, rest)) => r matches Some((x, tail)) && x as nat == v && tail@ == rest,
            None => r is None,
        },
        r matches Some((_, tail)) ==> tail@.len() < input@.len(),
{
    proof {
        lemma_varint_take_bounds(input@, 5, 15);
    }
    postcard_take_u32(input)
}

/// Reads a length from the front of `input`.
pub fn take_len(input: &[u8]) -> (r: Option<(usize, &[u8])>)
    ensures
        match take_len_spec(input@) {
            Some((v, rest)) => r matches Some((x, tail)) && x as nat == v && tail@ == rest,
            None => r is None,
        },
        r matches Some((_, tail)) ==> tail@.len() < input@.len(),
{
    match take_u64(input) {
        Some((n, rest)) => if n <= usize::MAX as u64 {
            Some((n as usize, rest))
        } else {
            None
        },
        None => None,
    }
}

/// Splits off the first `n` bytes of `input`.
pub fn take_fixed(input: &[u8], n: usize) -> (r: Option<(&[u8], &[u8])>)
    ensures
        match fixed_take(input@, n as nat) {
            Some((b, rest)) => r matches Some((head, tail)) && head@ == b && tail@ == rest,
            None => r is None,
        },
{
    if n <= input.len() {
        let head = slice_subrange(input, 0, n);
        let tail = slice_subrange(input, n, input.len());
        Some((head, tail))
    } else {
        None
    }
}

/// Reads a length-prefixed byte string from the front of `input`.
pub fn take_bytes(input: &[u8]) -> (r: Option<(&[u8], &[u8])>)
    ensures
        match bytes_take(input@) {
            Some((b, rest)) => r matches Some((head, tail)) && head@ == b && tail@ == rest,
            None => r is None,
        },
        r matches Some((_, tail)) ==> tail@.len() < input@.len(),
{
    match take_len(input) {
        Some((n, rest)) => take_fixed(rest, n),
        None => None,
    }
}

/// Reads a length-prefixed UTF-8 text from the front of `input`.
pub fn take_str(input: &[u8]) -> (r: Option<(String, &[u8])>)
    ensures
        match str_take(input@) {
            Some((s, rest)) => r matches Some((text, tail)) && text@ == s && tail@ == rest,
            None => r is None,
        },
        r matches Some((_, tail)) ==> tail@.len() < input@.len(),
{
    match take_bytes(input) {
        Some((b, rest)) => match string_from_utf8(slice_to_vec(b)) {
            Some(text) => Some((text, rest)),
            None => None,
        },
        None => None,
    }
}

/// Copies 32 bytes into an array.
pub(crate) fn array32(s: &[u8]) -> (a: [u8; 32])
    requires
        s@.len() == 32,
    ensures
        a@ == s@,
{
    let mut a = [0u8; 32];
    let mut i: usize = 0;
    while i < 32
        invariant
            i <= 32,
            s@.len() == 32,
            forall|j: int| 0 <= j < i ==> a@[j] == s@[j],
        decreases 32 - i,
    {
        a[i] = s[i];
        i += 1;
    }
    assert(a@ =~= s@);
    a
}

/// Copies 64 bytes into an array.
pub(crate) fn array64(s: &[u8]) -> (a: [u8; 64])
    requires
        s@.len() == 64,
    ensures
        a@ == s@,
{
    let mut a = [0u8; 64];
    let mut i: usize = 0;
    while i < 64
        invariant
            i <= 64,
            s@.len() == 64,
            forall|j: int| 0 <= j < i ==> a@[j] == s@[j],
        decreases 64 - i,
    {
        a[i] = s[i];
        i += 1;
    }
    assert(a@ =~= s@);
    a
}

} // verus!
