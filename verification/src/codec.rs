//! SCALE-compatible codec for the generic tagged value passed across the
//! delegate-call boundary.
//!
//! The wire format is the standard SCALE encoding of the closed union
//! `{String, Bytes, Undefined}`: a one-byte tag (0, 1, 2), followed for
//! `String` and `Bytes` by a compact-encoded byte length and the raw bytes.
//! Decoding is strict: a non-canonical length, an unknown tag, a truncated
//! buffer or invalid UTF-8 all fail with a distinct error rather than being
//! silently misread.

use vstd::prelude::*;

verus! {

use vstd::utf8::{encode_utf8, decode_utf8, valid_utf8};
use vstd::utf8::{encode_utf8_valid_utf8, encode_utf8_decode_utf8, decode_utf8_encode_utf8};
use vstd::string::StrSliceExecFns;
use vstd::string::StringSliceAdditionalSpecFns;

/// Why a buffer failed to decode. Any of these means the buffer did not
/// come from a compatible encoder: a protocol error, not a runtime
/// condition.
#[derive(Debug, Clone, Copy, PartialEq, Eq, Structural)]
pub enum CodecError {
    /// The buffer ended before the announced end of the value.
    Truncated,
    /// A compact length was not in the canonical SCALE form.
    NonCanonical,
    /// The leading tag byte does not name a variant of the closed union.
    UnknownTag,
    /// A string payload was not valid UTF-8.
    InvalidUtf8,
}

/// The generic tagged value exchanged with a delegate: a closed union,
/// extensible only by extending the tag set and every consumer's match.
#[derive(Debug, PartialEq, Eq, Clone)]
pub enum Output {
    String(String),
    Bytes(Vec<u8>),
    Undefined,
}

/// Mathematical model of an `Output` value.
pub enum ValueView {
    String(Seq<char>),
    Bytes(Seq<u8>),
    Undefined,
}

impl View for Output {
    type V = ValueView;

    open spec fn view(&self) -> ValueView {
        match self {
            Output::String(s) => ValueView::String(s@),
            Output::Bytes(b) => ValueView::Bytes(b@),
            Output::Undefined => ValueView::Undefined,
        }
    }
}

/// The four little-endian bytes of `x` (for `x < 2^32`).
pub open spec fn spec_u32_le(x: nat) -> Seq<u8> {
    seq![
        (x % 256) as u8,
        ((x / 256) % 256) as u8,
        ((x / 65536) % 256) as u8,
        ((x / 16777216) % 256) as u8,
    ]
}

/// Canonical SCALE compact encoding of a length `n <= u32::MAX`.
pub open spec fn spec_compact_len(n: nat) -> Seq<u8> {
    if n < 64 {
        seq![(n * 4) as u8]
    } else if n < 16384 {
        seq![((n * 4 + 1) % 256) as u8, ((n * 4 + 1) / 256) as u8]
    } else if n < 1073741824 {
        spec_u32_le(n * 4 + 2)
    } else {
        seq![3u8] + spec_u32_le(n)
    }
}

/// Strict decoder for a compact length at the head of `bytes`: the decoded
/// value and the number of bytes consumed, or `None` if the head is not a
/// canonical compact encoding of a `u32`.
pub open spec fn spec_decode_compact(bytes: Seq<u8>) -> Option<(nat, int)> {
    if bytes.len() < 1 {
        None
    } else {
        let b0 = bytes[0] as nat;
        let mode = b0 % 4;
        if mode == 0 {
            Some((b0 / 4, 1))
        } else if mode == 1 {
            if bytes.len() < 2 {
                None
            } else {
                let v = b0 / 4 + (bytes[1] as nat) * 64;
                if v >= 64 {
                    Some((v, 2))
                } else {
                    None
                }
            }
        } else if mode == 2 {
            if bytes.len() < 4 {
                None
            } else {
                let v = b0 / 4 + (bytes[1] as nat) * 64 + (bytes[2] as nat) * 16384 + (
                bytes[3] as nat) * 4194304;
                if v >= 16384 {
                    Some((v, 4))
                } else {
                    None
                }
            }
        } else {
            if b0 != 3 {
                None
            } else if bytes.len() < 5 {
                None
            } else {
                let v = bytes[1] as nat + (bytes[2] as nat) * 256 + (bytes[3] as nat) * 65536 + (
                bytes[4] as nat) * 16777216;
                if v >= 1073741824 {
                    Some((v, 5))
                } else {
                    None
                }
            }
        }
    }
}

/// Append the four little-endian bytes of `x` to `out`.
fn push_u32_le(x: u32, out: &mut Vec<u8>)
    ensures
        final(out)@ == old(out)@ + spec_u32_le(x as nat),
{
    out.push((x % 256) as u8);
    out.push(((x / 256) % 256) as u8);
    out.push(((x / 65536) % 256) as u8);
    out.push(((x / 16777216) % 256) as u8);
    assert(out@ =~= old(out)@ + spec_u32_le(x as nat));
}

/// Append the canonical compact encoding of `n` to `out`.
pub fn encode_compact(n: u32, out: &mut Vec<u8>)
    ensures
        final(out)@ == old(out)@ + spec_compact_len(n as nat),
{
    if n < 64 {
        out.push((n * 4) as u8);
        assert(out@ =~= old(out)@ + spec_compact_len(n as nat));
    } else if n < 16384 {
        let x: u32 = n * 4 + 1;
        out.push((x % 256) as u8);
        out.push((x / 256) as u8);
        assert(out@ =~= old(out)@ + spec_compact_len(n as nat));
    } else if n < 1073741824 {
        let x: u32 = n * 4 + 2;
        push_u32_le(x, out);
        assert(out@ =~= old(out)@ + spec_compact_len(n as nat));
    } else {
        out.push(3u8);
        push_u32_le(n, out);
        assert(out@ =~= old(out)@ + spec_compact_len(n as nat));
    }
}

/// Decode a compact length from `bytes` starting at `pos`; on success the
/// value and the position just past it.
pub fn decode_compact(bytes: &Vec<u8>, pos: usize) -> (r: Result<(u32, usize), CodecError>)
    requires
        pos <= bytes@.len(),
    ensures
        match r {
            Ok((v, p)) => {
                &&& spec_decode_compact(bytes@.skip(pos as int)) == Some(
                    (v as nat, p - pos),
                )
                &&& pos < p <= bytes@.len()
            },
            Err(_) => spec_decode_compact(bytes@.skip(pos as int)) is None,
        },
{
    let ghost tail = bytes@.skip(pos as int);
    if pos >= bytes.len() {
        return Err(CodecError::Truncated);
    }
    let b0: u8 = bytes[pos];
    assert(tail[0] == b0);
    let mode: u8 = b0 % 4;
    if mode == 0 {
        Ok(((b0 / 4) as u32, pos + 1))
    } else if mode == 1 {
        if bytes.len() - pos < 2 {
            return Err(CodecError::Truncated);
        }
        let b1: u8 = bytes[pos + 1];
        assert(tail[1] == b1);
        let v: u32 = (b0 / 4) as u32 + (b1 as u32) * 64;
        if v >= 64 {
            Ok((v, pos + 2))
        } else {
            Err(CodecError::NonCanonical)
        }
    } else if mode == 2 {
        if bytes.len() - pos < 4 {
            return Err(CodecError::Truncated);
        }
        let b1: u8 = bytes[pos + 1];
        let b2: u8 = bytes[pos + 2];
        let b3: u8 = bytes[pos + 3];
        assert(tail[1] == b1 && tail[2] == b2 && tail[3] == b3);
        let v: u32 = (b0 / 4) as u32 + (b1 as u32) * 64 + (b2 as u32) * 16384 + (b3 as u32)
            * 4194304;
        if v >= 16384 {
            Ok((v, pos + 4))
        } else {
            Err(CodecError::NonCanonical)
        }
    } else {
        if b0 != 3 {
            return Err(CodecError::NonCanonical);
        }
        if bytes.len() - pos < 5 {
            return Err(CodecError::Truncated);
        }
        let b1: u8 = bytes[pos + 1];
        let b2: u8 = bytes[pos + 2];
        let b3: u8 = bytes[pos + 3];
        let b4: u8 = bytes[pos + 4];
        assert(tail[1] == b1 && tail[2] == b2 && tail[3] == b3 && tail[4] == b4);
        let v: u32 = b1 as u32 + (b2 as u32) * 256 + (b3 as u32) * 65536 + (b4 as u32) * 16777216;
        if v >= 1073741824 {
            Ok((v, pos + 5))
        } else {
            Err(CodecError::NonCanonical)
        }
    }
}

/// Whether a value fits the wire format: its payload length must be
/// expressible as a compact `u32`.
pub open spec fn value_encodable(v: ValueView) -> bool {
    match v {
        ValueView::String(s) => encode_utf8(s).len() <= u32::MAX,
        ValueView::Bytes(b) => b.len() <= u32::MAX,
        ValueView::Undefined => true,
    }
}

/// SCALE encoding of a string: compact byte length, then the UTF-8 bytes.
pub open spec fn spec_encode_str(s: Seq<char>) -> Seq<u8> {
    spec_compact_len(encode_utf8(s).len()) + encode_utf8(s)
}

/// Wire bytes of a tagged value: tag byte, then the payload.
pub open spec fn spec_encode_value(v: ValueView) -> Seq<u8> {
    match v {
        ValueView::String(s) => seq![0u8] + spec_encode_str(s),
        ValueView::Bytes(b) => seq![1u8] + spec_compact_len(b.len()) + b,
        ValueView::Undefined => seq![2u8],
    }
}

/// Strict decoder for a tagged value at the head of `bytes`: the decoded
/// value and the number of bytes consumed, or `None` if the head is not a
/// canonical encoding.
pub open spec fn spec_decode_value(bytes: Seq<u8>) -> Option<(ValueView, int)> {
    if bytes.len() < 1 {
        None
    } else {
        let tag = bytes[0];
        let rest = bytes.skip(1);
        if tag == 2 {
            Some((ValueView::Undefined, 1))
        } else if tag == 0 || tag == 1 {
            match spec_decode_compact(rest) {
                Some((n, c)) => if rest.len() - c >= n {
                    let payload = rest.subrange(c, c + n as int);
                    if tag == 0 {
                        if valid_utf8(payload) {
                            Some((ValueView::String(decode_utf8(payload)), 1 + c + n))
                        } else {
                            None
                        }
                    } else {
                        Some((ValueView::Bytes(payload), 1 + c + n))
                    }
                } else {
                    None
                },
                None => None,
            }
        } else {
            None
        }
    }
}

/// Concatenated SCALE encodings of a sequence of strings, in order.
pub open spec fn spec_encode_str_items(ss: Seq<Seq<char>>) -> Seq<u8>
    decreases ss.len(),
{
    if ss.len() == 0 {
        Seq::empty()
    } else {
        spec_encode_str_items(ss.drop_last()) + spec_encode_str(ss.last())
    }
}

/// SCALE encoding of a string vector: compact count, then each string.
pub open spec fn spec_encode_str_vec(ss: Seq<Seq<char>>) -> Seq<u8> {
    spec_compact_len(ss.len()) + spec_encode_str_items(ss)
}

/// The character sequences of a vector of strings.
pub open spec fn str_views(ss: Seq<String>) -> Seq<Seq<char>> {
    ss.map_values(|s: String| s@)
}

/// Strict decoder for a SCALE string (compact byte length, UTF-8 bytes) at
/// the head of `bytes`.
pub open spec fn spec_decode_str(bytes: Seq<u8>) -> Option<(Seq<char>, int)> {
    match spec_decode_compact(bytes) {
        Some((n, c)) => if bytes.len() - c >= n {
            let payload = bytes.subrange(c, c + n as int);
            if valid_utf8(payload) {
                Some((decode_utf8(payload), c + n))
            } else {
                None
            }
        } else {
            None
        },
        None => None,
    }
}

/// Relies on `String::from_utf8`: it succeeds exactly on valid UTF-8 input
/// and returns the string made of those bytes.
#[verifier::external_body]
pub(crate) fn string_from_utf8(bytes: Vec<u8>) -> (r: Option<String>)
    ensures
        r is Some <==> valid_utf8(bytes@),
        r is Some ==> r.unwrap()@ == decode_utf8(bytes@),
{
    String::from_utf8(bytes).ok()
}

/// Copy `bytes[start..end]` into a fresh vector.
pub fn copy_range(bytes: &Vec<u8>, start: usize, end: usize) -> (r: Vec<u8>)
    requires
        start <= end <= bytes@.len(),
    ensures
        r@ == bytes@.subrange(start as int, end as int),
{
    let mut r: Vec<u8> = Vec::new();
    let mut i: usize = start;
    while i < end
        invariant
            start <= i <= end <= bytes@.len(),
            r@ == bytes@.subrange(start as int, i as int),
        decreases end - i,
    {
        r.push(bytes[i]);
        i = i + 1;
        assert(r@ =~= bytes@.subrange(start as int, i as int));
    }
    r
}

/// Append the SCALE encoding of `s` (compact byte length, UTF-8 bytes).
pub fn encode_str(s: &str, out: &mut Vec<u8>)
    requires
        encode_utf8(s@).len() <= u32::MAX,
    ensures
        final(out)@ == old(out)@ + spec_encode_str(s@),
{
    let mut b: Vec<u8> = s.as_bytes_vec();
    encode_compact(b.len() as u32, out);
    out.append(&mut b);
    assert(out@ =~= old(out)@ + spec_encode_str(s@));
}

/// Append the SCALE encoding of a string vector (compact count, then each
/// string) to `out`.
pub fn encode_str_vec(args: &Vec<String>, out: &mut Vec<u8>)
    requires
        args@.len() <= u32::MAX,
        forall|i: int|
            0 <= i < args@.len() ==> encode_utf8(#[trigger] args@[i]@).len() <= u32::MAX,
    ensures
        final(out)@ == old(out)@ + spec_encode_str_vec(str_views(args@)),
{
    encode_compact(args.len() as u32, out);
    let ghost views = str_views(args@);
    let mut i: usize = 0;
    assert(views.take(0) =~= Seq::<Seq<char>>::empty());
    while i < args.len()
        invariant
            i <= args@.len() <= u32::MAX,
            forall|j: int|
                0 <= j < args@.len() ==> encode_utf8(#[trigger] args@[j]@).len() <= u32::MAX,
            views == str_views(args@),
            out@ == old(out)@ + spec_compact_len(args@.len()) + spec_encode_str_items(
                views.take(i as int),
            ),
        decreases args@.len() - i,
    {
        encode_str(args[i].as_str(), out);
        i = i + 1;
        assert(views.take(i as int).drop_last() =~= views.take(i - 1));
        assert(out@ =~= old(out)@ + spec_compact_len(args@.len()) + spec_encode_str_items(
            views.take(i as int),
        ));
    }
    assert(views.take(args@.len() as int) =~= views);
    assert(out@ =~= old(out)@ + spec_encode_str_vec(views));
}

/// Decode a SCALE string from `bytes` starting at `pos`; on success the
/// string and the position just past it.
pub fn decode_str(bytes: &Vec<u8>, pos: usize) -> (r: Result<(String, usize), CodecError>)
    requires
        pos <= bytes@.len(),
    ensures
        match r {
            Ok((s, p)) => {
                &&& spec_decode_str(bytes@.skip(pos as int)) == Some((s@, p - pos))
                &&& pos <= p <= bytes@.len()
            },
            Err(_) => spec_decode_str(bytes@.skip(pos as int)) is None,
        },
{
    let ghost tail = bytes@.skip(pos as int);
    let (n, p2) = match decode_compact(bytes, pos) {
        Ok(ok) => ok,
        Err(e) => {
            return Err(e);
        },
    };
    if (bytes.len() - p2) < n as usize {
        assert(tail.len() - (p2 - pos) < n as nat);
        return Err(CodecError::Truncated);
    }
    let end: usize = p2 + n as usize;
    let payload: Vec<u8> = copy_range(bytes, p2, end);
    assert(payload@ =~= tail.subrange(p2 - pos, p2 - pos + n as int));
    match string_from_utf8(payload) {
        Some(s) => Ok((s, end)),
        None => Err(CodecError::InvalidUtf8),
    }
}

/// Append the wire bytes of `v` to `out`.
pub fn encode_value_to(v: &Output, out: &mut Vec<u8>)
    requires
        value_encodable(v@),
    ensures
        final(out)@ == old(out)@ + spec_encode_value(v@),
{
    match v {
        Output::String(s) => {
            out.push(0u8);
            encode_str(s.as_str(), out);
        },
        Output::Bytes(b) => {
            out.push(1u8);
            encode_compact(b.len() as u32, out);
            let mut copy: Vec<u8> = copy_range(b, 0, b.len());
            assert(copy@ =~= b@);
            out.append(&mut copy);
        },
        Output::Undefined => {
            out.push(2u8);
        },
    }
    assert(out@ =~= old(out)@ + spec_encode_value(v@));
}

/// Encode a tagged value into a fresh buffer.
pub fn encode_value(v: &Output) -> (r: Vec<u8>)
    requires
        value_encodable(v@),
    ensures
        r@ == spec_encode_value(v@),
{
    let mut out: Vec<u8> = Vec::new();
    encode_value_to(v, &mut out);
    out
}

/// Decode a tagged value from `bytes` starting at `pos`; on success the
/// value and the position just past it. Rejects, with a distinct error,
/// any buffer whose head is not the canonical encoding of some value.
pub fn decode_value(bytes: &Vec<u8>, pos: usize) -> (r: Result<(Output, usize), CodecError>)
    requires
        pos <= bytes@.len(),
    ensures
        match r {
            Ok((v, p)) => {
                &&& spec_decode_value(bytes@.skip(pos as int)) == Some((v@, p - pos))
                &&& pos < p <= bytes@.len()
            },
            Err(_) => spec_decode_value(bytes@.skip(pos as int)) is None,
        },
        pos < bytes@.len() && bytes@[pos as int] > 2 ==> r == Err::<(Output, usize),
            CodecError>(CodecError::UnknownTag),
{
    let ghost tail = bytes@.skip(pos as int);
    if pos >= bytes.len() {
        return Err(CodecError::Truncated);
    }
    let tag: u8 = bytes[pos];
    assert(tail[0] == tag);
    assert(tail.skip(1) =~= bytes@.skip(pos + 1));
    if tag == 2 {
        return Ok((Output::Undefined, pos + 1));
    }
    if tag > 2 {
        return Err(CodecError::UnknownTag);
    }
    let (n, p2) = match decode_compact(bytes, pos + 1) {
        Ok(ok) => ok,
        Err(e) => {
            return Err(e);
        },
    };
    if (bytes.len() - p2) < n as usize {
        assert(tail.skip(1).len() - (p2 - pos - 1) < n as nat);
        return Err(CodecError::Truncated);
    }
    let end: usize = p2 + n as usize;
    let payload: Vec<u8> = copy_range(bytes, p2, end);
    assert(payload@ =~= tail.skip(1).subrange(p2 - pos - 1, p2 - pos - 1 + n as int));
    if tag == 0 {
        match string_from_utf8(payload) {
            Some(s) => Ok((Output::String(s), end)),
            None => Err(CodecError::InvalidUtf8),
        }
    } else {
        Ok((Output::Bytes(payload), end))
    }
}

proof fn lemma_u32_decompose(x: nat)
    requires
        x < 4294967296,
    ensures
        x == x % 256 + 256 * ((x / 256) % 256) + 65536 * ((x / 65536) % 256) + 16777216 * (x
            / 16777216),
        x / 16777216 < 256,
{
    assert(x == x % 256 + 256 * ((x / 256) % 256) + 65536 * ((x / 65536) % 256) + 16777216 * (x
        / 16777216) && x / 16777216 < 256) by (nonlinear_arith)
        requires
            x < 4294967296,
    ;
}

/// A canonical compact length at the head of a buffer decodes back to
/// itself, whatever follows it.
pub proof fn lemma_compact_round_trip(n: nat, rest: Seq<u8>)
    requires
        n <= u32::MAX,
    ensures
        spec_decode_compact(spec_compact_len(n) + rest) == Some(
            (n, spec_compact_len(n).len() as int),
        ),
{
    let bytes = spec_compact_len(n) + rest;
    if n < 64 {
        assert(bytes[0] == (n * 4) as u8);
        assert((n * 4) % 4 == 0 && (n * 4) / 4 == n);
    } else if n < 16384 {
        let x = n * 4 + 1;
        let b0 = x % 256;
        let b1 = x / 256;
        assert(bytes[0] as nat == b0 && bytes[1] as nat == b1);
        vstd::arithmetic::div_mod::lemma_fundamental_div_mod(x as int, 256);
        assert(x == 256 * b1 + b0);
        assert(b0 % 4 == 1 && b0 / 4 + b1 * 64 == n) by (nonlinear_arith)
            requires
                x == n * 4 + 1 && x == 256 * b1 + b0 && b0 < 256 && 0 <= b0 && 0 <= b1,
        ;
    } else if n < 1073741824 {
        let x = n * 4 + 2;
        lemma_u32_decompose(x);
        let b0 = x % 256;
        let b1 = (x / 256) % 256;
        let b2 = (x / 65536) % 256;
        let b3 = x / 16777216;
        assert(bytes[0] as nat == b0 && bytes[1] as nat == b1 && bytes[2] as nat == b2 && bytes[3]
            as nat == b3);
        assert(b0 % 4 == 2 && b0 / 4 + b1 * 64 + b2 * 16384 + b3 * 4194304 == n)
            by (nonlinear_arith)
            requires
                x == n * 4 + 2 && x == b0 + 256 * b1 + 65536 * b2 + 16777216 * b3 && b0 < 256 && 0
                    <= b0 && 0 <= b1 && 0 <= b2 && 0 <= b3,
        ;
    } else {
        lemma_u32_decompose(n);
        let b1 = n % 256;
        let b2 = (n / 256) % 256;
        let b3 = (n / 65536) % 256;
        let b4 = n / 16777216;
        assert(bytes[0] == 3u8 && bytes[1] as nat == b1 && bytes[2] as nat == b2 && bytes[3] as nat
            == b3 && bytes[4] as nat == b4);
    }
}

proof fn lemma_u32_recompose(b0: nat, b1: nat, b2: nat, b3: nat)
    requires
        b0 < 256,
        b1 < 256,
        b2 < 256,
        b3 < 256,
    ensures
        (b0 + 256 * b1 + 65536 * b2 + 16777216 * b3) % 256 == b0,
        ((b0 + 256 * b1 + 65536 * b2 + 16777216 * b3) / 256) % 256 == b1,
        ((b0 + 256 * b1 + 65536 * b2 + 16777216 * b3) / 65536) % 256 == b2,
        (b0 + 256 * b1 + 65536 * b2 + 16777216 * b3) / 16777216 == b3,
        b0 + 256 * b1 + 65536 * b2 + 16777216 * b3 < 4294967296,
{
    let x = b0 + 256 * b1 + 65536 * b2 + 16777216 * b3;
    assert(x % 256 == b0 && (x / 256) % 256 == b1 && (x / 65536) % 256 == b2 && x / 16777216 == b3
        && x < 4294967296) by (nonlinear_arith)
        requires
            b0 < 256 && b1 < 256 && b2 < 256 && b3 < 256 && x == b0 + 256 * b1 + 65536 * b2
                + 16777216 * b3,
    ;
}

/// Soundness of the compact decoder: whatever it accepts is the canonical
/// encoding of the value it returns.
pub proof fn lemma_compact_decode_sound(bytes: Seq<u8>, v: nat, c: int)
    requires
        spec_decode_compact(bytes) == Some((v, c)),
    ensures
        v <= u32::MAX,
        spec_compact_len(v) =~= bytes.subrange(0, c),
{
    let b0 = bytes[0] as nat;
    let mode = b0 % 4;
    if mode == 0 {
        assert(v * 4 == b0 && v < 64) by (nonlinear_arith)
            requires
                b0 < 256 && b0 % 4 == 0 && v == b0 / 4,
        ;
    } else if mode == 1 {
        let b1 = bytes[1] as nat;
        assert(v < 16384 && v * 4 + 1 == b0 + 256 * b1 && (v * 4 + 1) % 256 == b0 && (v * 4 + 1)
            / 256 == b1) by (nonlinear_arith)
            requires
                b0 < 256 && b1 < 256 && b0 % 4 == 1 && v == b0 / 4 + b1 * 64,
        ;
    } else if mode == 2 {
        let b1 = bytes[1] as nat;
        let b2 = bytes[2] as nat;
        let b3 = bytes[3] as nat;
        assert(v < 1073741824 && v * 4 + 2 == b0 + 256 * b1 + 65536 * b2 + 16777216 * b3)
            by (nonlinear_arith)
            requires
                b0 < 256 && b1 < 256 && b2 < 256 && b3 < 256 && b0 % 4 == 2 && v == b0 / 4 + b1
                    * 64 + b2 * 16384 + b3 * 4194304,
        ;
        lemma_u32_recompose(b0, b1, b2, b3);
    } else {
        let b1 = bytes[1] as nat;
        let b2 = bytes[2] as nat;
        let b3 = bytes[3] as nat;
        let b4 = bytes[4] as nat;
        lemma_u32_recompose(b1, b2, b3, b4);
    }
}

/// Soundness of the value decoder: whatever it accepts is the canonical
/// encoding of the value it returns, so no two distinct values share an
/// accepted buffer.
pub proof fn lemma_value_decode_sound(bytes: Seq<u8>, v: ValueView, n: int)
    requires
        spec_decode_value(bytes) == Some((v, n)),
    ensures
        value_encodable(v),
        spec_encode_value(v) =~= bytes.subrange(0, n),
{
    let tag = bytes[0];
    let rest = bytes.skip(1);
    if tag == 0 || tag == 1 {
        let (len, c) = spec_decode_compact(rest)->Some_0;
        lemma_compact_decode_sound(rest, len, c);
        let payload = rest.subrange(c, c + len as int);
        if tag == 0 {
            decode_utf8_encode_utf8(payload);
        }
        assert(spec_encode_value(v) =~= bytes.subrange(0, n));
    }
}

/// Round trip of the value codec: the canonical encoding of any encodable
/// value, at the head of any buffer, decodes back to exactly that value,
/// consuming exactly the encoding.
pub proof fn lemma_value_round_trip(v: ValueView, rest: Seq<u8>)
    requires
        value_encodable(v),
    ensures
        spec_decode_value(spec_encode_value(v) + rest) == Some(
            (v, spec_encode_value(v).len() as int),
        ),
{
    let enc = spec_encode_value(v);
    let bytes = enc + rest;
    match v {
        ValueView::String(s) => {
            let payload = encode_utf8(s);
            let n = payload.len();
            assert(bytes.skip(1) =~= spec_compact_len(n) + (payload + rest));
            lemma_compact_round_trip(n, payload + rest);
            let c = spec_compact_len(n).len() as int;
            assert(bytes.skip(1).subrange(c, c + n as int) =~= payload);
            encode_utf8_valid_utf8(s);
            encode_utf8_decode_utf8(s);
            assert(enc.len() == 1 + c + n);
        },
        ValueView::Bytes(b) => {
            let n = b.len();
            assert(bytes.skip(1) =~= spec_compact_len(n) + (b + rest));
            lemma_compact_round_trip(n, b + rest);
            let c = spec_compact_len(n).len() as int;
            assert(bytes.skip(1).subrange(c, c + n as int) =~= b);
            assert(enc.len() == 1 + c + n);
        },
        ValueView::Undefined => {
            assert(bytes[0] == 2u8);
        },
    }
}

/// Round trip of the string codec: the canonical encoding of a string
/// whose bytes fit the length limit, at the head of any buffer, decodes
/// back to exactly that string.
pub proof fn lemma_str_round_trip(s: Seq<char>, rest: Seq<u8>)
    requires
        encode_utf8(s).len() <= u32::MAX,
    ensures
        spec_decode_str(spec_encode_str(s) + rest) == Some(
            (s, spec_encode_str(s).len() as int),
        ),
{
    let payload = encode_utf8(s);
    let n = payload.len();
    let bytes = spec_encode_str(s) + rest;
    assert(bytes =~= spec_compact_len(n) + (payload + rest));
    lemma_compact_round_trip(n, payload + rest);
    let c = spec_compact_len(n).len() as int;
    assert(bytes.subrange(c, c + n as int) =~= payload);
    encode_utf8_valid_utf8(s);
    encode_utf8_decode_utf8(s);
}

/// The codec round trip on a buffer holding exactly one encoded value.
pub proof fn lemma_codec_round_trip(v: ValueView)
    requires
        value_encodable(v),
    ensures
        spec_decode_value(spec_encode_value(v)) == Some(
            (v, spec_encode_value(v).len() as int),
        ),
{
    lemma_value_round_trip(v, Seq::empty());
    assert(spec_encode_value(v) + Seq::<u8>::empty() =~= spec_encode_value(v));
}

} // verus!
