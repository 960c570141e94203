//! Byte-level building blocks of the wire format: big-endian 32-bit
//! length fields, length-prefixed UTF-8 strings, optional strings and
//! booleans, each with a spec-level encoder and decoder and proofs that
//! the two invert each other.

use vstd::prelude::*;
use vstd::string::StrSliceExecFns;
use vstd::utf8::decode_utf8;
use vstd::utf8::encode_utf8;
use vstd::utf8::encode_utf8_decode_utf8;
use vstd::utf8::encode_utf8_valid_utf8;
use vstd::utf8::valid_utf8;

verus! {

/// Largest payload a frame may declare or carry, in bytes.  The length
/// prefix could name anything below `u32::MAX`; bounding it lets a
/// reader reject absurd frames before allocating for them.
pub const MAX_PAYLOAD_LEN: usize = 16777216;

/// The four big-endian bytes of `x`.
pub open spec fn spec_be32(x: u32) -> Seq<u8> {
    seq![
        ((x >> 24) & 0xff) as u8,
        ((x >> 16) & 0xff) as u8,
        ((x >> 8) & 0xff) as u8,
        (x & 0xff) as u8,
    ]
}

/// The value of four big-endian bytes.
pub open spec fn spec_be32_val(s: Seq<u8>) -> u32
    recommends
        s.len() == 4,
{
    (((s[0] as u32) << 24) | ((s[1] as u32) << 16) | ((s[2] as u32) << 8) | (s[3] as u32)) as u32
}

pub proof fn lemma_be32_round_trip(x: u32)
    ensures
        spec_be32(x).len() == 4,
        spec_be32_val(spec_be32(x)) == x,
{
    let a = ((x >> 24) & 0xff) as u8;
    let b = ((x >> 16) & 0xff) as u8;
    let c = ((x >> 8) & 0xff) as u8;
    let d = (x & 0xff) as u8;
    assert((((a as u32) << 24) | ((b as u32) << 16) | ((c as u32) << 8) | (d as u32)) as u32 == x)
        by (bit_vector)
        requires
            a == ((x >> 24) & 0xff) as u8,
            b == ((x >> 16) & 0xff) as u8,
            c == ((x >> 8) & 0xff) as u8,
            d == (x & 0xff) as u8,
    ;
}

/// A string on the wire: the byte length of its UTF-8 form, big-endian,
/// then those bytes.
pub open spec fn spec_enc_str(s: Seq<char>) -> Seq<u8> {
    spec_be32(encode_utf8(s).len() as u32) + encode_utf8(s)
}

/// Whether a string is small enough to be framed faithfully.
pub open spec fn str_fits(s: Seq<char>) -> bool {
    encode_utf8(s).len() <= MAX_PAYLOAD_LEN
}

/// The view of an optional string.
pub open spec fn opt_str_view(m: Option<String>) -> Option<Seq<char>> {
    match m {
        None => None,
        Some(s) => Some(s@),
    }
}

/// An optional string on the wire: one presence byte, then the string.
pub open spec fn spec_enc_opt_str(m: Option<Seq<char>>) -> Seq<u8> {
    match m {
        None => seq![0u8],
        Some(s) => seq![1u8] + spec_enc_str(s),
    }
}

/// A boolean on the wire: one byte, zero or one.
pub open spec fn spec_enc_bool(b: bool) -> Seq<u8> {
    if b {
        seq![1u8]
    } else {
        seq![0u8]
    }
}

/// Reads the string starting at offset `i` of `p`; `None` on any
/// malformed content (short field, bytes that are not UTF-8).
pub open spec fn spec_dec_str(p: Seq<u8>, i: int) -> Option<(Seq<char>, int)> {
    if !(0 <= i && i + 4 <= p.len()) {
        None
    } else {
        let n = spec_be32_val(p.subrange(i, i + 4)) as int;
        if i + 4 + n > p.len() {
            None
        } else {
            let b = p.subrange(i + 4, i + 4 + n);
            if valid_utf8(b) {
                Some((decode_utf8(b), i + 4 + n))
            } else {
                None
            }
        }
    }
}

/// Reads the optional string starting at offset `i` of `p`.
pub open spec fn spec_dec_opt_str(p: Seq<u8>, i: int) -> Option<(Option<Seq<char>>, int)> {
    if !(0 <= i && i + 1 <= p.len()) {
        None
    } else if p[i] == 0u8 {
        Some((None, i + 1))
    } else if p[i] == 1u8 {
        match spec_dec_str(p, i + 1) {
            None => None,
            Some((s, j)) => Some((Some(s), j)),
        }
    } else {
        None
    }
}

/// Reads the boolean at offset `i` of `p`.
pub open spec fn spec_dec_bool(p: Seq<u8>, i: int) -> Option<(bool, int)> {
    if !(0 <= i && i + 1 <= p.len()) {
        None
    } else if p[i] == 0u8 {
        Some((false, i + 1))
    } else if p[i] == 1u8 {
        Some((true, i + 1))
    } else {
        None
    }
}

/// Decoding a string field undoes encoding it, wherever the field
/// stands in the payload.
pub proof fn lemma_dec_str_of_enc(pre: Seq<u8>, s: Seq<char>, suf: Seq<u8>)
    requires
        str_fits(s),
    ensures
        spec_dec_str(pre + spec_enc_str(s) + suf, pre.len() as int) == Some(
            (s, (pre.len() + spec_enc_str(s).len()) as int),
        ),
{
    let e = encode_utf8(s);
    let n = e.len() as int;
    let p = pre + spec_enc_str(s) + suf;
    let i = pre.len() as int;
    lemma_be32_round_trip(n as u32);
    assert(p.subrange(i, i + 4) =~= spec_be32(n as u32));
    assert(spec_be32_val(p.subrange(i, i + 4)) as int == n);
    assert(p.subrange(i + 4, i + 4 + n) =~= e);
    encode_utf8_valid_utf8(s);
    encode_utf8_decode_utf8(s);
}

/// Decoding an optional string undoes encoding it.
pub proof fn lemma_dec_opt_str_of_enc(pre: Seq<u8>, m: Option<Seq<char>>, suf: Seq<u8>)
    requires
        m matches Some(s) ==> str_fits(s),
    ensures
        spec_dec_opt_str(pre + spec_enc_opt_str(m) + suf, pre.len() as int) == Some(
            (m, (pre.len() + spec_enc_opt_str(m).len()) as int),
        ),
{
    let p = pre + spec_enc_opt_str(m) + suf;
    let i = pre.len() as int;
    match m {
        None => {
            assert(p[i] == 0u8);
        },
        Some(s) => {
            assert(p[i] == 1u8);
            let pre1 = pre + seq![1u8];
            assert(pre1 + spec_enc_str(s) + suf =~= p);
            lemma_dec_str_of_enc(pre1, s, suf);
        },
    }
}

/// Decoding a boolean undoes encoding it.
pub proof fn lemma_dec_bool_of_enc(pre: Seq<u8>, b: bool, suf: Seq<u8>)
    ensures
        spec_dec_bool(pre + spec_enc_bool(b) + suf, pre.len() as int) == Some(
            (b, (pre.len() + 1) as int),
        ),
{
    let p = pre + spec_enc_bool(b) + suf;
    let i = pre.len() as int;
    assert(p[i] == spec_enc_bool(b)[0]);
}

/// Relies on `String::from_utf8`: `Some` holds the string whose UTF-8
/// bytes are exactly `bytes`; `None` comes back if and only if the
/// bytes are not valid UTF-8.
#[verifier::external_body]
fn string_from_utf8(bytes: Vec<u8>) -> (r: Option<String>)
    ensures
        r is Some <==> valid_utf8(bytes@),
        r matches Some(s) ==> encode_utf8(s@) == bytes@,
{
    String::from_utf8(bytes).ok()
}

/// Appends the four big-endian bytes of `x`.
pub fn write_be32(out: &mut Vec<u8>, x: u32)
    ensures
        final(out)@ == old(out)@ + spec_be32(x),
{
    out.push(((x >> 24) & 0xff) as u8);
    out.push(((x >> 16) & 0xff) as u8);
    out.push(((x >> 8) & 0xff) as u8);
    out.push((x & 0xff) as u8);
    assert(out@ =~= old(out)@ + spec_be32(x));
}

/// Reads the four big-endian bytes at offset `i`.
pub fn read_be32(p: &Vec<u8>, i: usize) -> (r: u32)
    requires
        i + 4 <= p@.len(),
    ensures
        r == spec_be32_val(p@.subrange(i as int, i as int + 4)),
{
    let _len = p.len();
    let r = (((p[i] as u32) << 24) | ((p[i + 1] as u32) << 16) | ((p[i + 2] as u32) << 8) | (p[i
        + 3] as u32)) as u32;
    assert(p@.subrange(i as int, i as int + 4)[0] == p@[i as int]);
    assert(p@.subrange(i as int, i as int + 4)[1] == p@[i as int + 1]);
    assert(p@.subrange(i as int, i as int + 4)[2] == p@[i as int + 2]);
    assert(p@.subrange(i as int, i as int + 4)[3] == p@[i as int + 3]);
    r
}

/// The bytes of `p` from `from` (inclusive) to `to` (exclusive).
pub fn copy_range(p: &Vec<u8>, from: usize, to: usize) -> (r: Vec<u8>)
    requires
        from <= to <= p@.len(),
    ensures
        r@ == p@.subrange(from as int, to as int),
{
    let mut r: Vec<u8> = Vec::new();
    let mut k: usize = from;
    while k < to
        invariant
            from <= k <= to <= p@.len(),
            r@ == p@.subrange(from as int, k as int),
        decreases to - k,
    {
        r.push(p[k]);
        assert(r@ =~= p@.subrange(from as int, k as int + 1));
        k = k + 1;
    }
    r
}

/// Appends the wire form of `s`.
pub fn write_str(out: &mut Vec<u8>, s: &str)
    requires
        str_fits(s@),
    ensures
        final(out)@ == old(out)@ + spec_enc_str(s@),
{
    let mut b = s.as_bytes_vec();
    let n = b.len();
    write_be32(out, n as u32);
    out.append(&mut b);
    assert(out@ =~= old(out)@ + spec_enc_str(s@));
}

/// Appends the wire form of an optional string.
pub fn write_opt_str(out: &mut Vec<u8>, m: &Option<String>)
    requires
        m matches Some(s) ==> str_fits(s@),
    ensures
        final(out)@ == old(out)@ + spec_enc_opt_str(opt_str_view(*m)),
{
    match m {
        None => {
            out.push(0u8);
            assert(out@ =~= old(out)@ + spec_enc_opt_str(None));
        },
        Some(s) => {
            out.push(1u8);
            write_str(out, s.as_str());
            assert(out@ =~= old(out)@ + spec_enc_opt_str(Some(s@)));
        },
    }
}

/// Appends the wire form of a boolean.
pub fn write_bool(out: &mut Vec<u8>, b: bool)
    ensures
        final(out)@ == old(out)@ + spec_enc_bool(b),
{
    if b {
        out.push(1u8);
    } else {
        out.push(0u8);
    }
    assert(out@ =~= old(out)@ + spec_enc_bool(b));
}

/// Reads the string at offset `i`, as the spec decoder does.
pub fn read_str(p: &Vec<u8>, i: usize) -> (r: Option<(String, usize)>)
    requires
        p@.len() <= MAX_PAYLOAD_LEN,
        i <= p@.len(),
    ensures
        match r {
            None => spec_dec_str(p@, i as int) is None,
            Some((s, j)) => {
                &&& spec_dec_str(p@, i as int) == Some((s@, j as int))
                &&& i < j <= p@.len()
            },
        },
{
    if i + 4 > p.len() {
        return None;
    }
    let n32 = read_be32(p, i);
    let n = n32 as usize;
    if n > p.len() - (i + 4) {
        return None;
    }
    let bytes = copy_range(p, i + 4, i + 4 + n);
    match string_from_utf8(bytes) {
        None => None,
        Some(s) => {
            proof {
                encode_utf8_decode_utf8(s@);
            }
            Some((s, i + 4 + n))
        },
    }
}

/// Reads the optional string at offset `i`, as the spec decoder does.
pub fn read_opt_str(p: &Vec<u8>, i: usize) -> (r: Option<(Option<String>, usize)>)
    requires
        p@.len() <= MAX_PAYLOAD_LEN,
        i <= p@.len(),
    ensures
        match r {
            None => spec_dec_opt_str(p@, i as int) is None,
            Some((m, j)) => {
                &&& spec_dec_opt_str(p@, i as int) == Some((opt_str_view(m), j as int))
                &&& i < j <= p@.len()
            },
        },
{
    if i + 1 > p.len() {
        return None;
    }
    let tag = p[i];
    if tag == 0u8 {
        Some((None, i + 1))
    } else if tag == 1u8 {
        match read_str(p, i + 1) {
            None => None,
            Some((s, j)) => Some((Some(s), j)),
        }
    } else {
        None
    }
}

/// Reads the boolean at offset `i`, as the spec decoder does.
pub fn read_bool(p: &Vec<u8>, i: usize) -> (r: Option<(bool, usize)>)
    requires
        i <= p@.len(),
        p@.len() <= MAX_PAYLOAD_LEN,
    ensures
        match r {
            None => spec_dec_bool(p@, i as int) is None,
            Some((b, j)) => {
                &&& spec_dec_bool(p@, i as int) == Some((b, j as int))
                &&& i < j <= p@.len()
            },
        },
{
    if i + 1 > p.len() {
        return None;
    }
    let tag = p[i];
    if tag == 0u8 {
        Some((false, i + 1))
    } else if tag == 1u8 {
        Some((true, i + 1))
    } else {
        None
    }
}

} // verus!
