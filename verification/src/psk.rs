//! Parsing of the shared-secret key file that guards the private
//! network.
//!
//! The file's meaningful content is its last line once surrounding
//! ASCII whitespace is trimmed: sixty-four hex digits naming the
//! 32-byte pre-shared key.  Reading the file is the caller's concern;
//! this module turns its bytes into the key, or says exactly why it
//! cannot, and any such failure is fatal at process start.

use vstd::prelude::*;

use crate::wire::copy_range;

verus! {

/// The pre-shared key's length in bytes.
pub const PSK_LEN: usize = 32;

/// The ASCII whitespace bytes trimmed from the key file.
pub open spec fn is_ascii_ws(b: u8) -> bool {
    b == 32 || b == 9 || b == 10 || b == 13 || b == 11 || b == 12
}

/// A hex digit, either case.
pub open spec fn is_hex_digit(b: u8) -> bool {
    (48 <= b && b <= 57) || (97 <= b && b <= 102) || (65 <= b && b <= 70)
}

/// The value of a hex digit.
pub open spec fn hex_val(b: u8) -> u8
    recommends
        is_hex_digit(b),
{
    if 48 <= b && b <= 57 {
        (b - 48) as u8
    } else if 97 <= b {
        (b - 87) as u8
    } else {
        (b - 55) as u8
    }
}

/// Whether a byte string is well-formed hex: even length, digits only.
pub open spec fn valid_hex(s: Seq<u8>) -> bool {
    s.len() % 2 == 0 && forall|i: int| 0 <= i < s.len() ==> is_hex_digit(#[trigger] s[i])
}

/// The bytes sixty-four-or-however-many hex digits name, two digits a
/// byte, high digit first; meaningful on well-formed hex.
pub open spec fn spec_hex_decode(s: Seq<u8>) -> Seq<u8>
    recommends
        valid_hex(s),
{
    Seq::new((s.len() / 2) as nat, |i: int| (hex_val(s[2 * i]) * 16 + hex_val(s[2 * i + 1])) as u8)
}

/// `s` without its leading ASCII whitespace.
pub open spec fn trim_front(s: Seq<u8>) -> Seq<u8>
    decreases s.len(),
{
    if s.len() > 0 && is_ascii_ws(s[0]) {
        trim_front(s.drop_first())
    } else {
        s
    }
}

/// `s` without its trailing ASCII whitespace.
pub open spec fn trim_back(s: Seq<u8>) -> Seq<u8>
    decreases s.len(),
{
    if s.len() > 0 && is_ascii_ws(s.last()) {
        trim_back(s.drop_last())
    } else {
        s
    }
}

/// `s` without leading and trailing ASCII whitespace.
pub open spec fn spec_trim(s: Seq<u8>) -> Seq<u8> {
    trim_back(trim_front(s))
}

/// What follows the last newline of `s` (all of `s` when it has none).
pub open spec fn last_line(s: Seq<u8>) -> Seq<u8>
    decreases s.len(),
{
    if s.len() == 0 {
        s
    } else if s.last() == 10u8 {
        Seq::empty()
    } else {
        last_line(s.drop_last()).push(s.last())
    }
}

/// Why a key file was refused: nothing but whitespace in it, content
/// that is not hex, or a key of the wrong size.
#[derive(Debug, Clone, Copy, PartialEq, Eq, Structural)]
pub enum PskError {
    Empty,
    InvalidHex,
    WrongLength { got: usize },
}

/// What parsing a key file yields: the decoded last line, or the
/// first failure in trimming, hex-decoding, or the length check.
pub open spec fn spec_parse_psk(s: Seq<u8>) -> Result<Seq<u8>, PskError> {
    let t = spec_trim(s);
    if t.len() == 0 {
        Err(PskError::Empty)
    } else {
        let line = last_line(t);
        if !valid_hex(line) {
            Err(PskError::InvalidHex)
        } else if spec_hex_decode(line).len() != PSK_LEN {
            Err(PskError::WrongLength { got: (line.len() / 2) as usize })
        } else {
            Ok(spec_hex_decode(line))
        }
    }
}

proof fn lemma_trim_front_subrange(s: Seq<u8>, lo: int)
    requires
        0 <= lo <= s.len(),
        forall|k: int| 0 <= k < lo ==> is_ascii_ws(#[trigger] s[k]),
        lo == s.len() || !is_ascii_ws(s[lo]),
    ensures
        trim_front(s) == s.subrange(lo, s.len() as int),
    decreases lo,
{
    if lo == 0 {
        assert(s.subrange(0, s.len() as int) =~= s);
    } else {
        assert(is_ascii_ws(s[0]));
        let s1 = s.drop_first();
        assert(forall|k: int| 0 <= k < lo - 1 ==> is_ascii_ws(#[trigger] s1[k]));
        lemma_trim_front_subrange(s1, lo - 1);
        assert(s1.subrange(lo - 1, s1.len() as int) =~= s.subrange(lo, s.len() as int));
    }
}

proof fn lemma_trim_back_subrange(s: Seq<u8>, hi: int)
    requires
        0 <= hi <= s.len(),
        forall|k: int| hi <= k < s.len() ==> is_ascii_ws(#[trigger] s[k]),
        hi == 0 || !is_ascii_ws(s[hi - 1]),
    ensures
        trim_back(s) == s.subrange(0, hi),
    decreases s.len() - hi,
{
    if hi == s.len() {
        assert(s.subrange(0, s.len() as int) =~= s);
    } else {
        assert(is_ascii_ws(s.last()));
        let s1 = s.drop_last();
        lemma_trim_back_subrange(s1, hi);
        assert(s1.subrange(0, hi) =~= s.subrange(0, hi));
    }
}

proof fn lemma_last_line_after_nl(s: Seq<u8>, k: int)
    requires
        0 <= k < s.len(),
        s[k] == 10u8,
        forall|j: int| k < j < s.len() ==> s[j] != 10u8,
    ensures
        last_line(s) == s.subrange(k + 1, s.len() as int),
    decreases s.len() - k,
{
    if k == s.len() - 1 {
        assert(s.last() == 10u8);
        assert(s.subrange(k + 1, s.len() as int) =~= Seq::<u8>::empty());
    } else {
        assert(s.last() != 10u8);
        let s1 = s.drop_last();
        lemma_last_line_after_nl(s1, k);
        assert(s1.subrange(k + 1, s1.len() as int).push(s.last()) =~= s.subrange(
            k + 1,
            s.len() as int,
        ));
    }
}

proof fn lemma_last_line_no_nl(s: Seq<u8>)
    requires
        forall|j: int| 0 <= j < s.len() ==> s[j] != 10u8,
    ensures
        last_line(s) == s,
    decreases s.len(),
{
    if s.len() > 0 {
        assert(s.last() != 10u8);
        lemma_last_line_no_nl(s.drop_last());
        assert(s.drop_last().push(s.last()) =~= s);
    }
}

/// Whether `b` is ASCII whitespace.
fn ws(b: u8) -> (r: bool)
    ensures
        r == is_ascii_ws(b),
{
    b == 32 || b == 9 || b == 10 || b == 13 || b == 11 || b == 12
}

/// Whether `b` is a hex digit.
fn hex_digit(b: u8) -> (r: bool)
    ensures
        r == is_hex_digit(b),
{
    (48 <= b && b <= 57) || (97 <= b && b <= 102) || (65 <= b && b <= 70)
}

/// The value of the hex digit `b`.
fn hex_digit_val(b: u8) -> (r: u8)
    requires
        is_hex_digit(b),
    ensures
        r == hex_val(b),
{
    if 48 <= b && b <= 57 {
        b - 48
    } else if 97 <= b {
        b - 87
    } else {
        b - 55
    }
}

/// `s` without surrounding ASCII whitespace.
pub fn trim(s: &Vec<u8>) -> (r: Vec<u8>)
    ensures
        r@ == spec_trim(s@),
{
    let n = s.len();
    let mut lo: usize = 0;
    while lo < n && ws(s[lo])
        invariant
            lo <= n,
            n == s@.len(),
            forall|k: int| 0 <= k < lo ==> is_ascii_ws(#[trigger] s@[k]),
        decreases n - lo,
    {
        lo = lo + 1;
    }
    proof {
        lemma_trim_front_subrange(s@, lo as int);
    }
    if lo == n {
        proof {
            lemma_trim_back_subrange(s@.subrange(lo as int, n as int), 0);
            assert(s@.subrange(lo as int, n as int) =~= Seq::<u8>::empty());
            assert(Seq::<u8>::empty().subrange(0, 0) =~= Seq::<u8>::empty());
        }
        return Vec::new();
    }
    let mut hi: usize = n;
    while hi > lo && ws(s[hi - 1])
        invariant
            lo <= hi <= n,
            n == s@.len(),
            forall|k: int| hi <= k < n ==> is_ascii_ws(#[trigger] s@[k]),
        decreases hi,
    {
        hi = hi - 1;
    }
    assert(hi > lo);
    let r = copy_range(s, lo, hi);
    proof {
        let t = s@.subrange(lo as int, n as int);
        assert(forall|k: int| hi - lo <= k < t.len() ==> is_ascii_ws(#[trigger] t[k]));
        assert(t[hi - lo - 1] == s@[hi as int - 1]);
        lemma_trim_back_subrange(t, hi - lo);
        assert(t.subrange(0, hi - lo) =~= s@.subrange(lo as int, hi as int));
    }
    r
}

/// What follows the last newline of `s`.
pub fn tail_line(s: &Vec<u8>) -> (r: Vec<u8>)
    ensures
        r@ == last_line(s@),
{
    let n = s.len();
    let mut j: usize = n;
    while j > 0 && s[j - 1] != 10u8
        invariant
            j <= n,
            n == s@.len(),
            forall|k: int| j <= k < n ==> s@[k] != 10u8,
        decreases j,
    {
        j = j - 1;
    }
    let r = copy_range(s, j, n);
    proof {
        if j == 0 {
            lemma_last_line_no_nl(s@);
            assert(s@.subrange(0, n as int) =~= s@);
        } else {
            lemma_last_line_after_nl(s@, j as int - 1);
        }
    }
    r
}

/// Decodes hex digits to bytes; `None` exactly on input that is not
/// well-formed hex.
pub fn hex_decode(s: &Vec<u8>) -> (r: Option<Vec<u8>>)
    ensures
        r is Some <==> valid_hex(s@),
        r matches Some(v) ==> v@ == spec_hex_decode(s@),
{
    let n = s.len();
    if n % 2 != 0 {
        return None;
    }
    let mut out: Vec<u8> = Vec::new();
    let mut i: usize = 0;
    while i < n
        invariant
            i <= n,
            i % 2 == 0,
            n % 2 == 0,
            n == s@.len(),
            out@.len() == i / 2,
            forall|k: int| 0 <= k < i ==> is_hex_digit(#[trigger] s@[k]),
            forall|k: int|
                0 <= k < i / 2 ==> #[trigger] out@[k] == (hex_val(s@[2 * k]) * 16 + hex_val(
                    s@[2 * k + 1],
                )) as u8,
        decreases n - i,
    {
        let hi = s[i];
        let lo = s[i + 1];
        if !hex_digit(hi) || !hex_digit(lo) {
            return None;
        }
        let b = hex_digit_val(hi) * 16 + hex_digit_val(lo);
        out.push(b);
        i = i + 2;
    }
    assert(out@ =~= spec_hex_decode(s@));
    Some(out)
}

/// Parses a key file's bytes into the 32-byte pre-shared key, or the
/// exact reason the file is unusable.
pub fn parse_psk(content: &Vec<u8>) -> (r: Result<Vec<u8>, PskError>)
    ensures
        match r {
            Ok(key) => spec_parse_psk(content@) == Ok::<Seq<u8>, PskError>(key@) && key@.len()
                == PSK_LEN,
            Err(e) => spec_parse_psk(content@) == Err::<Seq<u8>, PskError>(e),
        },
{
    let t = trim(content);
    if t.len() == 0 {
        return Err(PskError::Empty);
    }
    let line = tail_line(&t);
    match hex_decode(&line) {
        None => Err(PskError::InvalidHex),
        Some(key) => {
            if key.len() != PSK_LEN {
                Err(PskError::WrongLength { got: key.len() })
            } else {
                Ok(key)
            }
        },
    }
}

} // verus!
