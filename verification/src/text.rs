//! Character-level helpers: whitespace trimming, searching, comparing
//! string slices, and rendering bytes as lowercase hex / UUID text.

use vstd::prelude::*;
use vstd::string::{StrSliceExecFns, StringExecFns, StringSliceAdditionalSpecFns};
use vstd::utf8::encode_utf8_decode_utf8;

verus! {

/// True for the characters with the Unicode `White_Space` property, the set
/// that `char::is_whitespace` and `str::trim` use.
pub open spec fn is_unicode_whitespace(c: char) -> bool {
    let u = c as u32;
    ||| 0x09 <= u <= 0x0D
    ||| u == 0x20
    ||| u == 0x85
    ||| u == 0xA0
    ||| u == 0x1680
    ||| 0x2000 <= u <= 0x200A
    ||| u == 0x2028
    ||| u == 0x2029
    ||| u == 0x202F
    ||| u == 0x205F
    ||| u == 0x3000
}

/// `s` without its leading whitespace.
pub open spec fn trim_start(s: Seq<char>) -> Seq<char>
    decreases s.len(),
{
    if s.len() > 0 && is_unicode_whitespace(s[0]) {
        trim_start(s.drop_first())
    } else {
        s
    }
}

/// `s` without its trailing whitespace.
pub open spec fn trim_end(s: Seq<char>) -> Seq<char>
    decreases s.len(),
{
    if s.len() > 0 && is_unicode_whitespace(s.last()) {
        trim_end(s.drop_last())
    } else {
        s
    }
}

/// `s` without leading and trailing whitespace.
pub open spec fn trim(s: Seq<char>) -> Seq<char> {
    trim_end(trim_start(s))
}

/// The first index at or after `from` where `s` holds `c`.
pub open spec fn find_char(s: Seq<char>, c: char, from: int) -> Option<int>
    decreases s.len() - from,
{
    if from < 0 || from >= s.len() {
        None
    } else if s[from] == c {
        Some(from)
    } else {
        find_char(s, c, from + 1)
    }
}

/// The lowercase hexadecimal digit for `n` (`0 <= n < 16`).
pub open spec fn hex_digit(n: int) -> char {
    seq!['0', '1', '2', '3', '4', '5', '6', '7', '8', '9', 'a', 'b', 'c', 'd', 'e', 'f'][n]
}

/// A byte as two lowercase hex digits (`{:02x}`).
pub open spec fn hex_byte(b: u8) -> Seq<char> {
    seq![hex_digit(b as int / 16), hex_digit(b as int % 16)]
}

/// Bytes as lowercase hex, two digits per byte.
pub open spec fn hex_string(s: Seq<u8>) -> Seq<char>
    decreases s.len(),
{
    if s.len() == 0 {
        seq![]
    } else {
        hex_string(s.drop_last()) + hex_byte(s.last())
    }
}

/// Sixteen bytes as a lowercase UUID: groups of 4, 2, 2, 2 and 6 bytes in hex,
/// separated by dashes.
pub open spec fn uuid_string(b: Seq<u8>) -> Seq<char> {
    hex_string(b.subrange(0, 4)) + seq!['-'] + hex_string(b.subrange(4, 6)) + seq!['-']
        + hex_string(b.subrange(6, 8)) + seq!['-'] + hex_string(b.subrange(8, 10)) + seq!['-']
        + hex_string(b.subrange(10, 16))
}

/// True if `c` has the Unicode `White_Space` property.
pub(crate) fn is_whitespace(c: char) -> (r: bool)
    ensures
        r == is_unicode_whitespace(c),
{
    let u = c as u32;
    (0x09 <= u && u <= 0x0D) || u == 0x20 || u == 0x85 || u == 0xA0 || u == 0x1680 || (0x2000
        <= u && u <= 0x200A) || u == 0x2028 || u == 0x2029 || u == 0x202F || u == 0x205F || u
        == 0x3000
}

/// The characters of a string slice.
pub(crate) fn collect_chars(s: &str) -> (r: Vec<char>)
    ensures
        r@ == s@,
{
    let mut out: Vec<char> = Vec::new();
    for c in it: s.chars()
        invariant
            out@ == it.seq().take(it.index() as int),
    {
        out.push(c);
    }
    out
}

/// The bounds `(lo, hi)` of `s` with leading and trailing whitespace removed.
pub(crate) fn trim_bounds(s: &Vec<char>) -> (r: (usize, usize))
    ensures
        r.0 <= r.1 <= s@.len(),
        s@.subrange(r.0 as int, r.1 as int) == trim(s@),
{
    let n = s.len();
    let mut lo: usize = 0;
    assert(s@.subrange(0, n as int) =~= s@);
    while lo < n && is_whitespace(s[lo])
        invariant
            n == s@.len(),
            lo <= n,
            trim_start(s@) == trim_start(s@.subrange(lo as int, n as int)),
        decreases n - lo,
    {
        assert(s@.subrange(lo as int, n as int).drop_first() =~= s@.subrange(lo + 1, n as int));
        lo = lo + 1;
    }
    let ghost t = s@.subrange(lo as int, n as int);
    assert(trim_start(t) == t);
    let mut hi: usize = n;
    while hi > lo && is_whitespace(s[hi - 1])
        invariant
            n == s@.len(),
            lo <= hi <= n,
            t == s@.subrange(lo as int, n as int),
            trim_end(t) == trim_end(s@.subrange(lo as int, hi as int)),
        decreases hi,
    {
        assert(s@.subrange(lo as int, hi as int).drop_last() =~= s@.subrange(lo as int, hi - 1));
        hi = hi - 1;
    }
    (lo, hi)
}

/// The first index in `lo + from .. hi` where `s` holds `c`, as an offset
/// from `lo`.
pub(crate) fn find_in(s: &Vec<char>, c: char, lo: usize, hi: usize, from: usize) -> (r: Option<usize>)
    requires
        lo <= hi <= s@.len(),
        from <= hi - lo,
    ensures
        match r {
            Some(i) => find_char(s@.subrange(lo as int, hi as int), c, from as int) == Some(
                i as int,
            ),
            None => find_char(s@.subrange(lo as int, hi as int), c, from as int) is None,
        },
{
    let ghost t = s@.subrange(lo as int, hi as int);
    let mut p: usize = from;
    while p < hi - lo
        invariant
            lo <= hi <= s@.len(),
            from <= p <= hi - lo,
            t == s@.subrange(lo as int, hi as int),
            find_char(t, c, from as int) == find_char(t, c, p as int),
        decreases hi - lo - p,
    {
        if s[lo + p] == c {
            return Some(p);
        }
        p = p + 1;
    }
    None
}

/// True if two string slices hold the same characters.
pub(crate) fn str_eq(a: &str, b: &str) -> (r: bool)
    ensures
        r == (a@ == b@),
{
    let x = a.as_bytes();
    let y = b.as_bytes();
    proof {
        encode_utf8_decode_utf8(a@);
        encode_utf8_decode_utf8(b@);
    }
    if x.len() != y.len() {
        return false;
    }
    let mut i: usize = 0;
    while i < x.len()
        invariant
            x@ == a.spec_bytes(),
            y@ == b.spec_bytes(),
            x@.len() == y@.len(),
            i <= x@.len(),
            forall|j: int| 0 <= j < i ==> x@[j] == y@[j],
        decreases x@.len() - i,
    {
        if x[i] != y[i] {
            return false;
        }
        i = i + 1;
    }
    assert(x@ =~= y@);
    true
}

/// A one-character string holding the lowercase hex digit for `d`.
pub(crate) fn hex_digit_str(d: u8) -> (r: &'static str)
    requires
        d < 16,
    ensures
        r@ == seq![hex_digit(d as int)],
{
    let digits = "0123456789abcdef";
    proof {
        reveal_strlit("0123456789abcdef");
        assert(digits@ =~= seq!['0', '1', '2', '3', '4', '5', '6', '7', '8', '9', 'a', 'b', 'c', 'd', 'e', 'f']);
    }
    let r = digits.substring_ascii(d as usize, d as usize + 1);
    assert(r@ =~= seq![hex_digit(d as int)]);
    r
}

/// Appends `bytes[from..to]` in lowercase hex.
fn push_hex(out: &mut String, bytes: &[u8; 16], from: usize, to: usize)
    requires
        from <= to <= 16,
    ensures
        final(out)@ == old(out)@ + hex_string(bytes@.subrange(from as int, to as int)),
{
    let mut i: usize = from;
    assert(hex_string(bytes@.subrange(from as int, from as int)) =~= seq![]);
    while i < to
        invariant
            from <= i <= to <= 16,
            out@ == old(out)@ + hex_string(bytes@.subrange(from as int, i as int)),
        decreases to - i,
    {
        let b = bytes[i];
        out.append(hex_digit_str(b / 16));
        out.append(hex_digit_str(b % 16));
        assert(bytes@.subrange(from as int, i + 1).drop_last() =~= bytes@.subrange(from as int, i as int));
        assert(out@ =~= old(out)@ + hex_string(bytes@.subrange(from as int, i + 1)));
        i = i + 1;
    }
}

/// Renders 16 bytes as a lowercase UUID string.
pub(crate) fn uuid_to_string(b: &[u8; 16]) -> (r: String)
    ensures
        r@ == uuid_string(b@),
{
    let mut out = String::new();
    push_hex(&mut out, b, 0, 4);
    out.append("-");
    push_hex(&mut out, b, 4, 6);
    out.append("-");
    push_hex(&mut out, b, 6, 8);
    out.append("-");
    push_hex(&mut out, b, 8, 10);
    out.append("-");
    push_hex(&mut out, b, 10, 16);
    proof {
        reveal_strlit("-");
    }
    assert(out@ =~= uuid_string(b@));
    out
}

} // verus!
