//! Text shaping shared by the tools: lossy UTF-8 capping for previews,
//! message summarization, rule-name slugs and decimal rendering.

use vstd::prelude::*;
use vstd::string::StringSliceAdditionalSpecFns;

verus! {

/// What `String::from_utf8_lossy` decodes a byte sequence to.
pub uninterp spec fn utf8_lossy_of(bytes: Seq<u8>) -> Seq<char>;

/// What `str::to_lowercase` maps a character sequence to.
pub uninterp spec fn lower_of(s: Seq<char>) -> Seq<char>;

/// Whether `char::is_alphanumeric` holds of a character.
pub uninterp spec fn is_alnum(c: char) -> bool;

/// Relies on `String::from_utf8_lossy`: the decoding depends on the
/// bytes alone, with invalid sequences replaced; an empty input decodes
/// to an empty string.
#[verifier::external_body]
fn utf8_lossy(bytes: &Vec<u8>) -> (r: String)
    ensures
        r@ == utf8_lossy_of(bytes@),
        bytes@.len() == 0 ==> r@.len() == 0,
{
    String::from_utf8_lossy(bytes.as_slice()).into_owned()
}

/// Relies on `str::to_lowercase`: the result depends on the characters
/// alone, and an empty input stays empty.
#[verifier::external_body]
fn lowercase(s: &str) -> (r: String)
    ensures
        r@ == lower_of(s@),
        s@.len() == 0 ==> r@.len() == 0,
{
    s.to_lowercase()
}

/// Relies on `char::is_alphanumeric`: a property of the character alone.
#[verifier::external_body]
fn char_is_alphanumeric(c: char) -> (r: bool)
    ensures
        r == is_alnum(c),
{
    c.is_alphanumeric()
}

/// The byte length of a string, as `str::len` reports it.
pub open spec fn spec_byte_len(s: &str) -> usize {
    s.spec_bytes().len() as usize
}

/// The first `max_bytes` bytes of `bytes`, or all of them when fewer.
pub open spec fn spec_capped(bytes: Seq<u8>, max_bytes: int) -> Seq<u8> {
    if bytes.len() > max_bytes {
        bytes.take(max_bytes)
    } else {
        bytes
    }
}

/// Caps a byte buffer at `max_bytes` and decodes it as UTF-8 with lossy
/// replacement of invalid sequences.
pub fn cap_utf8(bytes: Vec<u8>, max_bytes: usize) -> (r: String)
    ensures
        r@ == utf8_lossy_of(spec_capped(bytes@, max_bytes as int)),
{
    let mut bytes = bytes;
    if bytes.len() > max_bytes {
        bytes.truncate(max_bytes);
    }
    utf8_lossy(&bytes)
}

/// A content summary: the content itself when it has at most `max`
/// characters, else the first `max` characters with an ellipsis marker.
pub open spec fn spec_summary(s: Seq<char>, max: int) -> Seq<char> {
    if s.len() <= max {
        s
    } else {
        s.subrange(0, max) + "\u{2026}"@
    }
}

/// Truncates posted content to at most `max` characters, on character
/// boundaries, appending an ellipsis when anything was cut.
pub fn summarize(content: &str, max: usize) -> (r: String)
    ensures
        r@ == spec_summary(content@, max as int),
{
    let n = content.unicode_len();
    if n <= max {
        content.to_owned()
    } else {
        let head = content.substring_char(0, max).to_owned();
        head.concat("\u{2026}")
    }
}

/// One step of slug formation over an already lower-cased sequence:
/// alphanumerics are kept, anything else becomes a dash, runs of dashes
/// collapse, and no dash is emitted at the front.
pub open spec fn slug_scan(s: Seq<char>, i: int, acc: Seq<char>) -> Seq<char>
    decreases s.len() - i,
{
    if i < 0 || i >= s.len() {
        acc
    } else if is_alnum(s[i]) {
        slug_scan(s, i + 1, acc.push(s[i]))
    } else if acc.len() > 0 && acc.last() != '-' {
        slug_scan(s, i + 1, acc.push('-'))
    } else {
        slug_scan(s, i + 1, acc)
    }
}

/// The slug of an already lower-cased sequence: scanned as above, with
/// a trailing dash trimmed.
pub open spec fn spec_slug(lowered: Seq<char>) -> Seq<char> {
    let t = slug_scan(lowered, 0, Seq::empty());
    if t.len() > 0 && t.last() == '-' {
        t.drop_last()
    } else {
        t
    }
}

/// Turns a rule name into a file-name slug: lower-cased, with every run
/// of non-alphanumeric characters reduced to a single dash and dashes
/// trimmed at both ends.
pub fn slugify(name: &str) -> (r: String)
    ensures
        r@ == spec_slug(lower_of(name@)),
{
    let lowered = lowercase(name);
    let low = lowered.as_str();
    let n = low.unicode_len();
    let mut out = String::new();
    let mut i: usize = 0;
    proof {
        reveal_strlit("-");
    }
    while i < n
        invariant
            n == low@.len(),
            low@ == lower_of(name@),
            0 <= i <= n,
            slug_scan(low@, i as int, out@) == slug_scan(low@, 0, Seq::empty()),
        decreases n - i,
    {
        let c = low.get_char(i);
        if char_is_alphanumeric(c) {
            let piece = low.substring_char(i, i + 1);
            proof {
                assert(piece@ =~= seq![low@[i as int]]);
                assert(out@ + piece@ =~= out@.push(low@[i as int]));
            }
            out.append(piece);
        } else {
            let olen = out.unicode_len();
            if olen > 0 && out.as_str().get_char(olen - 1) != '-' {
                proof {
                    reveal_strlit("-");
                    assert(out@ + "-"@ =~= out@.push('-'));
                }
                out.append("-");
            }
        }
        i = i + 1;
    }
    let olen = out.unicode_len();
    if olen > 0 && out.as_str().get_char(olen - 1) == '-' {
        let trimmed = out.as_str().substring_char(0, olen - 1).to_owned();
        proof {
            assert(trimmed@ =~= out@.drop_last());
        }
        trimmed
    } else {
        out
    }
}

/// The character for a single decimal digit.
pub open spec fn digit_char(d: int) -> char {
    if d == 0 {
        '0'
    } else if d == 1 {
        '1'
    } else if d == 2 {
        '2'
    } else if d == 3 {
        '3'
    } else if d == 4 {
        '4'
    } else if d == 5 {
        '5'
    } else if d == 6 {
        '6'
    } else if d == 7 {
        '7'
    } else if d == 8 {
        '8'
    } else {
        '9'
    }
}

/// The decimal rendering of a number, most significant digit first.
pub open spec fn spec_dec(n: nat) -> Seq<char>
    decreases n,
{
    if n < 10 {
        seq![digit_char(n as int)]
    } else {
        spec_dec(n / 10).push(digit_char((n % 10) as int))
    }
}

/// The string for a single decimal digit.
fn digit_str(d: usize) -> (r: &'static str)
    requires
        d < 10,
    ensures
        r@ == seq![digit_char(d as int)],
{
    proof {
        reveal_strlit("0");
        reveal_strlit("1");
        reveal_strlit("2");
        reveal_strlit("3");
        reveal_strlit("4");
        reveal_strlit("5");
        reveal_strlit("6");
        reveal_strlit("7");
        reveal_strlit("8");
        reveal_strlit("9");
    }
    let r = match d {
        0 => "0",
        1 => "1",
        2 => "2",
        3 => "3",
        4 => "4",
        5 => "5",
        6 => "6",
        7 => "7",
        8 => "8",
        _ => "9",
    };
    proof {
        assert(r@ =~= seq![digit_char(d as int)]);
    }
    r
}

/// Renders a number in decimal.
pub fn usize_to_string(n: usize) -> (r: String)
    ensures
        r@ == spec_dec(n as nat),
    decreases n,
{
    if n < 10 {
        digit_str(n).to_owned()
    } else {
        let mut s = usize_to_string(n / 10);
        s.append(digit_str(n % 10));
        proof {
            assert(spec_dec((n / 10) as nat).push(digit_char((n % 10) as int)) =~= spec_dec(
                (n / 10) as nat,
            ) + seq![digit_char((n % 10) as int)]);
        }
        s
    }
}

} // verus!
