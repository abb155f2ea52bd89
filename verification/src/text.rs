//! Character-level helpers: whitespace trimming and decimal page numbers.

use vstd::prelude::*;
use vstd::std_specs::iter::IteratorSpec;
use vstd::string::*;
use vstd::utf8::encode_utf8;

verus! {

/// Whether `c` carries the Unicode `White_Space` property.
pub open spec fn is_space(c: char) -> bool {
    let n = c as u32;
    ||| 0x09 <= n <= 0x0D
    ||| n == 0x20
    ||| n == 0x85
    ||| n == 0xA0
    ||| n == 0x1680
    ||| 0x2000 <= n <= 0x200A
    ||| n == 0x2028
    ||| n == 0x2029
    ||| n == 0x202F
    ||| n == 0x205F
    ||| n == 0x3000
}

/// `s` without its leading whitespace.
pub open spec fn trim_front(s: Seq<char>) -> Seq<char>
    decreases s.len(),
{
    if s.len() > 0 && is_space(s.first()) {
        trim_front(s.drop_first())
    } else {
        s
    }
}

/// `s` without its trailing whitespace.
pub open spec fn trim_back(s: Seq<char>) -> Seq<char>
    decreases s.len(),
{
    if s.len() > 0 && is_space(s.last()) {
        trim_back(s.drop_last())
    } else {
        s
    }
}

/// `s` without leading and trailing whitespace.
pub open spec fn trimmed(s: Seq<char>) -> Seq<char> {
    trim_back(trim_front(s))
}

/// Whether `s` holds nothing but whitespace.
pub open spec fn is_blank(s: Seq<char>) -> bool {
    forall|i: int| 0 <= i < s.len() ==> is_space(#[trigger] s[i])
}

/// Whether the character is whitespace.
pub fn char_is_space(c: char) -> (r: bool)
    ensures
        r == is_space(c),
{
    let n: u32 = c as u32;
    (0x09 <= n && n <= 0x0D) || n == 0x20 || n == 0x85 || n == 0xA0 || n == 0x1680 || (0x2000 <= n
        && n <= 0x200A) || n == 0x2028 || n == 0x2029 || n == 0x202F || n == 0x205F || n == 0x3000
}

/// Dropping `i` leading whitespace characters does not change what
/// `trim_front` yields.
proof fn lemma_trim_front_skip(s: Seq<char>, i: int)
    requires
        0 <= i <= s.len(),
        forall|k: int| 0 <= k < i ==> is_space(#[trigger] s[k]),
    ensures
        trim_front(s) == trim_front(s.subrange(i, s.len() as int)),
    decreases i,
{
    if i == 0 {
        assert(s.subrange(0, s.len() as int) =~= s);
    } else {
        let rest = s.drop_first();
        lemma_trim_front_skip(rest, i - 1);
        assert(rest.subrange(i - 1, rest.len() as int) =~= s.subrange(i, s.len() as int));
    }
}

/// Dropping trailing whitespace down to length `j` does not change what
/// `trim_back` yields.
proof fn lemma_trim_back_skip(s: Seq<char>, j: int)
    requires
        0 <= j <= s.len(),
        forall|k: int| j <= k < s.len() ==> is_space(#[trigger] s[k]),
    ensures
        trim_back(s) == trim_back(s.subrange(0, j)),
    decreases s.len() - j,
{
    if j == s.len() {
        assert(s.subrange(0, j) =~= s);
    } else {
        let rest = s.drop_last();
        lemma_trim_back_skip(rest, j);
        assert(rest.subrange(0, j) =~= s.subrange(0, j));
    }
}

/// The characters of a text, read in one pass.
pub fn characters(s: &str) -> (r: Vec<char>)
    ensures
        r@ == s@,
{
    let mut rest = s.chars();
    let mut read: Vec<char> = Vec::new();
    loop
        invariant
            rest.obeys_prophetic_iter_laws(),
            read@ + rest.remaining() == s@,
        decreases s@.len() - read@.len(),
    {
        match rest.next() {
            Some(c) => {
                read.push(c);
            },
            None => {
                return read;
            },
        }
    }
}

/// Removes leading and trailing whitespace.
pub fn trim(s: &str) -> (r: String)
    ensures
        r@ == trimmed(s@),
{
    let chars = characters(s);
    let n: usize = chars.len();
    let mut i: usize = 0;
    while i < n && char_is_space(chars[i])
        invariant
            i <= n,
            n == s@.len(),
            chars@ == s@,
            forall|k: int| 0 <= k < i ==> is_space(#[trigger] s@[k]),
        decreases n - i,
    {
        i += 1;
    }
    let mut j: usize = n;
    while j > i && char_is_space(chars[j - 1])
        invariant
            i <= j <= n,
            n == s@.len(),
            chars@ == s@,
            forall|k: int| j <= k < n ==> is_space(#[trigger] s@[k]),
        decreases j,
    {
        j -= 1;
    }
    let kept = s.substring_char(i, j);
    proof {
        lemma_trim_front_skip(s@, i as int);
        lemma_trim_back_skip(s@.subrange(i as int, n as int), j - i);
    }
    String::from_str(kept)
}

/// Whether the text holds nothing but whitespace. Reading stops at the
/// first character that is none.
pub fn blank(s: &str) -> (r: bool)
    ensures
        r == is_blank(s@),
{
    let mut rest = s.chars();
    let ghost mut seen: int = 0;
    loop
        invariant
            rest.obeys_prophetic_iter_laws(),
            0 <= seen <= s@.len(),
            rest.remaining() == s@.subrange(seen, s@.len() as int),
            forall|k: int| 0 <= k < seen ==> is_space(#[trigger] s@[k]),
        decreases s@.len() - seen,
    {
        match rest.next() {
            Some(c) => {
                if !char_is_space(c) {
                    return false;
                }
                proof {
                    seen = seen + 1;
                }
            },
            None => {
                return true;
            },
        }
    }
}

/// Whether `c` is one of the ASCII digits `0` to `9`.
pub open spec fn is_digit(c: char) -> bool {
    0x30 <= c as u32 <= 0x39
}

/// The number that the digit `c` stands for.
pub open spec fn digit_value(c: char) -> nat
    recommends
        is_digit(c),
{
    (c as u32 - 0x30) as nat
}

/// Whether `s` is made of ASCII digits only.
pub open spec fn all_digits(s: Seq<char>) -> bool {
    forall|i: int| 0 <= i < s.len() ==> is_digit(#[trigger] s[i])
}

/// The number that a run of decimal digits stands for, most significant
/// digit first.
pub open spec fn decimal_value(s: Seq<char>) -> nat
    decreases s.len(),
{
    if s.len() == 0 {
        0
    } else {
        10 * decimal_value(s.drop_last()) + digit_value(s.last())
    }
}

/// What a page number written as text means: a non-empty run of ASCII digits
/// whose value fits in 32 bits. Signs, spaces and anything else are rejected.
pub open spec fn parsed_number(s: Seq<char>) -> Option<u32> {
    if s.len() > 0 && all_digits(s) && decimal_value(s) <= u32::MAX {
        Some(decimal_value(s) as u32)
    } else {
        None
    }
}

/// The character that writes the digit `d`.
pub open spec fn digit_char(d: nat) -> char
    recommends
        d < 10,
{
    if d == 0 {
        '0'
    } else if d == 1 {
        '1'
    } else if d == 2 {
        '2'
    } else if d == 3 {
        '3'
    } else if d == 4 {
        '4'
    } else if d == 5 {
        '5'
    } else if d == 6 {
        '6'
    } else if d == 7 {
        '7'
    } else if d == 8 {
        '8'
    } else {
        '9'
    }
}

/// `n` written in decimal without leading zeros.
pub open spec fn decimal(n: nat) -> Seq<char>
    decreases n,
{
    if n < 10 {
        seq![digit_char(n)]
    } else {
        decimal(n / 10).push(digit_char(n % 10))
    }
}

/// Reading back a number written by `decimal` gives that number: the text is
/// non-empty, all digits, and has the value `n`.
pub proof fn lemma_decimal_round_trip(n: nat)
    ensures
        decimal(n).len() > 0,
        all_digits(decimal(n)),
        decimal_value(decimal(n)) == n,
        n <= u32::MAX ==> parsed_number(decimal(n)) == Some(n as u32),
    decreases n,
{
    if n < 10 {
        assert(decimal_value(decimal(n).drop_last()) == 0);
    } else {
        lemma_decimal_round_trip(n / 10);
        assert(decimal(n).drop_last() =~= decimal(n / 10));
    }
}

/// A longer run of digits never stands for a smaller number than its prefix.
proof fn lemma_decimal_value_grows(s: Seq<char>, k: int)
    requires
        0 <= k <= s.len(),
    ensures
        decimal_value(s.subrange(0, k)) <= decimal_value(s),
    decreases s.len() - k,
{
    if k == s.len() {
        assert(s.subrange(0, k) =~= s);
    } else {
        lemma_decimal_value_grows(s.drop_last(), k);
        assert(s.drop_last().subrange(0, k) =~= s.subrange(0, k));
    }
}

fn digit_text(d: u32) -> (r: &'static str)
    requires
        d < 10,
    ensures
        r@ == seq![digit_char(d as nat)],
{
    proof {
        reveal_strlit("0");
        reveal_strlit("1");
        reveal_strlit("2");
        reveal_strlit("3");
        reveal_strlit("4");
        reveal_strlit("5");
        reveal_strlit("6");
        reveal_strlit("7");
        reveal_strlit("8");
        reveal_strlit("9");
    }
    if d == 0 {
        "0"
    } else if d == 1 {
        "1"
    } else if d == 2 {
        "2"
    } else if d == 3 {
        "3"
    } else if d == 4 {
        "4"
    } else if d == 5 {
        "5"
    } else if d == 6 {
        "6"
    } else if d == 7 {
        "7"
    } else if d == 8 {
        "8"
    } else {
        "9"
    }
}

/// Writes `n` in decimal.
pub fn render_number(n: u32) -> (r: String)
    ensures
        r@ == decimal(n as nat),
    decreases n,
{
    if n < 10 {
        String::from_str(digit_text(n))
    } else {
        let mut r = render_number(n / 10);
        r.append(digit_text(n % 10));
        r
    }
}

/// Reads a page number written in decimal.
pub fn parse_number(s: &str) -> (r: Option<u32>)
    ensures
        r == parsed_number(s@),
{
    let chars = characters(s);
    let n: usize = chars.len();
    if n == 0 {
        return None;
    }
    let mut value: u32 = 0;
    let mut i: usize = 0;
    while i < n
        invariant
            i <= n,
            n == s@.len(),
            chars@ == s@,
            all_digits(s@.subrange(0, i as int)),
            value == decimal_value(s@.subrange(0, i as int)),
        decreases n - i,
    {
        let c = chars[i];
        let code: u32 = c as u32;
        assert(s@.subrange(0, i + 1).drop_last() =~= s@.subrange(0, i as int));
        if code < 0x30 || code > 0x39 {
            return None;
        }
        let d: u32 = code - 0x30;
        if value > (u32::MAX - d) / 10 {
            proof {
                lemma_decimal_value_grows(s@, i + 1);
            }
            return None;
        }
        value = value * 10 + d;
        i += 1;
    }
    assert(s@.subrange(0, n as int) =~= s@);
    Some(value)
}

/// What trimming leaves: a stretch of the text, with nothing but whitespace
/// in front of it and behind it, that neither begins nor ends with
/// whitespace. A blank text leaves the empty text.
pub proof fn lemma_trimmed_is_the_core(s: Seq<char>)
    ensures
        exists|from: int, to: int|
            {
                &&& 0 <= from <= to <= s.len()
                &&& #[trigger] s.subrange(from, to) == trimmed(s)
                &&& is_blank(s.subrange(0, from))
                &&& is_blank(s.subrange(to, s.len() as int))
            },
        trimmed(s).len() > 0 ==> !is_space(trimmed(s).first()) && !is_space(trimmed(s).last()),
        is_blank(s) <==> trimmed(s).len() == 0,
{
    let from = lemma_trim_front_is_a_tail(s);
    let front = trim_front(s);
    let kept = lemma_trim_back_is_a_head(front);
    let to = from + kept;
    assert(s.subrange(from, to) =~= front.subrange(0, kept));
    assert forall|i: int| 0 <= i < s.subrange(to, s.len() as int).len() implies is_space(
        #[trigger] s.subrange(to, s.len() as int)[i],
    ) by {
        assert(s.subrange(to, s.len() as int)[i] == front.subrange(kept, front.len() as int)[i]);
    }
    if trimmed(s).len() == 0 {
        assert forall|i: int| 0 <= i < s.len() implies is_space(#[trigger] s[i]) by {
            if i < from {
                assert(s[i] == s.subrange(0, from)[i]);
            }
        }
    }
}

/// `trim_front` drops a blank head: it leaves the tail from some position
/// on, and that tail does not begin with whitespace.
proof fn lemma_trim_front_is_a_tail(s: Seq<char>) -> (from: int)
    ensures
        0 <= from <= s.len(),
        trim_front(s) == s.subrange(from, s.len() as int),
        is_blank(s.subrange(0, from)),
        trim_front(s).len() > 0 ==> !is_space(trim_front(s).first()),
    decreases s.len(),
{
    if s.len() > 0 && is_space(s.first()) {
        let rest = s.drop_first();
        let inner = lemma_trim_front_is_a_tail(rest);
        let from = inner + 1;
        assert forall|i: int| 0 <= i < from implies is_space(#[trigger] s.subrange(0, from)[i]) by {
            if i > 0 {
                assert(s.subrange(0, from)[i] == rest.subrange(0, inner)[i - 1]);
            }
        }
        from
    } else {
        0
    }
}

/// `trim_back` drops a blank tail: it leaves the head of some length, and
/// that head does not end with whitespace.
proof fn lemma_trim_back_is_a_head(s: Seq<char>) -> (kept: int)
    ensures
        0 <= kept <= s.len(),
        trim_back(s) == s.subrange(0, kept),
        is_blank(s.subrange(kept, s.len() as int)),
        kept > 0 ==> !is_space(s[kept - 1]),
    decreases s.len(),
{
    if s.len() > 0 && is_space(s.last()) {
        let rest = s.drop_last();
        let kept = lemma_trim_back_is_a_head(rest);
        assert forall|i: int| 0 <= i < s.len() - kept implies is_space(
            #[trigger] s.subrange(kept, s.len() as int)[i],
        ) by {
            if i < rest.len() - kept {
                assert(s.subrange(kept, s.len() as int)[i] == rest.subrange(
                    kept,
                    rest.len() as int,
                )[i]);
            }
        }
        kept
    } else {
        s.len() as int
    }
}

/// The number of bytes that a text takes in memory, where it is held as
/// UTF-8.
pub open spec fn byte_length(s: Seq<char>) -> nat {
    encode_utf8(s).len()
}

/// The number of bytes of a text.
pub fn byte_len(s: &str) -> (r: usize)
    ensures
        r == byte_length(s@),
{
    s.as_bytes().len()
}

} // verus!
