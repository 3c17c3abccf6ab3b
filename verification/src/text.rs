//! Comparisons on text: equality, prefix and substring search, stated over the
//! characters of the strings.

use vstd::prelude::*;
use vstd::string::StringExecFns;

verus! {

/// `pattern` stands in `text` at character position `at`.
pub open spec fn occurs_at(text: Seq<char>, pattern: Seq<char>, at: int) -> bool {
    &&& 0 <= at
    &&& at + pattern.len() <= text.len()
    &&& text.subrange(at, at + pattern.len()) == pattern
}

/// `pattern` stands somewhere in `text`.
pub open spec fn occurs_in(text: Seq<char>, pattern: Seq<char>) -> bool {
    exists|at: int| occurs_at(text, pattern, at)
}

/// The characters of `s`, in order.
pub fn chars_of(s: &str) -> (v: Vec<char>)
    ensures
        v@ == s@,
{
    let n: usize = s.unicode_len();
    let mut v: Vec<char> = Vec::new();
    let mut i: usize = 0;
    while i < n
        invariant
            n == s@.len(),
            i <= n,
            v@ == s@.subrange(0, i as int),
        decreases n - i,
    {
        v.push(s.get_char(i));
        i += 1;
    }
    v
}

/// Whether `pattern` stands in `text` at position `at`.
fn matches_at(text: &Vec<char>, pattern: &Vec<char>, at: usize) -> (r: bool)
    requires
        at + pattern.len() <= text.len(),
    ensures
        r == occurs_at(text@, pattern@, at as int),
{
    let mut j: usize = 0;
    while j < pattern.len()
        invariant
            at + pattern.len() <= text.len(),
            j <= pattern.len(),
            forall|k: int| 0 <= k < j ==> text@[at + k] == pattern@[k],
        decreases pattern.len() - j,
    {
        if text[at + j] != pattern[j] {
            proof {
                let window = text@.subrange(at as int, at + pattern@.len());
                assert(window[j as int] == text@[at + j]);
            }
            return false;
        }
        j += 1;
    }
    assert(text@.subrange(at as int, at + pattern@.len()) =~= pattern@);
    true
}

/// Whether two strings hold the same characters.
pub fn str_eq(a: &str, b: &str) -> (r: bool)
    ensures
        r == (a@ == b@),
{
    let x = chars_of(a);
    let y = chars_of(b);
    if x.len() != y.len() {
        return false;
    }
    let r = matches_at(&x, &y, 0);
    assert(x@.subrange(0, x@.len() as int) =~= x@);
    r
}

/// Whether `text` begins with `prefix`.
pub fn starts_with(text: &str, prefix: &str) -> (r: bool)
    ensures
        r == occurs_at(text@, prefix@, 0),
{
    let x = chars_of(text);
    let p = chars_of(prefix);
    if p.len() > x.len() {
        return false;
    }
    matches_at(&x, &p, 0)
}

/// Whether `pattern` stands somewhere in `text`.
pub fn contains(text: &str, pattern: &str) -> (r: bool)
    ensures
        r == occurs_in(text@, pattern@),
{
    let x = chars_of(text);
    let p = chars_of(pattern);
    if p.len() > x.len() {
        return false;
    }
    let last: usize = x.len() - p.len();
    let mut i: usize = 0;
    while i < last
        invariant
            x@ == text@,
            p@ == pattern@,
            last == x.len() - p.len(),
            i <= last,
            forall|k: int| 0 <= k < i ==> !occurs_at(x@, p@, k),
        decreases last - i,
    {
        if matches_at(&x, &p, i) {
            assert(occurs_at(x@, p@, i as int));
            return true;
        }
        i += 1;
    }
    let r = matches_at(&x, &p, last);
    proof {
        if r {
            assert(occurs_at(x@, p@, last as int));
        }
    }
    r
}

/// The character of a decimal digit.
pub open spec fn digit_char(d: int) -> char {
    if d == 0 {
        '0'
    } else if d == 1 {
        '1'
    } else if d == 2 {
        '2'
    } else if d == 3 {
        '3'
    } else if d == 4 {
        '4'
    } else if d == 5 {
        '5'
    } else if d == 6 {
        '6'
    } else if d == 7 {
        '7'
    } else if d == 8 {
        '8'
    } else {
        '9'
    }
}

/// The decimal digits of `n`, most significant first, without leading zeros.
pub open spec fn decimal(n: nat) -> Seq<char>
    decreases n,
{
    if n < 10 {
        seq![digit_char(n as int)]
    } else {
        decimal(n / 10).push(digit_char((n % 10) as int))
    }
}

/// The text of one decimal digit.
fn digit_text(d: u32) -> (t: &'static str)
    requires
        d < 10,
    ensures
        t@ == seq![digit_char(d as int)],
{
    proof {
        reveal_strlit("0");
        reveal_strlit("1");
        reveal_strlit("2");
        reveal_strlit("3");
        reveal_strlit("4");
        reveal_strlit("5");
        reveal_strlit("6");
        reveal_strlit("7");
        reveal_strlit("8");
        reveal_strlit("9");
    }
    let t = if d == 0 {
        "0"
    } else if d == 1 {
        "1"
    } else if d == 2 {
        "2"
    } else if d == 3 {
        "3"
    } else if d == 4 {
        "4"
    } else if d == 5 {
        "5"
    } else if d == 6 {
        "6"
    } else if d == 7 {
        "7"
    } else if d == 8 {
        "8"
    } else {
        "9"
    };
    assert(t@ =~= seq![digit_char(d as int)]);
    t
}

/// Appends the decimal digits of `n` to `out`.
pub fn push_decimal(out: &mut String, n: u32)
    ensures
        final(out)@ == old(out)@ + decimal(n as nat),
    decreases n,
{
    if n >= 10 {
        push_decimal(out, n / 10);
    }
    out.append(digit_text(n % 10));
    assert(out@ =~= old(out)@ + decimal(n as nat));
}

/// Appends a character to a string, as `String::push` of the standard library
/// does: the string afterwards is the string before followed by the character.
pub assume_specification[ String::push ](s: &mut String, ch: char)
    ensures
        final(s)@ == old(s)@.push(ch),
;

/// Whether a character is white space: a character with the Unicode property
/// White_Space.
pub open spec fn is_whitespace(c: char) -> bool {
    let n = c as u32;
    ||| 0x09 <= n <= 0x0D
    ||| n == 0x20
    ||| n == 0x85
    ||| n == 0xA0
    ||| n == 0x1680
    ||| 0x2000 <= n <= 0x200A
    ||| n == 0x2028
    ||| n == 0x2029
    ||| n == 0x202F
    ||| n == 0x205F
    ||| n == 0x3000
}

/// The text without the white space at its beginning and at its end.
pub open spec fn trimmed(text: Seq<char>) -> Seq<char>
    decreases text.len(),
{
    if text.len() > 0 && is_whitespace(text[0]) {
        trimmed(text.drop_first())
    } else if text.len() > 0 && is_whitespace(text.last()) {
        trimmed(text.drop_last())
    } else {
        text
    }
}

/// Whether a character is white space.
pub fn char_is_whitespace(c: char) -> (r: bool)
    ensures
        r == is_whitespace(c),
{
    let n: u32 = c as u32;
    (0x09 <= n && n <= 0x0D) || n == 0x20 || n == 0x85 || n == 0xA0 || n == 0x1680 || (0x2000 <= n
        && n <= 0x200A) || n == 0x2028 || n == 0x2029 || n == 0x202F || n == 0x205F || n == 0x3000
}

/// Where white space surrounds the part of a text from `from` up to `to`, and
/// that part neither begins nor ends with white space, that part is the
/// trimmed text.
proof fn lemma_trimmed_is_the_middle(text: Seq<char>, from: int, to: int)
    requires
        0 <= from <= to <= text.len(),
        forall|k: int| 0 <= k < from ==> is_whitespace(text[k]),
        forall|k: int| to <= k < text.len() ==> is_whitespace(text[k]),
        from < to ==> !is_whitespace(text[from]) && !is_whitespace(text[to - 1]),
    ensures
        trimmed(text) == text.subrange(from, to),
    decreases text.len(),
{
    if text.len() == 0 {
        assert(text.subrange(from, to) =~= text);
    } else if is_whitespace(text[0]) {
        let rest = text.drop_first();
        if from == 0 {
            // Nothing but white space: the middle is empty.
            assert(from == to);
            assert forall|k: int| 0 <= k < rest.len() implies is_whitespace(rest[k]) by {
                assert(rest[k] == text[k + 1]);
            }
            lemma_trimmed_is_the_middle(rest, 0, 0);
            assert(text.subrange(0, 0) =~= rest.subrange(0, 0));
        } else {
            assert forall|k: int| 0 <= k < from - 1 implies is_whitespace(rest[k]) by {
                assert(rest[k] == text[k + 1]);
            }
            assert forall|k: int| to - 1 <= k < rest.len() implies is_whitespace(rest[k]) by {
                assert(rest[k] == text[k + 1]);
            }
            if from < to {
                assert(rest[from - 1] == text[from]);
                assert(rest[to - 2] == text[to - 1]);
            }
            lemma_trimmed_is_the_middle(rest, from - 1, to - 1);
            assert(text.subrange(from, to) =~= rest.subrange(from - 1, to - 1));
        }
    } else if is_whitespace(text.last()) {
        let rest = text.drop_last();
        assert(from == 0);
        assert(to < text.len());
        assert forall|k: int| to <= k < rest.len() implies is_whitespace(rest[k]) by {
            assert(rest[k] == text[k]);
        }
        if from < to {
            assert(rest[from] == text[from]);
            assert(rest[to - 1] == text[to - 1]);
        }
        lemma_trimmed_is_the_middle(rest, from, to);
        assert(text.subrange(from, to) =~= rest.subrange(from, to));
    } else {
        assert(from == 0);
        assert(to == text.len());
        assert(text.subrange(from, to) =~= text);
    }
}

/// The text without the white space at its beginning and at its end.
pub fn trim(text: &str) -> (out: String)
    ensures
        out@ == trimmed(text@),
{
    let chars = chars_of(text);
    let n: usize = chars.len();
    let mut from: usize = 0;
    while from < n && char_is_whitespace(chars[from])
        invariant
            n == chars@.len(),
            from <= n,
            forall|k: int| 0 <= k < from ==> is_whitespace(chars@[k]),
        decreases n - from,
    {
        from += 1;
    }
    let mut to: usize = n;
    while to > from && char_is_whitespace(chars[to - 1])
        invariant
            n == chars@.len(),
            from <= to <= n,
            forall|k: int| to <= k < n ==> is_whitespace(chars@[k]),
        decreases to - from,
    {
        to -= 1;
    }
    proof {
        lemma_trimmed_is_the_middle(chars@, from as int, to as int);
    }
    let mut out = String::new();
    let mut i: usize = from;
    while i < to
        invariant
            from <= i <= to <= chars@.len(),
            out@ == chars@.subrange(from as int, i as int),
        decreases to - i,
    {
        out.push(chars[i]);
        i += 1;
        assert(out@ =~= chars@.subrange(from as int, i as int));
    }
    out
}

} // verus!
