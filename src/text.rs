//! Character-level helpers: decimal rendering and tag-value cleaning.

use vstd::prelude::*;
use vstd::string::*;

verus! {

/// The character of a decimal digit.
pub open spec fn digit_char(d: nat) -> char {
    ((48 + d) as u8) as char
}

/// Decimal rendering of a natural number, without leading zeros.
pub open spec fn decimal(n: nat) -> Seq<char>
    decreases n,
{
    if n < 10 {
        seq![digit_char(n)]
    } else {
        decimal(n / 10) + seq![digit_char(n % 10)]
    }
}

/// Appends the decimal rendering of `n`.
pub fn push_decimal(out: &mut Vec<char>, n: u128)
    ensures
        final(out)@ == old(out)@ + decimal(n as nat),
    decreases n,
{
    if n >= 10 {
        push_decimal(out, n / 10);
    }
    let d: u8 = (n % 10) as u8;
    out.push((48u8 + d) as char);
    assert(final(out)@ == old(out)@ + decimal(n as nat));
}

/// Appends the characters of `s`.
pub fn push_str(out: &mut Vec<char>, s: &str)
    ensures
        final(out)@ == old(out)@ + s@,
{
    let n = s.unicode_len();
    let ghost start = out@;
    let mut i: usize = 0;
    while i < n
        invariant
            i <= n == s@.len(),
            out@ == start + s@.subrange(0, i as int),
        decreases n - i,
    {
        out.push(s.get_char(i));
        i = i + 1;
        assert(out@ == start + s@.subrange(0, i as int));
    }
    assert(s@.subrange(0, n as int) == s@);
}

/// Relies on collecting characters into a `String`: the text holds them in order.
#[verifier::external_body]
pub(crate) fn text_of(v: &Vec<char>) -> (r: String)
    ensures
        r@ == v@,
{
    v.iter().collect::<String>()
}

/// A character that a tag value keeps: printable ASCII, from space to `~`.
pub open spec fn is_kept(c: char) -> bool {
    32 <= c as u32 && (c as u32) < 127
}

/// The kept characters of `s`, in order.
pub open spec fn kept_only(s: Seq<char>) -> Seq<char>
    decreases s.len(),
{
    if s.len() == 0 {
        s
    } else if is_kept(s.last()) {
        kept_only(s.drop_last()).push(s.last())
    } else {
        kept_only(s.drop_last())
    }
}

/// `s` without its leading spaces.
pub open spec fn trim_start(s: Seq<char>) -> Seq<char>
    decreases s.len(),
{
    if s.len() > 0 && s[0] == ' ' {
        trim_start(s.drop_first())
    } else {
        s
    }
}

/// `s` without its trailing spaces.
pub open spec fn trim_end(s: Seq<char>) -> Seq<char>
    decreases s.len(),
{
    if s.len() > 0 && s.last() == ' ' {
        trim_end(s.drop_last())
    } else {
        s
    }
}

/// A character that separates fields in a metrics line.
pub open spec fn is_delimiter(c: char) -> bool {
    c == ',' || c == ' ' || c == '='
}

/// `s` with a backslash put before each delimiter.
pub open spec fn escaped(s: Seq<char>) -> Seq<char>
    decreases s.len(),
{
    if s.len() == 0 {
        s
    } else if is_delimiter(s.last()) {
        escaped(s.drop_last()) + seq!['\\', s.last()]
    } else {
        escaped(s.drop_last()).push(s.last())
    }
}

/// A tag value as written in a metrics line: control and non-ASCII characters
/// removed, then surrounding spaces trimmed, then delimiters escaped.
pub open spec fn cleaned(s: Seq<char>) -> Seq<char> {
    escaped(trim_end(trim_start(kept_only(s))))
}

/// The characters of a `String`.
pub(crate) fn chars_of(s: &String) -> (r: Vec<char>)
    ensures
        r@ == s@,
{
    let mut out: Vec<char> = Vec::new();
    push_str(&mut out, s.as_str());
    out
}

/// Keeps the printable ASCII characters of `s`.
fn keep_printable(s: &Vec<char>) -> (r: Vec<char>)
    ensures
        r@ == kept_only(s@),
{
    let mut out: Vec<char> = Vec::new();
    let mut i: usize = 0;
    while i < s.len()
        invariant
            i <= s@.len(),
            out@ == kept_only(s@.subrange(0, i as int)),
        decreases s.len() - i,
    {
        let c = s[i];
        proof {
            assert(s@.subrange(0, i + 1).drop_last() == s@.subrange(0, i as int));
        }
        let code = c as u32;
        if 32 <= code && code < 127 {
            out.push(c);
        }
        i = i + 1;
    }
    assert(s@.subrange(0, s@.len() as int) == s@);
    out
}

proof fn lemma_trim_start_from(s: Seq<char>, i: int)
    requires
        0 <= i <= s.len(),
        forall|k: int| 0 <= k < i ==> s[k] == ' ',
    ensures
        trim_start(s) == trim_start(s.subrange(i, s.len() as int)),
    decreases i,
{
    if i > 0 {
        assert(s.drop_first().subrange(i - 1, s.drop_first().len() as int) == s.subrange(
            i,
            s.len() as int,
        ));
        lemma_trim_start_from(s.drop_first(), i - 1);
    } else {
        assert(s.subrange(0, s.len() as int) == s);
    }
}

proof fn lemma_trim_end_to(s: Seq<char>, j: int)
    requires
        0 <= j <= s.len(),
        forall|k: int| j <= k < s.len() ==> s[k] == ' ',
    ensures
        trim_end(s) == trim_end(s.subrange(0, j)),
    decreases s.len() - j,
{
    if j < s.len() {
        assert(s.drop_last().subrange(0, j) == s.subrange(0, j));
        lemma_trim_end_to(s.drop_last(), j);
    } else {
        assert(s.subrange(0, j) == s);
    }
}

/// Removes leading and trailing spaces.
fn trim_spaces(s: &Vec<char>) -> (r: Vec<char>)
    ensures
        r@ == trim_end(trim_start(s@)),
{
    let n = s.len();
    let mut lo: usize = 0;
    while lo < n && s[lo] == ' '
        invariant
            lo <= n == s@.len(),
            forall|k: int| 0 <= k < lo ==> s@[k] == ' ',
        decreases n - lo,
    {
        lo = lo + 1;
    }
    let ghost rest = s@.subrange(lo as int, n as int);
    proof {
        lemma_trim_start_from(s@, lo as int);
        if lo < n {
            assert(rest[0] != ' ');
        }
        assert(trim_start(rest) == rest);
    }
    let mut hi: usize = n;
    while hi > lo && s[hi - 1] == ' '
        invariant
            lo <= hi <= n == s@.len(),
            forall|k: int| hi <= k < n ==> s@[k] == ' ',
        decreases hi,
    {
        hi = hi - 1;
    }
    proof {
        let w = hi - lo;
        assert forall|k: int| w <= k < rest.len() implies rest[k] == ' ' by {
            assert(rest[k] == s@[k + lo]);
        }
        lemma_trim_end_to(rest, w);
        assert(rest.subrange(0, w) == s@.subrange(lo as int, hi as int));
        let t = s@.subrange(lo as int, hi as int);
        if t.len() > 0 {
            assert(t.last() == s@[hi - 1]);
        }
        assert(trim_end(t) == t);
    }
    let mut out: Vec<char> = Vec::new();
    let mut i: usize = lo;
    while i < hi
        invariant
            lo <= i <= hi <= n == s@.len(),
            out@ == s@.subrange(lo as int, i as int),
        decreases hi - i,
    {
        out.push(s[i]);
        i = i + 1;
        assert(out@ == s@.subrange(lo as int, i as int));
    }
    out
}

/// Puts a backslash before each comma, space and equals sign.
fn escape_delimiters(s: &Vec<char>) -> (r: Vec<char>)
    ensures
        r@ == escaped(s@),
{
    let mut out: Vec<char> = Vec::new();
    let mut i: usize = 0;
    while i < s.len()
        invariant
            i <= s@.len(),
            out@ == escaped(s@.subrange(0, i as int)),
        decreases s.len() - i,
    {
        let c = s[i];
        proof {
            assert(s@.subrange(0, i + 1).drop_last() == s@.subrange(0, i as int));
        }
        if c == ',' || c == ' ' || c == '=' {
            out.push('\\');
        }
        out.push(c);
        i = i + 1;
    }
    assert(s@.subrange(0, s@.len() as int) == s@);
    out
}

proof fn lemma_kept_only_kept(s: Seq<char>)
    ensures
        forall|i: int| 0 <= i < kept_only(s).len() ==> is_kept(#[trigger] kept_only(s)[i]),
    decreases s.len(),
{
    if s.len() > 0 {
        lemma_kept_only_kept(s.drop_last());
        let p = kept_only(s.drop_last());
        if is_kept(s.last()) {
            assert forall|i: int| 0 <= i < kept_only(s).len() implies is_kept(
                #[trigger] kept_only(s)[i],
            ) by {
                if i < p.len() {
                    assert(kept_only(s)[i] == p[i]);
                }
            }
        }
    }
}

proof fn lemma_trim_start_suffix(s: Seq<char>)
    ensures
        exists|k: int| 0 <= k <= s.len() && trim_start(s) == #[trigger] s.subrange(k, s.len() as int),
    decreases s.len(),
{
    if s.len() > 0 && s[0] == ' ' {
        lemma_trim_start_suffix(s.drop_first());
        let k = choose|k: int|
            0 <= k <= s.drop_first().len() && trim_start(s.drop_first())
                == #[trigger] s.drop_first().subrange(k, s.drop_first().len() as int);
        assert(s.drop_first().subrange(k, s.drop_first().len() as int) == s.subrange(
            k + 1,
            s.len() as int,
        ));
    } else {
        assert(s.subrange(0, s.len() as int) == s);
    }
}

proof fn lemma_trim_end_prefix(s: Seq<char>)
    ensures
        exists|k: int| 0 <= k <= s.len() && trim_end(s) == #[trigger] s.subrange(0, k),
    decreases s.len(),
{
    if s.len() > 0 && s.last() == ' ' {
        lemma_trim_end_prefix(s.drop_last());
        let k = choose|k: int|
            0 <= k <= s.drop_last().len() && trim_end(s.drop_last()) == #[trigger] s.drop_last().subrange(0, k);
        assert(s.drop_last().subrange(0, k) == s.subrange(0, k));
    } else {
        assert(s.subrange(0, s.len() as int) == s);
    }
}

proof fn lemma_escaped_safe(s: Seq<char>)
    requires
        forall|i: int| 0 <= i < s.len() ==> is_kept(#[trigger] s[i]),
    ensures
        forall|i: int| 0 <= i < escaped(s).len() ==> is_kept(#[trigger] escaped(s)[i]),
        forall|i: int|
            0 <= i < escaped(s).len() && is_delimiter(#[trigger] escaped(s)[i]) ==> i > 0
                && escaped(s)[i - 1] == '\\',
    decreases s.len(),
{
    if s.len() > 0 {
        let d = s.drop_last();
        assert forall|i: int| 0 <= i < d.len() implies is_kept(#[trigger] d[i]) by {
            assert(d[i] == s[i]);
        }
        lemma_escaped_safe(d);
        let p = escaped(d);
        let c = s.last();
        let e = escaped(s);
        assert(is_kept(c));
        assert(is_kept('\\'));
        if is_delimiter(c) {
            assert(e == p + seq!['\\', c]);
        } else {
            assert(e == p.push(c));
        }
        assert forall|i: int| 0 <= i < e.len() implies is_kept(#[trigger] e[i]) by {
            if i < p.len() {
                assert(e[i] == p[i]);
            }
        }
        assert forall|i: int|
            0 <= i < e.len() && is_delimiter(#[trigger] e[i]) implies i > 0 && e[i - 1] == '\\' by {
            if i < p.len() {
                assert(e[i] == p[i]);
                assert(e[i - 1] == p[i - 1]);
            }
        }
    }
}

/// A cleaned tag value holds only printable ASCII characters, and each comma,
/// space or equals sign in it stands right after a backslash.
pub proof fn lemma_cleaned_is_escaped(s: Seq<char>)
    ensures
        forall|i: int| 0 <= i < cleaned(s).len() ==> is_kept(#[trigger] cleaned(s)[i]),
        forall|i: int|
            0 <= i < cleaned(s).len() && is_delimiter(#[trigger] cleaned(s)[i]) ==> i > 0
                && cleaned(s)[i - 1] == '\\',
{
    let k = kept_only(s);
    lemma_kept_only_kept(s);
    lemma_trim_start_suffix(k);
    let t1 = trim_start(k);
    lemma_trim_end_prefix(t1);
    let t2 = trim_end(t1);
    let a = choose|a: int| 0 <= a <= k.len() && t1 == #[trigger] k.subrange(a, k.len() as int);
    let b = choose|b: int| 0 <= b <= t1.len() && t2 == #[trigger] t1.subrange(0, b);
    assert forall|i: int| 0 <= i < t2.len() implies is_kept(#[trigger] t2[i]) by {
        assert(t2[i] == k[i + a]);
    }
    lemma_escaped_safe(t2);
}

/// Makes `input` safe to stand as a tag value in a metrics line.
pub fn clean_string(input: &String) -> (r: String)
    ensures
        r@ == cleaned(input@),
{
    let chars = chars_of(input);
    let kept = keep_printable(&chars);
    let trimmed = trim_spaces(&kept);
    let out = escape_delimiters(&trimmed);
    text_of(&out)
}

} // verus!
