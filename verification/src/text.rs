//! Character-level text helpers shared by the rest of the crate.

use vstd::prelude::*;

verus! {

/// Unicode lower-casing of a character sequence, as `str::to_lowercase` computes it.
pub uninterp spec fn lowercase_of(s: Seq<char>) -> Seq<char>;

/// Calls `str::to_lowercase`; the result is the Unicode lower-case mapping of the
/// argument, which is a function of the argument alone and is named `lowercase_of`.
#[verifier::external_body]
pub(crate) fn to_lowercase(s: &str) -> (r: String)
    ensures
        r@ == lowercase_of(s@),
{
    s.to_lowercase()
}

/// Calls `String::push`, which appends one character to the end of the string.
#[verifier::external_body]
pub(crate) fn push_char(s: &mut String, c: char)
    ensures
        final(s)@ == old(s)@.push(c),
{
    s.push(c)
}

/// The characters of a string, in order.
pub fn chars_of(s: &str) -> (v: Vec<char>)
    ensures
        v@ == s@,
{
    let n = s.unicode_len();
    let mut v: Vec<char> = Vec::new();
    let mut i: usize = 0;
    while i < n
        invariant
            n == s@.len(),
            i <= n,
            v@ == s@.subrange(0, i as int),
        decreases n - i,
    {
        let c = s.get_char(i);
        v.push(c);
        i += 1;
        assert(v@ =~= s@.subrange(0, i as int));
    }
    assert(v@ =~= s@);
    v
}

/// Builds a string holding exactly the given characters.
pub fn string_from_chars(v: &[char]) -> (s: String)
    ensures
        s@ == v@,
{
    let mut s = String::new();
    let mut i: usize = 0;
    while i < v.len()
        invariant
            i <= v@.len(),
            s@ == v@.subrange(0, i as int),
        decreases v@.len() - i,
    {
        push_char(&mut s, v[i]);
        i += 1;
        assert(s@ =~= v@.subrange(0, i as int));
    }
    assert(s@ =~= v@);
    s
}


/// The views of a sequence of strings.
pub open spec fn views(v: Seq<String>) -> Seq<Seq<char>> {
    v.map_values(|x: String| x@)
}

/// The pieces of `s` between `'\n'` characters, as `str::split('\n')` yields them.
pub open spec fn split_newlines(s: Seq<char>) -> Seq<Seq<char>>
    decreases s.len(),
{
    if s.len() == 0 {
        seq![Seq::<char>::empty()]
    } else {
        let p = split_newlines(s.drop_last());
        if s.last() == '\n' {
            p.push(Seq::<char>::empty())
        } else {
            p.update(p.len() - 1, p.last().push(s.last()))
        }
    }
}

/// A line that was ended by `'\n'` loses a trailing `'\r'` as well.
pub open spec fn strip_cr(line: Seq<char>) -> Seq<char> {
    if line.len() > 0 && line.last() == '\r' {
        line.drop_last()
    } else {
        line
    }
}

/// The lines of `s`, as `str::lines` yields them: split at `'\n'`, a `'\r'` right
/// before a `'\n'` is dropped, and a final empty piece (after a last `'\n'`, or of
/// an empty string) is not a line.
pub open spec fn lines_of(s: Seq<char>) -> Seq<Seq<char>> {
    let p = split_newlines(s);
    let ended = p.drop_last().map_values(|l: Seq<char>| strip_cr(l));
    if p.last().len() == 0 {
        ended
    } else {
        ended.push(p.last())
    }
}

proof fn lemma_split_newlines_nonempty(s: Seq<char>)
    ensures
        split_newlines(s).len() >= 1,
    decreases s.len(),
{
    if s.len() > 0 {
        lemma_split_newlines_nonempty(s.drop_last());
    }
}

/// Removes a trailing `'\r'` from a line.
fn strip_cr_exec(line: Vec<char>) -> (r: Vec<char>)
    ensures
        r@ == strip_cr(line@),
{
    let mut line = line;
    if line.len() > 0 && line[line.len() - 1] == '\r' {
        line.pop();
    }
    line
}

/// The lines of a string, as `str::lines` yields them.
pub fn lines(s: &str) -> (r: Vec<String>)
    ensures
        views(r@) == lines_of(s@),
{
    let cs = chars_of(s);
    let mut out: Vec<String> = Vec::new();
    let mut cur: Vec<char> = Vec::new();
    let ghost mut done: Seq<Seq<char>> = Seq::empty();
    let mut i: usize = 0;
    while i < cs.len()
        invariant
            cs@ == s@,
            i <= cs@.len(),
            split_newlines(cs@.subrange(0, i as int)) == done.push(cur@),
            views(out@) == done.map_values(|l: Seq<char>| strip_cr(l)),
        decreases cs@.len() - i,
    {
        let c = cs[i];
        proof {
            let pre = cs@.subrange(0, i as int);
            assert(cs@.subrange(0, i + 1).drop_last() =~= pre);
            assert(cs@.subrange(0, i + 1).last() == c);
        }
        if c == '\n' {
            let ghost old_cur = cur@;
            let ghost old_done = done;
            let ghost old_out = out@;
            let line = strip_cr_exec(cur);
            let ls = string_from_chars(line.as_slice());
            proof {
                done = done.push(old_cur);
            }
            out.push(ls);
            cur = Vec::new();
            proof {
                assert(out@ =~= old_out.push(ls));
                assert(views(out@) =~= views(old_out).push(ls@));
                assert(done.map_values(|l: Seq<char>| strip_cr(l)) =~= old_done.map_values(
                    |l: Seq<char>| strip_cr(l),
                ).push(strip_cr(old_cur)));
                assert(views(out@) =~= done.map_values(|l: Seq<char>| strip_cr(l)));
                assert(split_newlines(cs@.subrange(0, i + 1)) =~= done.push(cur@));
            }
        } else {
            cur.push(c);
            proof {
                let p = split_newlines(cs@.subrange(0, i as int));
                assert(p.update(p.len() - 1, p.last().push(c)) =~= done.push(cur@));
            }
        }
        i += 1;
    }
    assert(cs@.subrange(0, cs@.len() as int) =~= cs@);
    let ghost p = split_newlines(s@);
    assert(p.drop_last() =~= done);
    assert(p.last() == cur@);
    if cur.len() > 0 {
        let ls = string_from_chars(cur.as_slice());
        out.push(ls);
        assert(views(out@) =~= lines_of(s@));
    } else {
        assert(views(out@) =~= lines_of(s@));
    }
    out
}

/// Whether `c` has the Unicode `White_Space` property, as `char::is_whitespace` decides.
pub open spec fn is_whitespace(c: char) -> bool {
    ||| ('\u{9}' <= c && c <= '\u{d}')
    ||| c == ' '
    ||| c == '\u{85}'
    ||| c == '\u{a0}'
    ||| c == '\u{1680}'
    ||| ('\u{2000}' <= c && c <= '\u{200a}')
    ||| c == '\u{2028}'
    ||| c == '\u{2029}'
    ||| c == '\u{202f}'
    ||| c == '\u{205f}'
    ||| c == '\u{3000}'
}

fn is_whitespace_exec(c: char) -> (r: bool)
    ensures
        r == is_whitespace(c),
{
    ('\u{9}' <= c && c <= '\u{d}') || c == ' ' || c == '\u{85}' || c == '\u{a0}' || c
        == '\u{1680}' || ('\u{2000}' <= c && c <= '\u{200a}') || c == '\u{2028}' || c
        == '\u{2029}' || c == '\u{202f}' || c == '\u{205f}' || c == '\u{3000}'
}

/// `s` without leading and trailing whitespace, as `str::trim` gives it.
pub open spec fn trim_of(s: Seq<char>) -> Seq<char>
    decreases s.len(),
{
    if s.len() > 0 && is_whitespace(s[0]) {
        trim_of(s.drop_first())
    } else if s.len() > 0 && is_whitespace(s.last()) {
        trim_of(s.drop_last())
    } else {
        s
    }
}

proof fn lemma_trim_window(s: Seq<char>, a: int, b: int)
    requires
        0 <= a <= b <= s.len(),
        forall|k: int| 0 <= k < a ==> is_whitespace(#[trigger] s[k]),
        forall|k: int| b <= k < s.len() ==> is_whitespace(#[trigger] s[k]),
        a < b ==> !is_whitespace(s[a]) && !is_whitespace(s[b - 1]),
    ensures
        trim_of(s) == s.subrange(a, b),
    decreases s.len(),
{
    if s.len() > 0 && is_whitespace(s[0]) {
        let t = s.drop_first();
        if a > 0 {
            assert forall|k: int| 0 <= k < a - 1 implies is_whitespace(#[trigger] t[k]) by {
                assert(t[k] == s[k + 1]);
            }
            assert forall|k: int| b - 1 <= k < t.len() implies is_whitespace(#[trigger] t[k]) by {
                assert(t[k] == s[k + 1]);
            }
            lemma_trim_window(t, a - 1, b - 1);
            assert(t.subrange(a - 1, b - 1) =~= s.subrange(a, b));
        } else {
            assert(b == 0);
            assert forall|k: int| 0 <= k < t.len() implies is_whitespace(#[trigger] t[k]) by {
                assert(t[k] == s[k + 1]);
            }
            lemma_trim_window(t, 0, 0);
            assert(t.subrange(0, 0) =~= s.subrange(a, b));
        }
    } else if s.len() > 0 && is_whitespace(s.last()) {
        let t = s.drop_last();
        assert(a == 0);
        assert(b < s.len());
        assert forall|k: int| b <= k < t.len() implies is_whitespace(#[trigger] t[k]) by {
            assert(t[k] == s[k]);
        }
        lemma_trim_window(t, a, b);
        assert(t.subrange(a, b) =~= s.subrange(a, b));
    } else {
        if a > 0 {
            assert(is_whitespace(s[0]));
        }
        if b < s.len() {
            assert(is_whitespace(s[s.len() - 1]));
        }
        assert(s.subrange(a, b) =~= s);
    }
}

/// The string without leading and trailing whitespace (`str::trim`).
pub fn trim(s: &str) -> (r: String)
    ensures
        r@ == trim_of(s@),
{
    let cs = chars_of(s);
    let n = cs.len();
    let mut a: usize = 0;
    while a < n && is_whitespace_exec(cs[a])
        invariant
            a <= n == cs@.len(),
            forall|k: int| 0 <= k < a ==> is_whitespace(#[trigger] cs@[k]),
        decreases n - a,
    {
        a += 1;
    }
    let mut b: usize = n;
    while b > a && is_whitespace_exec(cs[b - 1])
        invariant
            a <= b <= n == cs@.len(),
            forall|k: int| b <= k < n ==> is_whitespace(#[trigger] cs@[k]),
        decreases b - a,
    {
        b -= 1;
    }
    let mut out: Vec<char> = Vec::new();
    let mut k: usize = a;
    while k < b
        invariant
            a <= k <= b <= n == cs@.len(),
            out@ == cs@.subrange(a as int, k as int),
        decreases b - k,
    {
        out.push(cs[k]);
        k += 1;
        assert(out@ =~= cs@.subrange(a as int, k as int));
    }
    proof {
        if a == b && a < n {
            assert forall|k: int| b <= k < n implies is_whitespace(#[trigger] cs@[k]) by {}
        }
        lemma_trim_window(cs@, a as int, b as int);
    }
    string_from_chars(out.as_slice())
}

/// The value of a sequence of decimal digits.
pub open spec fn digits_value(d: Seq<char>) -> int
    decreases d.len(),
{
    if d.len() == 0 {
        0
    } else {
        digits_value(d.drop_last()) * 10 + (d.last() as int - '0' as int)
    }
}

pub open spec fn is_digit(c: char) -> bool {
    '0' <= c && c <= '9'
}

/// The digits part of a number: `s` without one leading `'+'`.
pub open spec fn unsigned_digits(s: Seq<char>) -> Seq<char> {
    if s.len() > 0 && s[0] == '+' {
        s.drop_first()
    } else {
        s
    }
}

pub open spec fn all_digits(d: Seq<char>) -> bool {
    forall|k: int| 0 <= k < d.len() ==> is_digit(#[trigger] d[k])
}

/// What `str::parse::<u64>` gives: an optional leading `'+'`, then at least one
/// ASCII digit and nothing else, with a value that fits in `u64`.
pub open spec fn parse_u64_of(s: Seq<char>) -> Option<u64> {
    let d = unsigned_digits(s);
    if d.len() > 0 && all_digits(d) && digits_value(d) <= u64::MAX {
        Some(digits_value(d) as u64)
    } else {
        None
    }
}

proof fn lemma_digits_value_nonneg(d: Seq<char>)
    requires
        forall|k: int| 0 <= k < d.len() ==> is_digit(#[trigger] d[k]),
    ensures
        digits_value(d) >= 0,
    decreases d.len(),
{
    if d.len() > 0 {
        assert(is_digit(d[d.len() - 1]));
        lemma_digits_value_nonneg(d.drop_last());
    }
}

proof fn lemma_digits_value_monotone(d: Seq<char>, i: int)
    requires
        0 <= i <= d.len(),
        forall|k: int| 0 <= k < d.len() ==> is_digit(#[trigger] d[k]),
    ensures
        digits_value(d.subrange(0, i)) <= digits_value(d),
    decreases d.len() - i,
{
    if i < d.len() {
        lemma_digits_value_monotone(d, i + 1);
        let t = d.subrange(0, i + 1);
        assert(t.drop_last() =~= d.subrange(0, i));
        assert(is_digit(d[i]));
        assert forall|k: int| 0 <= k < i implies is_digit(#[trigger] d.subrange(0, i)[k]) by {
            assert(d.subrange(0, i)[k] == d[k]);
        }
        lemma_digits_value_nonneg(d.subrange(0, i));
    } else {
        assert(d.subrange(0, i) =~= d);
    }
}

/// Parses a decimal `u64` the way `str::parse::<u64>` does.
pub fn parse_u64(s: &str) -> (r: Option<u64>)
    ensures
        r == parse_u64_of(s@),
{
    let cs = chars_of(s);
    let start: usize = if cs.len() > 0 && cs[0] == '+' {
        1
    } else {
        0
    };
    let ghost d = unsigned_digits(s@);
    assert(d =~= cs@.subrange(start as int, cs@.len() as int));
    if start >= cs.len() {
        return None;
    }
    let mut acc: u64 = 0;
    let mut i: usize = start;
    while i < cs.len()
        invariant
            cs@ == s@,
            start <= i <= cs@.len(),
            d == cs@.subrange(start as int, cs@.len() as int),
            d == unsigned_digits(s@),
            forall|k: int| 0 <= k < i - start ==> is_digit(#[trigger] d[k]),
            acc as int == digits_value(d.subrange(0, i - start)),
        decreases cs@.len() - i,
    {
        let c = cs[i];
        let ghost j = i - start;
        assert(d[j] == c);
        if !('0' <= c && c <= '9') {
            proof {
                assert(!is_digit(d[j]));
                assert(!all_digits(d));
            }
            return None;
        }
        let digit: u64 = (c as u32 - '0' as u32) as u64;
        proof {
            assert(d.subrange(0, j + 1).drop_last() =~= d.subrange(0, j));
            assert(d.subrange(0, j + 1).last() == c);
            assert(digit as int == c as int - '0' as int);
            assert(digits_value(d.subrange(0, j + 1)) == acc as int * 10 + digit as int);
        }
        match acc.checked_mul(10) {
            None => {
                proof {
                    assert forall|k: int| 0 <= k < j + 1 implies is_digit(
                        #[trigger] d.subrange(0, j + 1)[k],
                    ) by {
                        assert(d.subrange(0, j + 1)[k] == d[k]);
                    }
                    lemma_digits_value_nonneg(d.subrange(0, j + 1));
                    if all_digits(d) {
                        lemma_digits_value_monotone(d, j + 1);
                    }
                }
                return None;
            },
            Some(m) => match m.checked_add(digit) {
                None => {
                    proof {
                        if all_digits(d) {
                            lemma_digits_value_monotone(d, j + 1);
                        }
                    }
                    return None;
                },
                Some(v) => {
                    acc = v;
                },
            },
        }
        i += 1;
    }
    assert(d.subrange(0, d.len() as int) =~= d);
    Some(acc)
}
} // verus!
