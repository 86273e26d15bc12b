//! Characters, whitespace, trimming and lines.
//!
//! Text is modelled as `Seq<char>`. Whitespace is whatever `char::is_whitespace`
//! says it is; everything else in this module is defined and proved over that.

use vstd::prelude::*;

verus! {

/// Whether `c` is whitespace: the Unicode property `White_Space`, a table
/// that is not spelled out here.
pub uninterp spec fn is_whitespace(c: char) -> bool;

/// `char::is_whitespace`. Trusted: the result depends on `c` alone and is
/// what the specifications call [`is_whitespace`].
#[verifier::external_body]
fn char_is_whitespace(c: char) -> (b: bool)
    ensures
        b == is_whitespace(c),
{
    c.is_whitespace()
}

/// `s` without its leading and trailing whitespace.
pub open spec fn trimmed(s: Seq<char>) -> Seq<char>
    decreases s.len(),
{
    if s.len() == 0 {
        s
    } else if is_whitespace(s.first()) {
        trimmed(s.drop_first())
    } else if is_whitespace(s.last()) {
        trimmed(s.drop_last())
    } else {
        s
    }
}

/// Whether `s` has neither leading nor trailing whitespace.
pub open spec fn is_trimmed(s: Seq<char>) -> bool {
    s.len() > 0 ==> !is_whitespace(s.first()) && !is_whitespace(s.last())
}

/// Whether `s[a..b]` is what remains of `s` once the whitespace at both ends
/// is cut away: all before `a` and all from `b` on is whitespace, and the
/// range, if not empty, starts and ends with something else.
pub open spec fn is_trim_range(s: Seq<char>, a: int, b: int) -> bool {
    &&& 0 <= a <= b <= s.len()
    &&& forall|i: int| 0 <= i < a ==> is_whitespace(#[trigger] s[i])
    &&& forall|i: int| b <= i < s.len() ==> is_whitespace(#[trigger] s[i])
    &&& a < b ==> !is_whitespace(s[a]) && !is_whitespace(s[b - 1])
}

/// A range that cuts the whitespace off both ends of `s` holds `trimmed(s)`.
pub proof fn lemma_trim_range(s: Seq<char>, a: int, b: int)
    requires
        is_trim_range(s, a, b),
    ensures
        trimmed(s) == s.subrange(a, b),
    decreases s.len(),
{
    if s.len() == 0 {
        assert(s.subrange(a, b) =~= s);
    } else if is_whitespace(s.first()) {
        let rest = s.drop_first();
        if a > 0 {
            assert forall|i: int| 0 <= i < a - 1 implies is_whitespace(#[trigger] rest[i]) by {
                assert(rest[i] == s[i + 1]);
            }
            assert forall|i: int| b - 1 <= i < rest.len() implies is_whitespace(
                #[trigger] rest[i],
            ) by {
                assert(rest[i] == s[i + 1]);
            }
            lemma_trim_range(rest, a - 1, b - 1);
            assert(rest.subrange(a - 1, b - 1) =~= s.subrange(a, b));
        } else {
            assert(b == 0);
            assert forall|i: int| 0 <= i < rest.len() implies is_whitespace(#[trigger] rest[i]) by {
                assert(rest[i] == s[i + 1]);
            }
            lemma_trim_range(rest, 0, 0);
            assert(rest.subrange(0, 0) =~= s.subrange(0, 0));
        }
    } else if is_whitespace(s.last()) {
        let rest = s.drop_last();
        assert(a == 0);
        assert(b < s.len());
        assert forall|i: int| b <= i < rest.len() implies is_whitespace(#[trigger] rest[i]) by {
            assert(rest[i] == s[i]);
        }
        lemma_trim_range(rest, a, b);
        assert(rest.subrange(a, b) =~= s.subrange(a, b));
    } else {
        assert(a == 0);
        assert(b == s.len());
        assert(s.subrange(a, b) =~= s);
    }
}

/// Trimming leaves a text that has no whitespace at either end, and that is
/// a contiguous part of the text that was trimmed.
pub proof fn lemma_trimmed_is_trimmed(s: Seq<char>)
    ensures
        is_trimmed(trimmed(s)),
        exists|a: int, b: int| is_trim_range(s, a, b) && trimmed(s) == #[trigger] s.subrange(a, b),
    decreases s.len(),
{
    if s.len() == 0 {
        assert(is_trim_range(s, 0, 0));
        assert(s.subrange(0, 0) =~= s);
    } else if is_whitespace(s.first()) {
        let rest = s.drop_first();
        lemma_trimmed_is_trimmed(rest);
        let (a, b) = choose|a: int, b: int|
            is_trim_range(rest, a, b) && trimmed(rest) == #[trigger] rest.subrange(a, b);
        if a < b {
            assert forall|i: int| 0 <= i < a + 1 implies is_whitespace(#[trigger] s[i]) by {
                if i > 0 {
                    assert(s[i] == rest[i - 1]);
                }
            }
            assert forall|i: int| b + 1 <= i < s.len() implies is_whitespace(#[trigger] s[i]) by {
                assert(s[i] == rest[i - 1]);
            }
            assert(s[a + 1] == rest[a]);
            assert(s[b] == rest[b - 1]);
            assert(is_trim_range(s, a + 1, b + 1));
            assert(rest.subrange(a, b) =~= s.subrange(a + 1, b + 1));
        } else {
            assert forall|i: int| 0 <= i < s.len() implies is_whitespace(#[trigger] s[i]) by {
                if i > 0 {
                    assert(s[i] == rest[i - 1]);
                }
            }
            assert(is_trim_range(s, 0, 0));
            assert(rest.subrange(a, b) =~= s.subrange(0, 0));
        }
    } else if is_whitespace(s.last()) {
        let rest = s.drop_last();
        lemma_trimmed_is_trimmed(rest);
        let (a, b) = choose|a: int, b: int|
            is_trim_range(rest, a, b) && trimmed(rest) == #[trigger] rest.subrange(a, b);
        assert(rest[0] == s[0]);
        assert(a == 0);
        assert forall|i: int| b <= i < s.len() implies is_whitespace(#[trigger] s[i]) by {
            if i < rest.len() {
                assert(s[i] == rest[i]);
            }
        }
        if a < b {
            assert(s[a] == rest[a]);
            assert(s[b - 1] == rest[b - 1]);
        }
        assert(is_trim_range(s, a, b));
        assert(rest.subrange(a, b) =~= s.subrange(a, b));
    } else {
        assert(is_trim_range(s, 0, s.len() as int));
        assert(s.subrange(0, s.len() as int) =~= s);
    }
}

/// A text without whitespace at either end is its own trimmed text, so that
/// trimming twice is trimming once.
pub proof fn lemma_trimmed_fixed_point(s: Seq<char>)
    ensures
        is_trimmed(s) <==> trimmed(s) == s,
        trimmed(trimmed(s)) == trimmed(s),
{
    lemma_trimmed_is_trimmed(s);
    lemma_trimmed_is_trimmed(trimmed(s));
    if is_trimmed(s) {
        assert(is_trim_range(s, 0, s.len() as int));
        lemma_trim_range(s, 0, s.len() as int);
        assert(s.subrange(0, s.len() as int) =~= s);
    }
    let t = trimmed(s);
    if t.len() > 0 {
        assert(is_trim_range(t, 0, t.len() as int));
        lemma_trim_range(t, 0, t.len() as int);
        assert(t.subrange(0, t.len() as int) =~= t);
    }
}

/// The texts that the strings `v` hold.
pub open spec fn texts(v: Seq<String>) -> Seq<Seq<char>> {
    Seq::new(v.len(), |i: int| v[i]@)
}

/// The number of characters of `s` before its first line feed, or its
/// length if it has none.
pub open spec fn line_len(s: Seq<char>) -> nat
    decreases s.len(),
{
    if s.len() == 0 || s.first() == '\n' {
        0
    } else {
        1 + line_len(s.drop_first())
    }
}

/// The lines of `s`: the parts between its line feeds, in order. A text with
/// `n` line feeds has `n + 1` lines, some of which may be empty.
pub open spec fn lines(s: Seq<char>) -> Seq<Seq<char>>
    decreases s.len(),
{
    let k = line_len(s) as int;
    if k < s.len() {
        seq![s.take(k)] + lines(s.skip(k + 1))
    } else {
        seq![s]
    }
}

/// The first line of `s` ends at `k` if no line feed comes before `k` and
/// one stands at `k`, or `s` ends there.
pub proof fn lemma_line_len(s: Seq<char>, k: int)
    requires
        0 <= k <= s.len(),
        forall|i: int| 0 <= i < k ==> #[trigger] s[i] != '\n',
        k < s.len() ==> s[k] == '\n',
    ensures
        line_len(s) == k,
    decreases s.len(),
{
    if k > 0 {
        let rest = s.drop_first();
        assert forall|i: int| 0 <= i < k - 1 implies #[trigger] rest[i] != '\n' by {
            assert(rest[i] == s[i + 1]);
        }
        lemma_line_len(rest, k - 1);
    }
}

/// The first line of a text stops at its first line feed.
pub proof fn lemma_line_len_bounds(s: Seq<char>)
    ensures
        line_len(s) <= s.len(),
        forall|i: int| 0 <= i < line_len(s) ==> #[trigger] s[i] != '\n',
        line_len(s) < s.len() ==> s[line_len(s) as int] == '\n',
    decreases s.len(),
{
    if s.len() > 0 && s.first() != '\n' {
        let rest = s.drop_first();
        lemma_line_len_bounds(rest);
        assert forall|i: int| 0 <= i < line_len(s) implies #[trigger] s[i] != '\n' by {
            if i > 0 {
                assert(s[i] == rest[i - 1]);
            }
        }
        if line_len(s) < s.len() {
            assert(s[line_len(s) as int] == rest[line_len(rest) as int]);
        }
    }
}

/// No line holds a line feed, and there is always at least one line.
pub proof fn lemma_lines_hold_no_line_feed(s: Seq<char>)
    ensures
        lines(s).len() >= 1,
        forall|i: int, j: int|
            0 <= i < lines(s).len() && 0 <= j < lines(s)[i].len() ==> #[trigger] lines(s)[i][j]
                != '\n',
    decreases s.len(),
{
    lemma_line_len_bounds(s);
    let k = line_len(s) as int;
    if k < s.len() {
        let rest = lines(s.skip(k + 1));
        lemma_lines_hold_no_line_feed(s.skip(k + 1));
        assert forall|i: int, j: int|
            0 <= i < lines(s).len() && 0 <= j < lines(s)[i].len() implies #[trigger] lines(s)[i][j]
            != '\n' by {
            if i == 0 {
                assert(lines(s)[0] == s.take(k));
                assert(s.take(k)[j] == s[j]);
            } else {
                assert(lines(s)[i] == rest[i - 1]);
            }
        }
    }
}

/// `ls` with a line feed between each two of them.
pub open spec fn joined(ls: Seq<Seq<char>>) -> Seq<char>
    decreases ls.len(),
{
    if ls.len() == 0 {
        Seq::empty()
    } else if ls.len() == 1 {
        ls.first()
    } else {
        ls.first() + seq!['\n'] + joined(ls.drop_first())
    }
}

/// The lines of a text, with the line feeds put back between them, are the
/// text.
pub proof fn lemma_lines_join(s: Seq<char>)
    ensures
        joined(lines(s)) == s,
    decreases s.len(),
{
    lemma_line_len_bounds(s);
    let k = line_len(s) as int;
    if k < s.len() {
        let rest = lines(s.skip(k + 1));
        lemma_lines_join(s.skip(k + 1));
        lemma_lines_hold_no_line_feed(s.skip(k + 1));
        assert(lines(s).drop_first() =~= rest);
        assert(s.take(k) + seq!['\n'] + s.skip(k + 1) =~= s);
    }
}

/// The characters of `text`, one by one.
pub fn chars_of(text: &str) -> (chars: Vec<char>)
    ensures
        chars@ == text@,
{
    let mut chars: Vec<char> = Vec::new();
    for c in it: text.chars()
        invariant
            it.seq() == text@,
            chars@ == text@.take(it.index()),
    {
        chars.push(c);
        assert(text@.take(it.index() + 1) =~= text@.take(it.index()).push(c));
    }
    assert(text@.take(text@.len() as int) =~= text@);
    chars
}

/// Where the line that starts at `from` ends: the index of the next line
/// feed, or the length of `chars`.
pub fn line_end(chars: &Vec<char>, from: usize) -> (end: usize)
    requires
        from <= chars.len(),
    ensures
        end == from + line_len(chars@.skip(from as int)),
        from <= end <= chars.len(),
{
    let mut end: usize = from;
    while end < chars.len() && chars[end] != '\n'
        invariant
            from <= end <= chars.len(),
            forall|i: int| from <= i < end ==> #[trigger] chars@[i] != '\n',
        decreases chars.len() - end,
    {
        end += 1;
    }
    proof {
        let rest = chars@.skip(from as int);
        assert forall|i: int| 0 <= i < end - from implies #[trigger] rest[i] != '\n' by {
            assert(rest[i] == chars@[from + i]);
        }
        lemma_line_len(rest, end - from);
    }
    end
}

/// The range of `chars[from..to]` that is left when the whitespace at both
/// its ends is cut away.
pub fn trim_range(chars: &Vec<char>, from: usize, to: usize) -> (range: (usize, usize))
    requires
        from <= to <= chars.len(),
    ensures
        from <= range.0 <= range.1 <= to,
        chars@.subrange(range.0 as int, range.1 as int) == trimmed(
            chars@.subrange(from as int, to as int),
        ),
        is_trim_range(chars@.subrange(from as int, to as int), range.0 - from, range.1 - from),
{
    let mut a: usize = from;
    while a < to && char_is_whitespace(chars[a])
        invariant
            from <= a <= to <= chars.len(),
            forall|i: int| from <= i < a ==> is_whitespace(#[trigger] chars@[i]),
        decreases to - a,
    {
        a += 1;
    }
    let mut b: usize = to;
    while a < b && char_is_whitespace(chars[b - 1])
        invariant
            from <= a <= b <= to <= chars.len(),
            forall|i: int| b <= i < to ==> is_whitespace(#[trigger] chars@[i]),
        decreases b - a,
    {
        b -= 1;
    }
    proof {
        let s = chars@.subrange(from as int, to as int);
        assert forall|i: int| 0 <= i < a - from implies is_whitespace(#[trigger] s[i]) by {
            assert(s[i] == chars@[from + i]);
        }
        assert forall|i: int| b - from <= i < s.len() implies is_whitespace(#[trigger] s[i]) by {
            assert(s[i] == chars@[from + i]);
        }
        if a < b {
            assert(s[a - from] == chars@[a as int]);
            assert(s[b - from - 1] == chars@[b - 1]);
        }
        lemma_trim_range(s, a - from, b - from);
        assert(s.subrange(a - from, b - from) =~= chars@.subrange(a as int, b as int));
    }
    (a, b)
}

/// `text` without its leading and trailing whitespace.
pub fn trim(text: &str) -> (t: &str)
    ensures
        t@ == trimmed(text@),
{
    let chars = chars_of(text);
    let (a, b) = trim_range(&chars, 0, chars.len());
    assert(chars@.subrange(0, chars@.len() as int) =~= chars@);
    text.substring_char(a, b)
}

} // verus!
