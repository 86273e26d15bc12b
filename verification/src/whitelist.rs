//! The volume whitelist: the volumes that may be snapshotted, one per line of
//! a text that may also hold blank lines and comments.

use crate::text::lemma_trimmed_is_trimmed;
use crate::text::{chars_of, is_trimmed, line_end, line_len, lines, texts, trim_range, trimmed};
use vstd::prelude::*;
use vstd::string::StrSliceExecFns;

verus! {

/// The character that starts a comment line.
pub const COMMENT_MARK: char = '#';

/// Whether a trimmed line names a volume: it is not blank and no comment.
pub open spec fn is_entry(line: Seq<char>) -> bool {
    line.len() > 0 && line.first() != COMMENT_MARK
}

/// The entries that the lines `ls` give: every line trimmed, and of these
/// the ones that name a volume, in their order.
pub open spec fn entries_in(ls: Seq<Seq<char>>) -> Seq<Seq<char>> {
    ls.map_values(|line: Seq<char>| trimmed(line)).filter(|line: Seq<char>| is_entry(line))
}

/// The entries of a whitelist text.
pub open spec fn entries_of(text: Seq<char>) -> Seq<Seq<char>> {
    entries_in(lines(text))
}

/// What a single line adds to the entries: its trimmed text or nothing.
pub open spec fn entry_of(line: Seq<char>) -> Seq<Seq<char>> {
    if is_entry(trimmed(line)) {
        seq![trimmed(line)]
    } else {
        Seq::empty()
    }
}

/// The entries of some lines are those of the first line, then those of the
/// lines after it.
pub proof fn lemma_entries_in_first(line: Seq<char>, rest: Seq<Seq<char>>)
    ensures
        entries_in(seq![line] + rest) == entry_of(line) + entries_in(rest),
{
    let trim = |line: Seq<char>| trimmed(line);
    let keep = |line: Seq<char>| is_entry(line);
    let head = seq![trimmed(line)];
    assert((seq![line] + rest).map_values(trim) =~= head + rest.map_values(trim));
    Seq::filter_distributes_over_add(head, rest.map_values(trim), keep);
    assert(head.filter(keep) == entry_of(line)) by {
        reveal_with_fuel(Seq::filter, 2);
        assert(head.drop_last() =~= Seq::<Seq<char>>::empty());
        assert(Seq::<Seq<char>>::empty().push(trimmed(line)) =~= head);
    }
}

/// The entries of a text are those of its first line, then those of the
/// text after the line feed that ends it.
pub proof fn lemma_entries_of_first(text: Seq<char>)
    ensures
        line_len(text) < text.len() ==> entries_of(text) == entry_of(
            text.take(line_len(text) as int),
        ) + entries_of(text.skip(line_len(text) as int + 1)),
        line_len(text) >= text.len() ==> entries_of(text) == entry_of(text),
{
    let k = line_len(text) as int;
    if k < text.len() {
        lemma_entries_in_first(text.take(k), lines(text.skip(k + 1)));
    } else {
        lemma_entries_in_first(text, Seq::empty());
        assert(seq![text] + Seq::<Seq<char>>::empty() =~= seq![text]);
        assert(entries_in(Seq::empty()) =~= Seq::<Seq<char>>::empty()) by {
            reveal_with_fuel(Seq::filter, 1);
        }
    }
}

/// Blank lines and comment lines give no entry, every other line gives its
/// trimmed text, and nothing else is an entry: `e` is among the entries of
/// `ls` exactly if it is the trimmed text of one of the lines, is not empty
/// and does not start with the comment mark.
pub proof fn lemma_entries_are_the_kept_lines(ls: Seq<Seq<char>>, e: Seq<char>)
    ensures
        entries_in(ls).contains(e) <==> is_entry(e) && exists|i: int|
            0 <= i < ls.len() && e == trimmed(#[trigger] ls[i]),
{
    let trim = |line: Seq<char>| trimmed(line);
    let keep = |line: Seq<char>| is_entry(line);
    let trimmed_lines = ls.map_values(trim);
    if entries_in(ls).contains(e) {
        let j = choose|j: int| 0 <= j < entries_in(ls).len() && entries_in(ls)[j] == e;
        trimmed_lines.lemma_filter_pred(keep, j);
        trimmed_lines.lemma_filter_contains_rev(keep, e);
        let i = choose|i: int| 0 <= i < trimmed_lines.len() && trimmed_lines[i] == e;
        assert(e == trimmed(ls[i]));
    }
    if is_entry(e) && exists|i: int| 0 <= i < ls.len() && e == trimmed(#[trigger] ls[i]) {
        let i = choose|i: int| 0 <= i < ls.len() && e == trimmed(#[trigger] ls[i]);
        assert(trimmed_lines[i] == e);
        trimmed_lines.lemma_filter_contains(keep, i);
    }
}

/// Each line gives one entry or none, and the entries keep the order of the
/// lines: a further line at the end adds its trimmed text at the end, or,
/// where that is blank or a comment, nothing.
pub proof fn lemma_entries_in_last(ls: Seq<Seq<char>>, line: Seq<char>)
    ensures
        entries_in(ls.push(line)) == entries_in(ls) + entry_of(line),
{
    let trim = |line: Seq<char>| trimmed(line);
    let keep = |line: Seq<char>| is_entry(line);
    let tail = seq![trimmed(line)];
    assert(ls.push(line).map_values(trim) =~= ls.map_values(trim) + tail);
    Seq::filter_distributes_over_add(ls.map_values(trim), tail, keep);
    assert(tail.filter(keep) == entry_of(line)) by {
        reveal_with_fuel(Seq::filter, 2);
        assert(tail.drop_last() =~= Seq::<Seq<char>>::empty());
        assert(Seq::<Seq<char>>::empty().push(trimmed(line)) =~= tail);
    }
}

/// Whether every one of `entries` is as a whitelist holds it: not empty, no
/// comment, and without whitespace at either end.
pub open spec fn is_clean(entries: Seq<Seq<char>>) -> bool {
    forall|i: int| 0 <= i < entries.len() ==> is_entry(#[trigger] entries[i]) && is_trimmed(entries[i])
}

/// The entries of any lines are clean.
pub proof fn lemma_entries_are_clean(ls: Seq<Seq<char>>)
    ensures
        is_clean(entries_in(ls)),
{
    assert forall|i: int| 0 <= i < entries_in(ls).len() implies is_entry(
        #[trigger] entries_in(ls)[i],
    ) && is_trimmed(entries_in(ls)[i]) by {
        let e = entries_in(ls)[i];
        assert(entries_in(ls).contains(e));
        lemma_entries_are_the_kept_lines(ls, e);
        let k = choose|k: int| 0 <= k < ls.len() && e == trimmed(#[trigger] ls[k]);
        lemma_trimmed_is_trimmed(ls[k]);
    }
}

/// Why a whitelist could not be loaded.
#[derive(Debug, Clone, PartialEq, Eq)]
pub struct LoadError {
    /// What the attempt to open or read the source reported.
    pub reason: String,
}

/// The volumes that may be snapshotted. Made once from a text and not
/// changed after that.
///
/// Its model (`@`) is the sequence of its entries, in the order of the text.
#[derive(Debug, Clone)]
pub struct VolumeWhitelist {
    volumes: Vec<String>,
}

impl View for VolumeWhitelist {
    type V = Seq<Seq<char>>;

    closed spec fn view(&self) -> Seq<Seq<char>> {
        texts(self.volumes@)
    }
}

impl VolumeWhitelist {
    /// Reads a whitelist from its text: one volume per line, each line
    /// trimmed; blank lines and lines that start with `#` are left out.
    pub fn parse(text: &str) -> (whitelist: VolumeWhitelist)
        ensures
            whitelist@ == entries_of(text@),
            is_clean(whitelist@),
    {
        let chars = chars_of(text);
        let mut volumes: Vec<String> = Vec::new();
        let mut start: usize = 0;
        assert(chars@.skip(0) =~= chars@);
        assert(texts(volumes@) =~= Seq::<Seq<char>>::empty());
        loop
            invariant_except_break
                start <= chars.len(),
                chars@ == text@,
                entries_of(text@) == texts(volumes@) + entries_of(chars@.skip(start as int)),
            ensures
                texts(volumes@) == entries_of(text@),
            decreases chars.len() - start,
        {
            let end = line_end(&chars, start);
            let (a, b) = trim_range(&chars, start, end);
            let ghost rest = chars@.skip(start as int);
            let ghost line = chars@.subrange(start as int, end as int);
            let ghost before = texts(volumes@);
            proof {
                assert(rest.take(end - start) =~= line);
                assert(rest.len() == chars.len() - start);
                lemma_entries_of_first(rest);
            }
            if a < b && chars[a] != COMMENT_MARK {
                let volume = text.substring_char(a, b).to_owned();
                volumes.push(volume);
                assert(texts(volumes@) =~= before + seq![trimmed(line)]);
            }
            proof {
                assert(trimmed(line).len() == b - a);
                if a < b {
                    assert(trimmed(line).first() == chars@[a as int]);
                }
                assert(texts(volumes@) == before + entry_of(line));
            }
            if end == chars.len() {
                proof {
                    assert(rest =~= line);
                }
                break ;
            }
            proof {
                assert(rest.skip(end - start + 1) =~= chars@.skip(end + 1));
            }
            start = end + 1;
        }
        let whitelist = VolumeWhitelist { volumes };
        proof {
            lemma_entries_are_clean(lines(text@));
        }
        whitelist
    }

    /// Makes the whitelist from what reading its source gave: the text, or
    /// the reason why the source could not be opened or read.
    pub fn load(source: Result<&str, String>) -> (loaded: Result<VolumeWhitelist, LoadError>)
        ensures
            match source {
                Ok(text) => loaded matches Ok(whitelist) && whitelist@ == entries_of(text@)
                    && is_clean(whitelist@),
                Err(reason) => loaded matches Err(error) && error.reason == reason,
            },
    {
        match source {
            Ok(text) => Ok(VolumeWhitelist::parse(text)),
            Err(reason) => Err(LoadError { reason }),
        }
    }

    /// The number of entries.
    pub fn len(&self) -> (n: usize)
        ensures
            n == self@.len(),
    {
        self.volumes.len()
    }

    /// Whether `path` is one of the entries, character for character.
    pub fn is_allowed(&self, path: &String) -> (allowed: bool)
        ensures
            allowed == self@.contains(path@),
    {
        let mut i: usize = 0;
        while i < self.volumes.len()
            invariant
                i <= self.volumes.len(),
                forall|k: int| 0 <= k < i ==> self@[k] != path@,
            decreases self.volumes.len() - i,
        {
            if self.volumes[i] == *path {
                assert(self@[i as int] == path@);
                return true;
            }
            i += 1;
        }
        false
    }

    /// The entries, in the order in which the text held them.
    pub fn volumes(&self) -> (volumes: &Vec<String>)
        ensures
            texts(volumes@) == self@,
    {
        &self.volumes
    }
}

} // verus!
