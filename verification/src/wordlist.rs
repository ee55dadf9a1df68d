//! The list of known weak passwords: where it comes from, and how a block of
//! text is cut into its entries.

use vstd::prelude::*;
use crate::text::{chars_of, string_of};

verus! {

/// The place of the first newline in `text`, or its length if there is none.
pub open spec fn first_newline(text: Seq<char>) -> nat
    decreases text.len(),
{
    if text.len() == 0 || text[0] == '\n' {
        0
    } else {
        1 + first_newline(text.drop_first())
    }
}

/// `line` without the carriage returns at its end.
pub open spec fn strip_cr(line: Seq<char>) -> Seq<char>
    decreases line.len(),
{
    if line.len() > 0 && line.last() == '\r' {
        strip_cr(line.drop_last())
    } else {
        line
    }
}

/// The entries of a block of text: the pieces between newlines, each without
/// its trailing carriage returns. Text that ends in a newline has no empty
/// entry after it.
pub open spec fn split_lines(text: Seq<char>) -> Seq<Seq<char>>
    decreases text.len(),
{
    if text.len() == 0 {
        seq![]
    } else {
        let k = first_newline(text) as int;
        let line = strip_cr(text.take(k));
        if k >= text.len() {
            seq![line]
        } else {
            seq![line] + split_lines(text.skip(k + 1))
        }
    }
}

/// The entries of a list, each by its characters.
pub open spec fn entries_of(list: Seq<String>) -> Seq<Seq<char>> {
    Seq::new(list.len(), |i: int| list[i]@)
}

/// A place `k` with no newline before it, and a newline or the end of the
/// text at it, is the first newline.
proof fn lemma_first_newline_is(text: Seq<char>, k: int)
    requires
        0 <= k <= text.len(),
        forall|j: int| 0 <= j < k ==> text[j] != '\n',
        k == text.len() || text[k] == '\n',
    ensures
        first_newline(text) == k,
    decreases text.len(),
{
    if !(text.len() == 0 || text[0] == '\n') {
        let rest = text.drop_first();
        assert forall|j: int| 0 <= j < k - 1 implies rest[j] != '\n' by {
            assert(rest[j] == text[j + 1]);
        }
        lemma_first_newline_is(rest, k - 1);
    }
}

/// The first newline lies within the text, or at its end, and no newline
/// stands before it.
proof fn lemma_first_newline(text: Seq<char>)
    ensures
        first_newline(text) <= text.len(),
        forall|j: int| 0 <= j < first_newline(text) ==> text[j] != '\n',
    decreases text.len(),
{
    if !(text.len() == 0 || text[0] == '\n') {
        let rest = text.drop_first();
        lemma_first_newline(rest);
        assert forall|j: int| 0 <= j < first_newline(text) implies text[j] != '\n' by {
            if j > 0 {
                assert(text[j] == rest[j - 1]);
            }
        }
    }
}

/// Stripping keeps a beginning of the line, and what it keeps does not end in
/// a carriage return.
proof fn lemma_strip_cr(line: Seq<char>)
    ensures
        strip_cr(line).len() <= line.len(),
        forall|j: int| 0 <= j < strip_cr(line).len() ==> strip_cr(line)[j] == line[j],
        strip_cr(line).len() > 0 ==> strip_cr(line).last() != '\r',
    decreases line.len(),
{
    if line.len() > 0 && line.last() == '\r' {
        let shorter = line.drop_last();
        lemma_strip_cr(shorter);
        assert forall|j: int| 0 <= j < strip_cr(line).len() implies strip_cr(line)[j]
            == line[j] by {
            assert(strip_cr(shorter)[j] == shorter[j]);
            assert(shorter[j] == line[j]);
        }
    }
}

/// No entry of a block of text holds a newline, and none ends in a carriage
/// return.
pub proof fn entries_are_stripped(text: Seq<char>, i: int)
    requires
        0 <= i < split_lines(text).len(),
    ensures
        !split_lines(text)[i].contains('\n'),
        split_lines(text)[i].len() > 0 ==> split_lines(text)[i].last() != '\r',
    decreases text.len(),
{
    let k = first_newline(text) as int;
    let line = strip_cr(text.take(k));
    lemma_first_newline(text);
    if i == 0 {
        lemma_strip_cr(text.take(k));
        assert forall|j: int| 0 <= j < line.len() implies line[j] != '\n' by {
            assert(line[j] == text.take(k)[j]);
            assert(text.take(k)[j] == text[j]);
        }
    } else {
        entries_are_stripped(text.skip(k + 1), i - 1);
        assert(split_lines(text)[i] == split_lines(text.skip(k + 1))[i - 1]);
    }
}

/// Cuts `text` into its entries.
pub fn parse_wordlist(text: &str) -> (entries: Vec<String>)
    ensures
        entries_of(entries@) == split_lines(text@),
{
    let chars: Vec<char> = chars_of(text);
    let mut entries: Vec<String> = Vec::new();
    let mut start: usize = 0;
    proof {
        assert(chars@.skip(0) == chars@);
        assert(entries_of(entries@) + split_lines(chars@) =~= split_lines(chars@));
    }
    while start < chars.len()
        invariant
            start <= chars@.len(),
            entries_of(entries@) + split_lines(chars@.skip(start as int)) == split_lines(chars@),
        decreases chars@.len() - start,
    {
        let ghost rest = chars@.skip(start as int);
        let mut end: usize = start;
        while end < chars.len() && chars[end] != '\n'
            invariant
                start <= end <= chars@.len(),
                forall|j: int| start <= j < end ==> chars@[j] != '\n',
            decreases chars@.len() - end,
        {
            end += 1;
        }
        proof {
            assert forall|j: int| 0 <= j < end - start implies rest[j] != '\n' by {
                assert(rest[j] == chars@[start + j]);
            }
            lemma_first_newline_is(rest, end - start);
            assert(rest.take(end - start) == chars@.subrange(start as int, end as int));
        }
        let mut stop: usize = end;
        while stop > start && chars[stop - 1] == '\r'
            invariant
                start <= stop <= end <= chars@.len(),
                strip_cr(chars@.subrange(start as int, stop as int)) == strip_cr(
                    chars@.subrange(start as int, end as int),
                ),
            decreases stop,
        {
            proof {
                assert(chars@.subrange(start as int, stop as int).drop_last() == chars@.subrange(
                    start as int,
                    stop - 1,
                ));
            }
            stop -= 1;
        }
        let line: String = string_of(&chars, start, stop);
        let ghost before = entries_of(entries@);
        entries.push(line);
        let next: usize = if end < chars.len() {
            end + 1
        } else {
            end
        };
        proof {
            assert(entries_of(entries@) == before + seq![line@]);
            if end < chars.len() {
                assert(rest.skip(end - start + 1) == chars@.skip(next as int));
            } else {
                assert(chars@.skip(next as int).len() == 0);
            }
            assert(split_lines(rest) == seq![line@] + split_lines(chars@.skip(next as int)));
        }
        start = next;
    }
    proof {
        assert(chars@.skip(start as int).len() == 0);
        assert(entries_of(entries@) + split_lines(chars@.skip(start as int)) =~= entries_of(
            entries@,
        ));
    }
    entries
}

/// Where the entries come from.
#[derive(Clone, Debug)]
pub enum WordlistSource {
    /// The list that is built into the program.
    Embedded(Vec<String>),
    /// A list that the caller supplied as text.
    External(Vec<String>),
}

/// The caller asked for a list of its own and could not read it.
#[derive(Clone, Debug)]
pub struct IoError {
    /// The path that could not be read.
    pub path: String,
}

impl IoError {
    /// The sentence that names the path that could not be read.
    pub open spec fn text(&self) -> Seq<char> {
        "Failed to read file '"@ + self.path@ + "'. Aborting."@
    }

    /// The sentence that names the path that could not be read.
    pub fn message(&self) -> (m: String)
        ensures
            m@ == self.text(),
    {
        let mut m: String = String::from_str("Failed to read file '");
        m.append(self.path.as_str());
        m.append("'. Aborting.");
        m
    }
}

impl WordlistSource {
    /// The entries, in the order of the source.
    pub open spec fn corpus(&self) -> Seq<String> {
        match self {
            WordlistSource::Embedded(list) => list@,
            WordlistSource::External(list) => list@,
        }
    }

    /// The entries, in the order of the source. Both variants are read in the
    /// same way.
    pub fn entries(&self) -> (list: &Vec<String>)
        ensures
            list@ == self.corpus(),
    {
        match self {
            WordlistSource::Embedded(list) => list,
            WordlistSource::External(list) => list,
        }
    }
}

/// Chooses the source of the entries. `external` is `None` where the caller
/// asked for no list of its own; otherwise it holds what came of reading that
/// list: its text, or the path that could not be read. With no list asked for,
/// the embedded one is used.
pub fn resolve(external: Option<Result<&str, &str>>, embedded: Vec<String>) -> (source: Result<
    WordlistSource,
    IoError,
>)
    ensures
        external is None ==> (source matches Ok(WordlistSource::Embedded(list)) && list
            == embedded),
        external matches Some(Ok(text)) ==> (source matches Ok(WordlistSource::External(list))
            && entries_of(list@) == split_lines(text@)),
        external matches Some(Err(path)) ==> (source matches Err(e) && e.path@ == path@),
{
    match external {
        None => Ok(WordlistSource::Embedded(embedded)),
        Some(Ok(text)) => Ok(WordlistSource::External(parse_wordlist(text))),
        Some(Err(path)) => Err(IoError { path: String::from_str(path) }),
    }
}

} // verus!
