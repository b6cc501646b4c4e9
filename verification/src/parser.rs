//! Reading the listing of the history store.
//!
//! The listing is text, one record per line. A record is an index in decimal
//! notation, a tab, and the content: everything after that first tab.

use vstd::prelude::*;
use vstd::string::StringExecFns;
use crate::decimal::{parse_u64, parsed_u64};
use crate::scan::{
    find_char, first_where, lemma_first_where, lemma_first_where_is, lemma_position, position,
};
use crate::text::{chars_of, text_of};
use crate::types::{
    entry_views, history_view, record_view, ClipboardEntry, ClipboardEntryView, CliphistError,
    CliphistErrorView,
};

verus! {

/// The lines of `text`: the runs of characters between line feeds. A line
/// feed ends a line, so text that ends with one has no empty last line, and
/// empty text has no line at all.
pub open spec fn lines(text: Seq<char>) -> Seq<Seq<char>>
    decreases text.len(),
{
    let end = position(text, '\n');
    if text.len() == 0 {
        Seq::empty()
    } else if 0 <= end < text.len() {
        seq![text.take(end)] + lines(text.skip(end + 1))
    } else {
        seq![text]
    }
}

/// The error that rejects a line without a tab.
pub open spec fn format_error(line: Seq<char>) -> CliphistErrorView {
    CliphistErrorView::ParseError("Invalid line format: "@ + line)
}

/// The error that rejects a line whose index field denotes no `u64`.
pub open spec fn index_error(field: Seq<char>) -> CliphistErrorView {
    CliphistErrorView::ParseError("Invalid index: "@ + field)
}

/// What one line of the listing denotes. The line is split at its first
/// tab: what stands before it is the index, what stands after it, further
/// tabs included, is the content. A line without a tab is rejected, and so
/// is one whose index field denotes no `u64`.
pub open spec fn parsed_line(line: Seq<char>) -> Result<ClipboardEntryView, CliphistErrorView> {
    let tab = position(line, '\t');
    if tab >= line.len() {
        Err(format_error(line))
    } else {
        match parsed_u64(line.take(tab)) {
            Some(index) => Ok(ClipboardEntryView { index, content: line.skip(tab + 1) }),
            None => Err(index_error(line.take(tab))),
        }
    }
}

/// Holds of a line that is no record.
pub open spec fn is_rejected() -> spec_fn(Seq<char>) -> bool {
    |line: Seq<char>| parsed_line(line) is Err
}

/// The index of the first of `ls` that is no record, or the length of `ls`
/// if every line is one.
pub open spec fn first_rejected(ls: Seq<Seq<char>>) -> int {
    first_where(ls, is_rejected())
}

/// What a sequence of lines denotes: the entries of all of them, in order,
/// if every line is a record, and else the error of the first that is not.
pub open spec fn parsed_lines(ls: Seq<Seq<char>>) -> Result<
    Seq<ClipboardEntryView>,
    CliphistErrorView,
> {
    let bad = first_rejected(ls);
    if 0 <= bad < ls.len() {
        Err(parsed_line(ls[bad])->Err_0)
    } else {
        Ok(Seq::new(ls.len(), |i: int| parsed_line(ls[i])->Ok_0))
    }
}

/// What the whole listing denotes.
pub open spec fn parsed_history(text: Seq<char>) -> Result<
    Seq<ClipboardEntryView>,
    CliphistErrorView,
> {
    parsed_lines(lines(text))
}

/// `first_rejected` is within bounds, every line before it is a record and
/// the line at it is not.
pub proof fn lemma_first_rejected(ls: Seq<Seq<char>>)
    ensures
        0 <= first_rejected(ls) <= ls.len(),
        forall|i: int| 0 <= i < first_rejected(ls) ==> parsed_line(#[trigger] ls[i]) is Ok,
        first_rejected(ls) < ls.len() ==> parsed_line(ls[first_rejected(ls)]) is Err,
{
    lemma_first_where(ls, is_rejected());
}

/// An index before which every line is a record, and at which the line is
/// none unless the index is the length, is `first_rejected`.
pub proof fn lemma_first_rejected_is(ls: Seq<Seq<char>>, k: int)
    requires
        0 <= k <= ls.len(),
        forall|i: int| 0 <= i < k ==> parsed_line(#[trigger] ls[i]) is Ok,
        k < ls.len() ==> parsed_line(ls[k]) is Err,
    ensures
        first_rejected(ls) == k,
{
    lemma_first_where_is(ls, is_rejected(), k);
}

/// A listing with a line that has no tab is rejected with a parse error,
/// whatever the other lines hold.
pub proof fn lemma_line_without_tab_rejected(text: Seq<char>, k: int)
    requires
        0 <= k < lines(text).len(),
        !lines(text)[k].contains('\t'),
    ensures
        parsed_history(text) is Err,
        parsed_history(text)->Err_0 is ParseError,
{
    let ls = lines(text);
    lemma_first_rejected(ls);
    lemma_position(ls[k], '\t');
    let bad = first_rejected(ls);
    if bad > k {
        assert(parsed_line(ls[k]) is Ok);
    }
    lemma_position(ls[bad], '\t');
}

/// A listing with a line that has no tab is rejected as ill-formatted, and
/// the error shows the first such line, provided that no line before it has
/// a tab and an index field that denotes no `u64`: the error of such a line
/// comes first.
pub proof fn lemma_line_without_tab_is_format_error(text: Seq<char>, k: int)
    requires
        0 <= k < lines(text).len(),
        !lines(text)[k].contains('\t'),
        forall|j: int|
            0 <= j < k && (#[trigger] lines(text)[j]).contains('\t') ==> parsed_line(
                lines(text)[j],
            ) is Ok,
    ensures
        0 <= first_rejected(lines(text)) <= k,
        !lines(text)[first_rejected(lines(text))].contains('\t'),
        parsed_history(text) == Err::<Seq<ClipboardEntryView>, CliphistErrorView>(
            format_error(lines(text)[first_rejected(lines(text))]),
        ),
{
    let ls = lines(text);
    lemma_first_rejected(ls);
    lemma_position(ls[k], '\t');
    let bad = first_rejected(ls);
    if bad > k {
        assert(parsed_line(ls[k]) is Ok);
    }
    lemma_position(ls[bad], '\t');
    if ls[bad].contains('\t') {
        assert(bad < k);
        assert(parsed_line(ls[bad]) is Ok);
    }
}

/// The lines of text that starts with a line and a line feed are that line,
/// then the lines of what follows.
pub proof fn lemma_lines_step(text: Seq<char>, end: int)
    requires
        0 <= end < text.len(),
        position(text, '\n') == end,
    ensures
        lines(text) == seq![text.take(end)] + lines(text.skip(end + 1)),
{
}

/// Text without a line feed that is not empty is one line.
pub proof fn lemma_lines_last(text: Seq<char>)
    requires
        text.len() > 0,
        position(text, '\n') == text.len(),
    ensures
        lines(text) == seq![text],
{
}

/// Reads the record in `chars[from..to]`.
pub fn parse_line_at(chars: &Vec<char>, from: usize, to: usize) -> (record: Result<
    ClipboardEntry,
    CliphistError,
>)
    requires
        from <= to <= chars.len(),
    ensures
        record_view(record) == parsed_line(chars@.subrange(from as int, to as int)),
{
    let ghost line = chars@.subrange(from as int, to as int);
    let tab: usize = find_char(chars, from, to, '\t');
    if tab == to {
        let shown: String = text_of(chars, from, to);
        return Err(
            CliphistError::ParseError(String::from_str("Invalid line format: ").concat(
                shown.as_str(),
            )),
        );
    }
    assert(line.take(tab - from) == chars@.subrange(from as int, tab as int));
    assert(line.skip(tab - from + 1) == chars@.subrange(tab + 1, to as int));
    match parse_u64(chars, from, tab) {
        Some(index) => Ok(ClipboardEntry { index, content: text_of(chars, tab + 1, to) }),
        None => {
            let shown: String = text_of(chars, from, tab);
            Err(
                CliphistError::ParseError(
                    String::from_str("Invalid index: ").concat(shown.as_str()),
                ),
            )
        },
    }
}

/// Reads one line of the listing.
pub fn parse_line(line: &str) -> (record: Result<ClipboardEntry, CliphistError>)
    ensures
        record_view(record) == parsed_line(line@),
{
    let chars: Vec<char> = chars_of(line);
    assert(chars@.subrange(0, chars@.len() as int) == chars@);
    parse_line_at(&chars, 0, chars.len())
}

/// Reads the listing of the history store: the entries in the order of
/// their lines, or the error of the first line that is no record. No
/// entries are returned beside an error.
pub fn parse_history(text: &str) -> (history: Result<Vec<ClipboardEntry>, CliphistError>)
    ensures
        history_view(history) == parsed_history(text@),
{
    let chars: Vec<char> = chars_of(text);
    let n: usize = chars.len();
    let mut entries: Vec<ClipboardEntry> = Vec::new();
    let mut pos: usize = 0;
    let ghost mut done: Seq<Seq<char>> = Seq::empty();
    proof {
        assert(text@.skip(0) == text@);
    }
    while pos < n
        invariant
            pos <= n == chars.len(),
            chars@ == text@,
            lines(text@) == done + lines(text@.skip(pos as int)),
            done.len() == entries.len(),
            forall|i: int|
                0 <= i < done.len() ==> parsed_line(#[trigger] done[i]) == Ok::<
                    ClipboardEntryView,
                    CliphistErrorView,
                >(entries@[i]@),
        decreases n - pos,
    {
        let end: usize = find_char(&chars, pos, n, '\n');
        let ghost rest = text@.skip(pos as int);
        let ghost line = chars@.subrange(pos as int, end as int);
        let next: usize = if end < n {
            end + 1
        } else {
            n
        };
        proof {
            assert(rest == chars@.subrange(pos as int, n as int));
            assert(rest.take(end - pos) == line);
            if end < n {
                assert(rest.skip(end - pos + 1) == text@.skip(next as int));
                lemma_lines_step(rest, end - pos);
            } else {
                assert(rest == line);
                assert(text@.skip(next as int).len() == 0);
                lemma_lines_last(rest);
            }
            assert(lines(rest) == seq![line] + lines(text@.skip(next as int)));
            assert(lines(text@) == done.push(line) + lines(text@.skip(next as int)));
        }
        match parse_line_at(&chars, pos, end) {
            Ok(entry) => {
                entries.push(entry);
                proof {
                    done = done.push(line);
                }
            },
            Err(e) => {
                proof {
                    let ls = lines(text@);
                    assert(ls[done.len() as int] == line);
                    assert forall|i: int| 0 <= i < done.len() implies parsed_line(
                        #[trigger] ls[i],
                    ) is Ok by {
                        assert(ls[i] == done[i]);
                    }
                    lemma_first_rejected_is(ls, done.len() as int);
                }
                return Err(e);
            },
        }
        pos = next;
    }
    proof {
        let ls = lines(text@);
        assert(lines(text@.skip(pos as int)) == Seq::<Seq<char>>::empty());
        assert(ls == done);
        lemma_first_rejected_is(ls, ls.len() as int);
        assert(entry_views(entries@) == parsed_lines(ls)->Ok_0);
    }
    Ok(entries)
}

} // verus!
