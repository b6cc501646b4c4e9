//! The text of a listing, and the law that reading it gives the entries back.

use vstd::prelude::*;
use crate::decimal::{
    decimal_text, is_digit, lemma_decimal_text_value, lemma_parse_decimal_text,
};
use crate::parser::{
    lemma_first_rejected_is, lemma_lines_last, lemma_lines_step, lines, parsed_history,
    parsed_line, parsed_lines,
};
use crate::scan::{lemma_position, lemma_position_is, position};
use crate::types::{ClipboardEntryView, CliphistErrorView};

verus! {

/// The line of an entry: its index in decimal notation, a tab, its content.
pub open spec fn record_text(entry: ClipboardEntryView) -> Seq<char> {
    decimal_text(entry.index as nat) + seq!['\t'] + entry.content
}

/// The lines of `entries`, with a line feed between each two.
pub open spec fn listing_text(entries: Seq<ClipboardEntryView>) -> Seq<char>
    decreases entries.len(),
{
    if entries.len() == 0 {
        Seq::empty()
    } else if entries.len() == 1 {
        record_text(entries[0])
    } else {
        record_text(entries[0]) + seq!['\n'] + listing_text(entries.skip(1))
    }
}

/// The lines of `entries`, with a line feed after each.
pub open spec fn terminated_listing_text(entries: Seq<ClipboardEntryView>) -> Seq<char>
    decreases entries.len(),
{
    if entries.len() == 0 {
        Seq::empty()
    } else {
        record_text(entries[0]) + seq!['\n'] + terminated_listing_text(entries.skip(1))
    }
}

/// Whether no content among `entries` holds a line feed.
pub open spec fn single_line_contents(entries: Seq<ClipboardEntryView>) -> bool {
    forall|i: int| 0 <= i < entries.len() ==> !(#[trigger] entries[i]).content.contains('\n')
}

/// The line of an entry whose content has no line feed is not empty, holds
/// no line feed, and denotes the entry.
pub proof fn lemma_record_text(entry: ClipboardEntryView)
    requires
        !entry.content.contains('\n'),
    ensures
        record_text(entry).len() > 0,
        position(record_text(entry), '\n') == record_text(entry).len(),
        parsed_line(record_text(entry)) == Ok::<ClipboardEntryView, CliphistErrorView>(entry),
{
    let number = decimal_text(entry.index as nat);
    let line = record_text(entry);
    let tab = number.len() as int;
    lemma_decimal_text_value(entry.index as nat);
    lemma_parse_decimal_text(entry.index);
    assert forall|i: int| 0 <= i < tab implies #[trigger] line[i] != '\t' by {
        assert(is_digit(number[i]));
    }
    lemma_position_is(line, '\t', tab);
    assert(line.take(tab) == number);
    assert(line.skip(tab + 1) == entry.content);
    assert forall|i: int| 0 <= i < line.len() implies #[trigger] line[i] != '\n' by {
        if i < tab {
            assert(is_digit(number[i]));
        } else if i > tab {
            assert(entry.content[i - tab - 1] == line[i]);
            assert(entry.content.contains(line[i]));
        }
    }
    lemma_position_is(line, '\n', line.len() as int);
}

/// The lines of a listing are the lines of its entries.
pub proof fn lemma_lines_of_listing(entries: Seq<ClipboardEntryView>)
    requires
        single_line_contents(entries),
    ensures
        lines(listing_text(entries)).len() == entries.len(),
        lines(terminated_listing_text(entries)).len() == entries.len(),
        forall|i: int|
            0 <= i < entries.len() ==> lines(listing_text(entries))[i] == record_text(
                #[trigger] entries[i],
            ),
        forall|i: int|
            0 <= i < entries.len() ==> lines(terminated_listing_text(entries))[i] == record_text(
                #[trigger] entries[i],
            ),
    decreases entries.len(),
{
    if entries.len() > 0 {
        let first = record_text(entries[0]);
        let rest = entries.skip(1);
        lemma_record_text(entries[0]);
        assert(single_line_contents(rest)) by {
            assert forall|i: int| 0 <= i < rest.len() implies !(#[trigger] rest[i]).content.contains(
                '\n',
            ) by {
                assert(rest[i] == entries[i + 1]);
            }
        }
        lemma_lines_of_listing(rest);
        let end = first.len() as int;
        let ended = terminated_listing_text(entries);
        assert forall|i: int| 0 <= i < end implies #[trigger] ended[i] != '\n' by {
            lemma_position(first, '\n');
            assert(ended[i] == first[i]);
        }
        lemma_position_is(ended, '\n', end);
        assert(ended.take(end) == first);
        assert(ended.skip(end + 1) == terminated_listing_text(rest));
        lemma_lines_step(ended, end);
        assert forall|i: int| 0 <= i < entries.len() implies lines(ended)[i] == record_text(
            #[trigger] entries[i],
        ) by {
            if i > 0 {
                assert(rest[i - 1] == entries[i]);
            }
        }
        let joined = listing_text(entries);
        if entries.len() == 1 {
            lemma_lines_last(joined);
        } else {
            assert forall|i: int| 0 <= i < end implies #[trigger] joined[i] != '\n' by {
                lemma_position(first, '\n');
                assert(joined[i] == first[i]);
            }
            lemma_position_is(joined, '\n', end);
            assert(joined.take(end) == first);
            assert(joined.skip(end + 1) == listing_text(rest));
            lemma_lines_step(joined, end);
            assert forall|i: int| 0 <= i < entries.len() implies lines(joined)[i] == record_text(
                #[trigger] entries[i],
            ) by {
                if i > 0 {
                    assert(rest[i - 1] == entries[i]);
                }
            }
        }
    }
}

/// Lines that are the lines of `entries` denote `entries`.
proof fn lemma_parsed_record_lines(ls: Seq<Seq<char>>, entries: Seq<ClipboardEntryView>)
    requires
        single_line_contents(entries),
        ls.len() == entries.len(),
        forall|i: int| 0 <= i < entries.len() ==> ls[i] == record_text(#[trigger] entries[i]),
    ensures
        parsed_lines(ls) == Ok::<Seq<ClipboardEntryView>, CliphistErrorView>(entries),
{
    assert forall|i: int| 0 <= i < ls.len() implies parsed_line(#[trigger] ls[i]) == Ok::<
        ClipboardEntryView,
        CliphistErrorView,
    >(entries[i]) by {
        lemma_record_text(entries[i]);
    }
    lemma_first_rejected_is(ls, ls.len() as int);
    assert(parsed_lines(ls)->Ok_0 == entries);
}

/// Reading the listing of any entries whose contents hold no line feed
/// gives exactly those entries, in their order. This holds whether the
/// lines are joined by line feeds or each is ended by one.
pub proof fn lemma_parse_round_trip(entries: Seq<ClipboardEntryView>)
    requires
        single_line_contents(entries),
    ensures
        parsed_history(listing_text(entries)) == Ok::<Seq<ClipboardEntryView>, CliphistErrorView>(
            entries,
        ),
        parsed_history(terminated_listing_text(entries)) == Ok::<
            Seq<ClipboardEntryView>,
            CliphistErrorView,
        >(entries),
{
    lemma_lines_of_listing(entries);
    lemma_parsed_record_lines(lines(listing_text(entries)), entries);
    lemma_parsed_record_lines(lines(terminated_listing_text(entries)), entries);
}

} // verus!
