//! Text as lines: how a text falls into lines, and how lines make a text.

use vstd::prelude::*;
use vstd::slice::slice_subrange;
use vstd::string::StringExecFns;
use crate::text::{
    find, find_from, lemma_find_from, lemma_find_from_behind, lemma_find_from_is, matches_at,
};

verus! {

/// The line feed that ends a line.
pub open spec fn line_feed() -> Seq<char> {
    seq!['\n']
}

/// `line` without the carriage return that may stand at its end.
pub open spec fn strip_cr(line: Seq<char>) -> Seq<char> {
    if line.len() > 0 && line.last() == '\r' {
        line.drop_last()
    } else {
        line
    }
}

/// The lines of `text` from `start` on. A line ends at a line feed, which
/// does not belong to it, nor does a carriage return right before that line
/// feed. The last line need not be ended; behind the last line feed no empty
/// line follows.
pub open spec fn lines_from(text: Seq<char>, start: int) -> Seq<Seq<char>>
    decreases text.len() - start,
    via lines_from_decreases
{
    if start < 0 || start >= text.len() {
        Seq::empty()
    } else {
        match find_from(text, line_feed(), start) {
            None => seq![text.subrange(start, text.len() as int)],
            Some(end) => seq![strip_cr(text.subrange(start, end))] + lines_from(text, end + 1),
        }
    }
}

#[via_fn]
proof fn lines_from_decreases(text: Seq<char>, start: int) {
    if start >= 0 {
        lemma_find_from(text, line_feed(), start);
    }
}

/// The lines of `text`.
pub open spec fn lines_of(text: Seq<char>) -> Seq<Seq<char>> {
    lines_from(text, 0)
}

/// The lines of `text`, each a part of it.
pub fn lines<'a>(text: &'a [char]) -> (list: Vec<&'a [char]>)
    ensures
        list.deep_view() == lines_of(text@),
{
    let feed: [char; 1] = ['\n'];
    let total: usize = text.len();
    let mut list: Vec<&'a [char]> = Vec::new();
    let mut start: usize = 0;
    while start < total
        invariant
            feed@ == line_feed(),
            start <= total == text@.len(),
            lines_of(text@) == list.deep_view() + lines_from(text@, start as int),
        decreases total - start,
    {
        match find(text, feed.as_slice(), start) {
            None => {
                let line = slice_subrange(text, start, total);
                list.push(line);
                assert(line.deep_view() =~= line@);
                start = total;
            },
            Some(end) => {
                proof {
                    lemma_find_from(text@, feed@, start as int);
                }
                let cut: usize = if end > start && text[end - 1] == '\r' {
                    end - 1
                } else {
                    end
                };
                let line = slice_subrange(text, start, cut);
                assert(line@ =~= strip_cr(text@.subrange(start as int, end as int)));
                list.push(line);
                assert(line.deep_view() =~= line@);
                start = end + 1;
            },
        }
    }
    list
}

/// The lines of `files`, each ended by a line feed.
pub open spec fn listing(files: Seq<Seq<char>>) -> Seq<char>
    decreases files.len(),
{
    if files.len() == 0 {
        Seq::empty()
    } else {
        listing(files.drop_last()) + files.last() + line_feed()
    }
}

/// Appends one line for each of `files` to `text`.
pub fn append_listing(text: &mut String, files: &Vec<String>)
    ensures
        final(text)@ == old(text)@ + listing(files.deep_view()),
{
    let ghost all = files.deep_view();
    let mut i: usize = 0;
    while i < files.len()
        invariant
            i <= files@.len(),
            all == files.deep_view(),
            text@ == old(text)@ + listing(all.take(i as int)),
        decreases files@.len() - i,
    {
        proof {
            reveal_strlit("\n");
            assert(all.take(i + 1).drop_last() =~= all.take(i as int));
        }
        text.append(files[i].as_str());
        text.append("\n");
        i = i + 1;
    }
    assert(all.take(i as int) =~= all);
}

/// Whether `line` can stand as a line of its own: it holds no line feed, and
/// no carriage return at its end.
pub open spec fn is_line(line: Seq<char>) -> bool {
    &&& forall|i: int| 0 <= i < line.len() ==> line[i] != '\n'
    &&& !(line.len() > 0 && line.last() == '\r')
}

/// The lines behind the text `a` are the lines of what stands behind it.
pub proof fn lemma_lines_from_behind(a: Seq<char>, b: Seq<char>, from: int)
    requires
        0 <= from,
    ensures
        lines_from(a + b, a.len() + from) == lines_from(b, from),
    decreases b.len() - from,
{
    if from < b.len() {
        lemma_find_from_behind(a, b, line_feed(), from);
        lemma_find_from(b, line_feed(), from);
        match find_from(b, line_feed(), from) {
            None => {
                assert((a + b).subrange(a.len() + from, (a + b).len() as int) =~= b.subrange(
                    from,
                    b.len() as int,
                ));
            },
            Some(end) => {
                assert((a + b).subrange(a.len() + from, a.len() + end) =~= b.subrange(from, end));
                lemma_lines_from_behind(a, b, end + 1);
            },
        }
    }
}

/// The lines of a line, a line feed and more text are that line and the
/// lines of the text.
pub proof fn lemma_lines_of_first(line: Seq<char>, rest: Seq<char>)
    requires
        is_line(line),
    ensures
        lines_of(line + line_feed() + rest) == seq![line] + lines_of(rest),
{
    let text = line + line_feed() + rest;
    let end = line.len() as int;
    assert(text.subrange(end, end + 1) =~= line_feed());
    assert forall|p: int| 0 <= p < end implies !matches_at(text, line_feed(), p) by {
        assert(text.subrange(p, p + 1)[0] == line[p]);
    }
    lemma_find_from_is(text, line_feed(), 0, end);
    assert(text.subrange(0, end) =~= line);
    lemma_lines_from_behind(line + line_feed(), rest, 0);
}

/// A listing begins with its first line.
pub proof fn lemma_listing_first(files: Seq<Seq<char>>)
    requires
        files.len() > 0,
    ensures
        listing(files) == files.first() + line_feed() + listing(files.drop_first()),
    decreases files.len(),
{
    if files.len() == 1 {
        assert(listing(files.drop_last()) =~= Seq::<char>::empty());
    } else {
        lemma_listing_first(files.drop_last());
        assert(files.drop_last().drop_first() =~= files.drop_first().drop_last());
    }
}

/// What was listed line by line reads back line by line.
pub proof fn lemma_lines_of_listing(files: Seq<Seq<char>>)
    requires
        forall|i: int| 0 <= i < files.len() ==> is_line(#[trigger] files[i]),
    ensures
        lines_of(listing(files)) == files,
    decreases files.len(),
{
    if files.len() > 0 {
        lemma_listing_first(files);
        lemma_lines_of_first(files.first(), listing(files.drop_first()));
        assert forall|i: int| 0 <= i < files.drop_first().len() implies is_line(
            #[trigger] files.drop_first()[i],
        ) by {
            assert(files.drop_first()[i] == files[i + 1]);
        }
        lemma_lines_of_listing(files.drop_first());
    }
}

} // verus!
