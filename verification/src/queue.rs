//! The play queue as the player reports it: the request, the end of the
//! reply, and the scan that takes the file names out of the reply text.

use vstd::prelude::*;
use vstd::slice::slice_subrange;
use vstd::string::StringExecFns;
use crate::command::{encode_spec, frame_spec, mpv_json_command, MpvCommand, MpvCommandView};
use crate::text::{
    contains, find, find_from, lemma_find_from, lemma_find_from_behind, lemma_find_from_is,
    matches_at, push_string, string_of, to_chars,
};

verus! {

/// The message that asks the player for its queue.
pub fn queue_request() -> (message: String)
    ensures
        message@ == frame_spec(encode_spec(MpvCommandView::GetQueue)),
{
    mpv_json_command(MpvCommand::GetQueue)
}

/// The text by which a line of the reply reports success.
pub open spec fn success_marker() -> Seq<char> {
    "\"error\":\"success\""@
}

/// Whether the reply is at its end with `line`: the line reports success, or
/// it is empty, which is what a closed connection reads as.
pub open spec fn ends_reply(line: Seq<char>) -> bool {
    line.len() == 0 || contains(line, success_marker())
}

/// Adds a line that was read to the reply, and says whether the reply is at
/// its end with it.
pub fn accept_line(reply: &mut String, line: &str) -> (complete: bool)
    ensures
        final(reply)@ == old(reply)@ + line@,
        complete == ends_reply(line@),
{
    reply.append(line);
    let chars = to_chars(line);
    let marker = to_chars("\"error\":\"success\"");
    chars.len() == 0 || find(chars.as_slice(), marker.as_slice(), 0).is_some()
}

/// The text that announces a file name in a reply.
pub open spec fn filename_marker() -> Seq<char> {
    "\"filename\":"@
}

/// The double quote that ends a file name.
pub open spec fn closing_quote() -> Seq<char> {
    "\""@
}

/// How far behind the start of the marker a file name begins: behind the
/// marker and the one character that opens the quoted value.
pub open spec fn value_offset() -> nat {
    filename_marker().len() + 1
}

/// The file names announced in `text` at or after `start`, in order.
///
/// A name runs from behind its marker's opening quote up to the next double
/// quote; the scan goes on from that quote. It stops at the first marker whose
/// value is cut off.
pub open spec fn queue_from(text: Seq<char>, start: int) -> Seq<Seq<char>>
    decreases text.len() - start,
    via queue_from_decreases
{
    match find_from(text, filename_marker(), start) {
        None => Seq::empty(),
        Some(marker) => {
            let open = marker + value_offset();
            match find_from(text, closing_quote(), open) {
                None => Seq::empty(),
                Some(close) => seq![text.subrange(open, close)] + queue_from(text, close),
            }
        },
    }
}

#[via_fn]
proof fn queue_from_decreases(text: Seq<char>, start: int) {
    if start >= 0 {
        lemma_find_from(text, filename_marker(), start);
        if let Some(marker) = find_from(text, filename_marker(), start) {
            lemma_find_from(text, closing_quote(), marker + value_offset());
        }
    }
}

/// The queue that a reply announces.
pub open spec fn queue_of(text: Seq<char>) -> Seq<Seq<char>> {
    queue_from(text, 0)
}

/// A reply that holds no marker announces no file name: its queue is empty.
pub proof fn lemma_no_marker_no_queue(text: Seq<char>)
    requires
        !contains(text, filename_marker()),
    ensures
        queue_of(text) == Seq::<Seq<char>>::empty(),
{
}

/// No name of a queue holds a double quote: a name ends at the first one.
pub proof fn lemma_names_hold_no_quote(text: Seq<char>, start: int)
    requires
        0 <= start,
    ensures
        forall|i: int|
            0 <= i < queue_from(text, start).len() ==> !(#[trigger] queue_from(text, start)[i])
                .contains('"'),
    decreases text.len() - start,
{
    lemma_find_from(text, filename_marker(), start);
    if let Some(marker) = find_from(text, filename_marker(), start) {
        let open = marker + value_offset();
        lemma_find_from(text, closing_quote(), open);
        if let Some(close) = find_from(text, closing_quote(), open) {
            let name = text.subrange(open, close);
            lemma_names_hold_no_quote(text, close);
            assert forall|k: int| 0 <= k < name.len() implies name[k] != '"' by {
                reveal_strlit("\"");
                assert(!matches_at(text, closing_quote(), open + k));
                if name[k] == '"' {
                    assert(text.subrange(open + k, open + k + 1) =~= closing_quote());
                }
            }
            let all = queue_from(text, start);
            let rest = queue_from(text, close);
            assert forall|i: int| 0 <= i < all.len() implies !(#[trigger] all[i]).contains('"') by {
                if i > 0 {
                    assert(all[i] == rest[i - 1]);
                }
            }
        }
    }
}

/// What stands before the scan does not count: the queue behind the text `a`
/// is the queue of what stands behind it.
pub proof fn lemma_queue_from_behind(a: Seq<char>, b: Seq<char>, start: int)
    requires
        0 <= start,
    ensures
        queue_from(a + b, a.len() + start) == queue_from(b, start),
    decreases b.len() - start,
{
    lemma_find_from_behind(a, b, filename_marker(), start);
    lemma_find_from(b, filename_marker(), start);
    if let Some(marker) = find_from(b, filename_marker(), start) {
        let open = marker + value_offset();
        lemma_find_from_behind(a, b, closing_quote(), open);
        lemma_find_from(b, closing_quote(), open);
        if let Some(close) = find_from(b, closing_quote(), open) {
            assert((a + b).subrange(a.len() + open, a.len() + close) =~= b.subrange(open, close));
            lemma_queue_from_behind(a, b, close);
        }
    }
}

/// The field that announces the file `name`: the marker and the name between
/// double quotes.
pub open spec fn field(name: Seq<char>) -> Seq<char> {
    filename_marker() + closing_quote() + name + closing_quote()
}

/// The fields of `names`, each followed by its gap: the text up to the next
/// field.
pub open spec fn fields(names: Seq<Seq<char>>, gaps: Seq<Seq<char>>) -> Seq<char>
    decreases names.len(),
{
    if names.len() == 0 || gaps.len() == 0 {
        Seq::empty()
    } else {
        field(names.first()) + gaps.first() + fields(names.drop_first(), gaps.drop_first())
    }
}

/// Whether `text` holds nowhere a double quote with an `f` behind it, which
/// is how a marker begins.
pub open spec fn begins_no_marker(text: Seq<char>) -> bool {
    forall|i: int| 0 <= i < text.len() - 1 ==> !(text[i] == '"' && #[trigger] text[i + 1] == 'f')
}

/// Whether `gap` can stand between two fields without announcing a file of
/// its own: it begins no marker, and does not begin with an `f`.
pub open spec fn is_gap(gap: Seq<char>) -> bool {
    begins_no_marker(gap) && !(gap.len() > 0 && gap[0] == 'f')
}

/// Text that begins no marker holds none.
proof fn lemma_no_marker_in(text: Seq<char>, more: Seq<char>, from: int)
    requires
        begins_no_marker(text),
        0 <= from <= text.len(),
        more.len() == 0 || more[0] != 'f',
    ensures
        forall|p: int| from <= p < text.len() ==> !matches_at(text + more, filename_marker(), p),
{
    reveal_strlit("\"filename\":");
    assert forall|p: int| from <= p < text.len() implies !matches_at(
        text + more,
        filename_marker(),
        p,
    ) by {
        if matches_at(text + more, filename_marker(), p) {
            let cut = (text + more).subrange(p, p + filename_marker().len());
            assert(cut[0] == '"' && cut[1] == 'f');
            if p + 1 < text.len() {
                assert(text[p] == '"' && text[p + 1] == 'f');
            } else {
                assert(more[0] == 'f');
            }
        }
    }
}

/// A reply that announces the files `names` reads back as `names`: the text
/// `lead`, then for each name its field and a gap. The lead and the gaps may
/// hold anything that begins no marker; a name may hold anything but a double
/// quote.
pub proof fn lemma_fields_read_back(lead: Seq<char>, names: Seq<Seq<char>>, gaps: Seq<Seq<char>>)
    requires
        begins_no_marker(lead),
        names.len() == gaps.len(),
        forall|i: int| 0 <= i < names.len() ==> !(#[trigger] names[i]).contains('"'),
        forall|i: int| 0 <= i < gaps.len() ==> is_gap(#[trigger] gaps[i]),
    ensures
        queue_of(lead + fields(names, gaps)) == names,
    decreases names.len(),
{
    reveal_strlit("\"filename\":");
    reveal_strlit("\"");
    let marker = filename_marker();
    let quote = closing_quote();
    if names.len() == 0 {
        let text = lead + fields(names, gaps);
        lemma_no_marker_in(lead, Seq::<char>::empty(), 0);
        lemma_find_from(text, marker, 0);
    } else {
        let name = names.first();
        let gap = gaps.first();
        let rest = fields(names.drop_first(), gaps.drop_first());
        let more = field(name) + gap + rest;
        let text = lead + more;
        let at = lead.len() as int;
        let open = at + value_offset();
        let close = open + name.len();
        lemma_no_marker_in(lead, more, 0);
        assert(text.subrange(at, at + marker.len()) =~= marker);
        lemma_find_from_is(text, marker, 0, at);
        assert(text.subrange(close, close + 1) =~= quote);
        assert forall|p: int| open <= p < close implies !matches_at(text, quote, p) by {
            if matches_at(text, quote, p) {
                assert(text.subrange(p, p + 1)[0] == '"');
                assert(name.contains(name[p - open]));
            }
        }
        lemma_find_from_is(text, quote, open, close);
        assert(text.subrange(open, close) =~= name);
        let scanned = text.subrange(0, close);
        let next_lead = quote + gap;
        assert(text =~= scanned + (next_lead + rest));
        lemma_queue_from_behind(scanned, next_lead + rest, 0);
        assert(begins_no_marker(next_lead)) by {
            assert forall|i: int| 0 <= i < next_lead.len() - 1 implies !(next_lead[i] == '"'
                && #[trigger] next_lead[i + 1] == 'f') by {
                if i > 0 {
                    assert(next_lead[i] == gap[i - 1] && next_lead[i + 1] == gap[i - 1 + 1]);
                }
            }
        }
        assert forall|i: int| 0 <= i < names.drop_first().len() implies !(
        #[trigger] names.drop_first()[i]).contains('"') by {
            assert(names.drop_first()[i] == names[i + 1]);
        }
        assert forall|i: int| 0 <= i < gaps.drop_first().len() implies is_gap(
            #[trigger] gaps.drop_first()[i],
        ) by {
            assert(gaps.drop_first()[i] == gaps[i + 1]);
        }
        lemma_fields_read_back(next_lead, names.drop_first(), gaps.drop_first());
    }
}

/// Takes the queue out of a reply: every file name that the text announces,
/// in the order of the text, repeated names kept. A reply that announces none
/// gives the empty queue.
pub fn decode_queue(reply: &str) -> (queue: Vec<String>)
    ensures
        queue.deep_view() == queue_of(reply@),
{
    let text = to_chars(reply);
    let marker = to_chars("\"filename\":");
    let quote = to_chars("\"");
    let mut queue: Vec<String> = Vec::new();
    let total: usize = text.len();
    let mut start: usize = 0;
    loop
        invariant
            text@ == reply@,
            marker@ == filename_marker(),
            quote@ == closing_quote(),
            start <= text@.len() == total,
            queue_of(text@) == queue.deep_view() + queue_from(text@, start as int),
        ensures
            queue.deep_view() == queue_of(reply@),
        decreases text@.len() - start,
    {
        let Some(at) = find(text.as_slice(), marker.as_slice(), start) else {
            break;
        };
        proof {
            lemma_find_from(text@, marker@, start as int);
        }
        let end: usize = at + marker.len();
        if end >= total {
            break;
        }
        let open: usize = end + 1;
        let Some(close) = find(text.as_slice(), quote.as_slice(), open) else {
            break;
        };
        proof {
            lemma_find_from(text@, quote@, open as int);
        }
        let name = string_of(slice_subrange(text.as_slice(), open, close));
        push_string(&mut queue, name);
        start = close;
    }
    queue
}

} // verus!
