//! Incremental framing of a Server-Sent-Events byte stream.
//!
//! Network chunks are appended to a buffer; these functions find where the
//! first complete event ends, strip blank keep-alive lines and pull the
//! trimmed `data:` payload out of one event.

use crate::text::{
    chars_of, decode_utf8_lossy, matches_at, skip_white_space, skip_white_space_back, trim,
    trim_start, utf8_lossy,
};
use vstd::prelude::*;
use vstd::string::StrSliceExecFns;

verus! {

/// Line feed.
pub const LF: u8 = 10;

/// Carriage return.
pub const CR: u8 = 13;

/// Two line feeds start at index `i`.
pub open spec fn lf_lf_at(buf: Seq<u8>, i: int) -> bool {
    &&& 0 <= i
    &&& i + 1 < buf.len()
    &&& buf[i] == LF
    &&& buf[i + 1] == LF
}

/// The four bytes `\r\n\r\n` start at index `i`.
pub open spec fn crlf_crlf_at(buf: Seq<u8>, i: int) -> bool {
    &&& 0 <= i
    &&& i + 3 < buf.len()
    &&& buf[i] == CR
    &&& buf[i + 1] == LF
    &&& buf[i + 2] == CR
    &&& buf[i + 3] == LF
}

/// A blank-line separator (`\n\n` or `\r\n\r\n`) starts at index `i`.
pub open spec fn separator_at(buf: Seq<u8>, i: int) -> bool {
    lf_lf_at(buf, i) || crlf_crlf_at(buf, i)
}

/// Length of the separator that starts at `i`.
pub open spec fn separator_len(buf: Seq<u8>, i: int) -> int {
    if lf_lf_at(buf, i) {
        2
    } else {
        4
    }
}

/// `i` is the leftmost index at which a separator starts.
pub open spec fn first_separator_at(buf: Seq<u8>, i: int) -> bool {
    &&& separator_at(buf, i)
    &&& forall|j: int| 0 <= j < i ==> !separator_at(buf, j)
}

/// The buffer holds at least one complete event.
pub open spec fn has_separator(buf: Seq<u8>) -> bool {
    exists|i: int| separator_at(buf, i)
}

/// Offset just past the first separator: the split point between the first
/// complete event and the rest of the buffer. `None` while no event is complete.
pub open spec fn event_boundary(buf: Seq<u8>) -> Option<int> {
    if exists|i: int| first_separator_at(buf, i) {
        let i = choose|i: int| first_separator_at(buf, i);
        Some(i + separator_len(buf, i))
    } else {
        None
    }
}

/// The leftmost separator is unique, so `event_boundary` is the offset past it.
pub proof fn lemma_event_boundary_is(buf: Seq<u8>, i: int)
    requires
        first_separator_at(buf, i),
    ensures
        event_boundary(buf) == Some(i + separator_len(buf, i)),
{
    let k = choose|k: int| first_separator_at(buf, k);
    assert(first_separator_at(buf, k));
    if k < i {
        assert(!separator_at(buf, k));
    }
    if i < k {
        assert(!separator_at(buf, i));
    }
}

/// Without any separator there is no boundary.
pub proof fn lemma_event_boundary_none(buf: Seq<u8>)
    requires
        forall|i: int| !separator_at(buf, i),
    ensures
        event_boundary(buf) is None,
{
    if exists|i: int| first_separator_at(buf, i) {
        let k = choose|k: int| first_separator_at(buf, k);
        assert(separator_at(buf, k));
    }
}

/// Finds the first `\n\n` or `\r\n\r\n` and returns the offset just past it.
pub fn find_sse_event_boundary(buf: &[u8]) -> (r: Option<usize>)
    ensures
        r.is_some() == has_separator(buf@),
        match r {
            Some(p) => event_boundary(buf@) == Some(p as int) && 2 <= p <= buf@.len(),
            None => event_boundary(buf@) is None,
        },
{
    let n = buf.len();
    if n < 2 {
        proof {
            lemma_event_boundary_none(buf@);
        }
        return None;
    }
    let mut i: usize = 0;
    while i < n - 1
        invariant
            n == buf@.len(),
            2 <= n,
            i <= n - 1,
            forall|j: int| 0 <= j < i ==> !separator_at(buf@, j),
        decreases n - i,
    {
        if buf[i] == LF && buf[i + 1] == LF {
            proof {
                assert(lf_lf_at(buf@, i as int));
                lemma_event_boundary_is(buf@, i as int);
            }
            return Some(i + 2);
        }
        if n - i > 3 && buf[i] == CR && buf[i + 1] == LF && buf[i + 2] == CR && buf[i + 3] == LF {
            proof {
                assert(crlf_crlf_at(buf@, i as int));
                lemma_event_boundary_is(buf@, i as int);
            }
            return Some(i + 4);
        }
        i += 1;
    }
    proof {
        assert forall|j: int| !separator_at(buf@, j) by {
            if 0 <= j < i {
            }
        }
        lemma_event_boundary_none(buf@);
    }
    None
}

/// A boundary lies past the two bytes of the shortest separator and within the buffer.
pub proof fn lemma_event_boundary_bounds(buf: Seq<u8>)
    ensures
        event_boundary(buf) matches Some(p) ==> 2 <= p <= buf.len(),
{
    if exists|i: int| first_separator_at(buf, i) {
        let i = choose|i: int| first_separator_at(buf, i);
        assert(separator_at(buf, i));
    }
}

/// No more line breaks lead a buffer than it has bytes.
pub proof fn lemma_leading_line_breaks_bound(buf: Seq<u8>)
    ensures
        leading_line_breaks(buf) <= buf.len(),
    decreases buf.len(),
{
    if buf.len() > 0 && is_line_break(buf[0]) {
        lemma_leading_line_breaks_bound(buf.skip(1));
    }
}

/// A complete event keeps its boundary whatever bytes arrive after it: the
/// split point never moves and never reaches into the bytes that follow.
pub proof fn lemma_boundary_ignores_later_bytes(head: Seq<u8>, tail: Seq<u8>)
    requires
        event_boundary(head) is Some,
    ensures
        event_boundary(head + tail) == event_boundary(head),
        event_boundary(head)->0 <= head.len(),
{
    let whole = head + tail;
    let i = choose|i: int| first_separator_at(head, i);
    assert(first_separator_at(head, i));
    assert(forall|k: int| 0 <= k < head.len() ==> whole[k] == head[k]);
    assert(separator_at(whole, i));
    assert forall|j: int| 0 <= j < i implies !separator_at(whole, j) by {
        assert(!separator_at(head, j));
        if crlf_crlf_at(whole, j) {
            assert(j + 3 >= head.len());
            assert(lf_lf_at(head, i));
        }
    }
    assert(first_separator_at(whole, i));
    lemma_event_boundary_is(whole, i);
    lemma_event_boundary_is(head, i);
}

/// One event that ends in `\n\n`, followed by the start of the next one: the
/// boundary is the offset just past that `\n\n`, whatever the partial event holds.
pub proof fn lemma_single_event_then_partial(event: Seq<u8>, partial: Seq<u8>)
    requires
        lf_lf_at(event, event.len() - 2),
        forall|j: int| 0 <= j < event.len() - 2 ==> !separator_at(event, j),
    ensures
        event_boundary(event + partial) == Some(event.len() as int),
{
    lemma_event_boundary_is(event, event.len() - 2);
    lemma_boundary_ignores_later_bytes(event, partial);
}

/// The byte is a line feed or a carriage return.
pub open spec fn is_line_break(b: u8) -> bool {
    b == LF || b == CR
}

/// Number of line-break bytes at the front of the buffer.
pub open spec fn leading_line_breaks(buf: Seq<u8>) -> nat
    decreases buf.len(),
{
    if buf.len() > 0 && is_line_break(buf[0]) {
        1 + leading_line_breaks(buf.skip(1))
    } else {
        0
    }
}

/// `leading_line_breaks` is the one `n` with only line breaks before it and none at it.
pub proof fn lemma_leading_line_breaks_is(buf: Seq<u8>, n: int)
    requires
        0 <= n <= buf.len(),
        forall|i: int| 0 <= i < n ==> is_line_break(buf[i]),
        n < buf.len() ==> !is_line_break(buf[n]),
    ensures
        leading_line_breaks(buf) == n,
    decreases buf.len(),
{
    if n > 0 {
        let rest = buf.skip(1);
        assert(forall|i: int| 0 <= i < rest.len() ==> rest[i] == buf[i + 1]);
        lemma_leading_line_breaks_is(rest, n - 1);
    }
}

/// What `leading_line_breaks` counts: line breaks up to the count, and none at it.
pub proof fn lemma_leading_line_breaks_props(buf: Seq<u8>)
    ensures
        leading_line_breaks(buf) <= buf.len(),
        forall|i: int| 0 <= i < leading_line_breaks(buf) ==> is_line_break(buf[i]),
        leading_line_breaks(buf) < buf.len() ==> !is_line_break(
            buf[leading_line_breaks(buf) as int],
        ),
    decreases buf.len(),
{
    if buf.len() > 0 && is_line_break(buf[0]) {
        let rest = buf.skip(1);
        lemma_leading_line_breaks_props(rest);
        assert forall|i: int| 0 <= i < leading_line_breaks(buf) implies is_line_break(buf[i]) by {
            if i > 0 {
                assert(rest[i - 1] == buf[i]);
            }
        }
    }
}

/// Bytes that do not begin with a line break leave the count of leading line
/// breaks of what stands before them as it is.
pub proof fn lemma_leading_line_breaks_before(head: Seq<u8>, tail: Seq<u8>)
    requires
        tail.len() > 0 ==> !is_line_break(tail[0]),
    ensures
        leading_line_breaks(head + tail) == leading_line_breaks(head),
{
    lemma_leading_line_breaks_props(head);
    lemma_leading_line_breaks_is(head + tail, leading_line_breaks(head) as int);
}

/// Strips the `\n` and `\r` bytes at the front of the buffer in place and
/// returns how many were stripped.
pub fn consume_leading_newlines(buf: &mut Vec<u8>) -> (n: usize)
    ensures
        n == leading_line_breaks(old(buf)@),
        n <= old(buf)@.len(),
        final(buf)@ == old(buf)@.skip(n as int),
        forall|i: int| 0 <= i < n ==> is_line_break(old(buf)@[i]),
        final(buf)@.len() > 0 ==> !is_line_break(final(buf)@[0]),
{
    let mut n: usize = 0;
    while n < buf.len() && (buf[n] == LF || buf[n] == CR)
        invariant
            buf@ == old(buf)@,
            n <= buf@.len(),
            forall|i: int| 0 <= i < n ==> is_line_break(buf@[i]),
        decreases buf@.len() - n,
    {
        n += 1;
    }
    proof {
        lemma_leading_line_breaks_is(buf@, n as int);
    }
    if n > 0 {
        let rest = buf.split_off(n);
        *buf = rest;
    }
    n
}

/// Index of the first `\n` in `text`, or its length where it has none.
pub open spec fn line_end(text: Seq<char>) -> int
    decreases text.len(),
{
    if text.len() == 0 || text[0] == '\n' {
        0
    } else {
        1 + line_end(text.skip(1))
    }
}

/// The first line of `text`, without its terminator. A `\r` is dropped only
/// where it stands directly before the terminating `\n`.
pub open spec fn first_line(text: Seq<char>) -> Seq<char> {
    let k = line_end(text);
    if k < text.len() && k > 0 && text[k - 1] == '\r' {
        text.take(k - 1)
    } else {
        text.take(k)
    }
}

/// What follows the first line and its terminator.
pub open spec fn after_first_line(text: Seq<char>) -> Seq<char> {
    let k = line_end(text);
    if k < text.len() {
        text.skip(k + 1)
    } else {
        text.skip(k)
    }
}

/// The field name that introduces a payload line, colon included.
pub open spec fn data_prefix() -> Seq<char> {
    seq!['d', 'a', 't', 'a', ':']
}

/// The payload of one line: what follows `data:`, without the white space
/// around it. White space may stand before the field name. `None` for any
/// other line.
pub open spec fn data_field(line: Seq<char>) -> Option<Seq<char>> {
    let field = trim_start(line);
    if data_prefix().is_prefix_of(field) {
        Some(trim(field.skip(5)))
    } else {
        None
    }
}

/// The payload of the last line of `text` that carries a `data:` field.
pub open spec fn sse_data(text: Seq<char>) -> Option<Seq<char>>
    decreases text.len(),
{
    if text.len() == 0 {
        None
    } else {
        proof {
            lemma_line_end_bound(text);
        }
        match sse_data(after_first_line(text)) {
            Some(later) => Some(later),
            None => data_field(first_line(text)),
        }
    }
}

/// `line_end` is the one `k` with no `\n` before it and a `\n`, or the end, at it.
pub proof fn lemma_line_end_is(text: Seq<char>, k: int)
    requires
        0 <= k <= text.len(),
        forall|i: int| 0 <= i < k ==> text[i] != '\n',
        k < text.len() ==> text[k] == '\n',
    ensures
        line_end(text) == k,
    decreases text.len(),
{
    if k > 0 {
        let rest = text.skip(1);
        assert(forall|i: int| 0 <= i < rest.len() ==> rest[i] == text[i + 1]);
        lemma_line_end_is(rest, k - 1);
    }
}

/// The end of the first line lies within the text.
pub proof fn lemma_line_end_bound(text: Seq<char>)
    ensures
        0 <= line_end(text) <= text.len(),
    decreases text.len(),
{
    if !(text.len() == 0 || text[0] == '\n') {
        lemma_line_end_bound(text.skip(1));
    }
}

/// Where the payload of the line `from..to` stands, if the line carries one.
fn data_range(chars: &[char], from: usize, to: usize) -> (r: Option<(usize, usize)>)
    requires
        from <= to <= chars@.len(),
    ensures
        match r {
            Some((a, b)) => from <= a <= b <= to && data_field(
                chars@.subrange(from as int, to as int),
            ) == Some(chars@.subrange(a as int, b as int)),
            None => data_field(chars@.subrange(from as int, to as int)) is None,
        },
{
    let ghost line = chars@.subrange(from as int, to as int);
    let prefix: [char; 5] = ['d', 'a', 't', 'a', ':'];
    assert(prefix@ =~= data_prefix());
    let p = skip_white_space(chars, from, to);
    let ghost field = chars@.subrange(p as int, to as int);
    assert(trim_start(line) =~= field);
    if !matches_at(chars, p, to, prefix.as_slice()) {
        return None;
    }
    let q = skip_white_space(chars, p + 5, to);
    let e = skip_white_space_back(chars, q, to);
    proof {
        let rest = chars@.subrange(p + 5, to as int);
        assert(field.skip(5) =~= rest);
        let front = chars@.subrange(q as int, to as int);
        assert(trim_start(rest) =~= front);
        assert(front.take(front.len() - (to - e)) =~= chars@.subrange(q as int, e as int));
    }
    Some((q, e))
}

/// Extracts the payload of the last `data:` line of an event given as text.
pub fn extract_data_from_text(text: &str) -> (r: Option<String>)
    ensures
        r is Some == sse_data(text@) is Some,
        r matches Some(payload) ==> sse_data(text@) == Some(payload@),
{
    let chars = chars_of(text);
    let len = chars.len();
    let mut found: Option<(usize, usize)> = None;
    let mut start: usize = 0;
    assert(text@.skip(0) =~= text@);
    while start < len
        invariant
            chars@ == text@,
            len == chars@.len(),
            start <= len,
            found matches Some((a, b)) ==> a <= b <= len,
            sse_data(text@) == (match sse_data(text@.skip(start as int)) {
                Some(later) => Some(later),
                None => match found {
                    Some((a, b)) => Some(text@.subrange(a as int, b as int)),
                    None => None,
                },
            }),
        decreases len - start,
    {
        let ghost rest = text@.skip(start as int);
        let mut end: usize = start;
        while end < len && chars[end] != '\n'
            invariant
                chars@ == text@,
                len == chars@.len(),
                start <= end <= len,
                forall|i: int| start <= i < end ==> text@[i] != '\n',
            decreases len - end,
        {
            end += 1;
        }
        proof {
            lemma_line_end_is(rest, end - start);
        }
        let next: usize = if end < len {
            end + 1
        } else {
            end
        };
        let stop: usize = if end < len && end > start && chars[end - 1] == '\r' {
            end - 1
        } else {
            end
        };
        let ghost line = text@.subrange(start as int, stop as int);
        proof {
            assert(first_line(rest) =~= line);
            assert(after_first_line(rest) =~= text@.skip(next as int));
        }
        match data_range(chars.as_slice(), start, stop) {
            Some(range) => {
                found = Some(range);
            },
            None => {},
        }
        start = next;
    }
    match found {
        Some((a, b)) => Some(text.substring_char(a, b).to_owned()),
        None => None,
    }
}

/// Extracts the payload of the last `data:` line of one event. The bytes are
/// read as UTF-8, malformed stretches replaced; an event without a `data:`
/// line (a comment or a keep-alive) gives `None`.
pub fn extract_sse_data(ev_bytes: &[u8]) -> (r: Option<String>)
    ensures
        r is Some == sse_data(utf8_lossy(ev_bytes@)) is Some,
        r matches Some(payload) ==> sse_data(utf8_lossy(ev_bytes@)) == Some(payload@),
{
    let text = decode_utf8_lossy(ev_bytes);
    extract_data_from_text(text.as_str())
}

/// What `line_end` returns: no `\n` before it, and a `\n` or the end at it.
pub proof fn lemma_line_end_props(text: Seq<char>)
    ensures
        0 <= line_end(text) <= text.len(),
        forall|i: int| 0 <= i < line_end(text) ==> text[i] != '\n',
        line_end(text) < text.len() ==> text[line_end(text)] == '\n',
    decreases text.len(),
{
    if !(text.len() == 0 || text[0] == '\n') {
        let rest = text.skip(1);
        lemma_line_end_props(rest);
        assert forall|i: int| 0 <= i < line_end(text) implies text[i] != '\n' by {
            if i > 0 {
                assert(rest[i - 1] == text[i]);
            }
        }
    }
}

/// After text that ends a line, the payload of what follows wins; the earlier
/// text matters only where what follows carries no `data:` line.
pub proof fn lemma_sse_data_concat(head: Seq<char>, tail: Seq<char>)
    requires
        head.len() == 0 || head.last() == '\n',
    ensures
        sse_data(head + tail) == (match sse_data(tail) {
            Some(later) => Some(later),
            None => sse_data(head),
        }),
    decreases head.len(),
{
    let whole = head + tail;
    if head.len() == 0 {
        assert(whole =~= tail);
    } else {
        lemma_line_end_props(head);
        let k = line_end(head);
        assert(k < head.len());
        assert(forall|i: int| 0 <= i < head.len() ==> whole[i] == head[i]);
        lemma_line_end_is(whole, k);
        assert(first_line(whole) =~= first_line(head));
        let rest = after_first_line(head);
        assert(after_first_line(whole) =~= rest + tail);
        assert(rest.len() > 0 ==> rest.last() == head.last());
        lemma_sse_data_concat(rest, tail);
    }
}

/// The last `data:` line gives the payload, whatever lines stand before it.
pub proof fn lemma_last_data_line_wins(head: Seq<char>, line: Seq<char>)
    requires
        head.len() == 0 || head.last() == '\n',
        forall|i: int| 0 <= i < line.len() ==> line[i] != '\n',
        line.len() > 0 ==> line.last() != '\r',
        data_field(line) is Some,
    ensures
        sse_data(head + (line + seq!['\n'])) == data_field(line),
        sse_data(head + line) == data_field(line),
{
    let closed = line + seq!['\n'];
    lemma_line_end_is(closed, line.len() as int);
    assert(first_line(closed) =~= line);
    assert(after_first_line(closed) =~= Seq::<char>::empty());
    assert(sse_data(Seq::<char>::empty()) is None);
    assert(sse_data(closed) == data_field(line));
    lemma_sse_data_concat(head, closed);
    assert(line.len() > 0) by {
        if line.len() == 0 {
            assert(trim_start(line) =~= line);
        }
    }
    lemma_line_end_is(line, line.len() as int);
    assert(first_line(line) =~= line);
    assert(after_first_line(line) =~= Seq::<char>::empty());
    assert(sse_data(line) == data_field(line));
    lemma_sse_data_concat(head, line);
}

} // verus!
