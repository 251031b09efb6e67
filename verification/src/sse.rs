//! Framing of a server-sent-event stream: text arrives in arbitrary
//! pieces, complete events end at a blank line, and each `data:` line of
//! an event carries one payload.
use vstd::prelude::*;
use vstd::string::*;
use std::collections::VecDeque;
use crate::text::{is_white_space, char_is_whitespace, chars_of, string_from_chars, str_eq};

verus! {

// ---------------------------------------------------------------------
// Specification
// ---------------------------------------------------------------------

/// Whether a blank line ("\n\n") starts at position `i` of `s`.
pub open spec fn blank_line_at(s: Seq<char>, i: int) -> bool {
    0 <= i && i + 1 < s.len() && s[i] == '\n' && s[i + 1] == '\n'
}

/// The first position at or after `i` where a blank line starts.
pub open spec fn first_blank_line_from(s: Seq<char>, i: int) -> Option<int>
    decreases s.len() - i,
{
    if i < 0 || i + 1 >= s.len() {
        None
    } else if blank_line_at(s, i) {
        Some(i)
    } else {
        first_blank_line_from(s, i + 1)
    }
}

/// The first position at or after `i` where a newline stands.
pub open spec fn first_newline_from(s: Seq<char>, i: int) -> Option<int>
    decreases s.len() - i,
{
    if i < 0 || i >= s.len() {
        None
    } else if s[i] == '\n' {
        Some(i)
    } else {
        first_newline_from(s, i + 1)
    }
}

/// A blank line found from `i` lies at or after `i`.
pub proof fn lemma_first_blank_line_bounds(s: Seq<char>, i: int)
    ensures
        first_blank_line_from(s, i) matches Some(p) ==> i <= p && blank_line_at(s, p),
    decreases s.len() - i,
{
    if !(i < 0 || i + 1 >= s.len()) && !blank_line_at(s, i) {
        lemma_first_blank_line_bounds(s, i + 1);
    }
}

/// A newline found from `i` lies at or after `i`, inside `s`.
pub proof fn lemma_first_newline_bounds(s: Seq<char>, i: int)
    ensures
        first_newline_from(s, i) matches Some(k) ==> i <= k < s.len() && s[k] == '\n',
    decreases s.len() - i,
{
    if !(i < 0 || i >= s.len()) && s[i] != '\n' {
        lemma_first_newline_bounds(s, i + 1);
    }
}

/// The complete events of `s` (each ending with its blank line) and the
/// unfinished rest.
pub open spec fn split_events(s: Seq<char>) -> (Seq<Seq<char>>, Seq<char>)
    decreases s.len(),
{
    match first_blank_line_from(s, 0) {
        Some(p) => {
            proof {
                lemma_first_blank_line_bounds(s, 0);
            }
            let (events, rest) = split_events(s.skip(p + 2));
            (seq![s.take(p + 2)] + events, rest)
        },
        None => (Seq::empty(), s),
    }
}

/// The lines of `s`, split at newlines; a final newline ends the last line.
pub open spec fn lines_of(s: Seq<char>) -> Seq<Seq<char>>
    decreases s.len(),
{
    match first_newline_from(s, 0) {
        Some(k) => {
            proof {
                lemma_first_newline_bounds(s, 0);
            }
            seq![s.take(k)] + lines_of(s.skip(k + 1))
        },
        None => if s.len() == 0 {
            Seq::empty()
        } else {
            seq![s]
        },
    }
}

/// `s` without its trailing carriage returns.
pub open spec fn strip_trailing_cr(s: Seq<char>) -> Seq<char>
    decreases s.len(),
{
    if s.len() > 0 && s.last() == '\r' {
        strip_trailing_cr(s.drop_last())
    } else {
        s
    }
}

/// `s` without its leading whitespace.
pub open spec fn trim_start(s: Seq<char>) -> Seq<char>
    decreases s.len(),
{
    if s.len() > 0 && is_white_space(s[0]) {
        trim_start(s.drop_first())
    } else {
        s
    }
}

/// `s` without its trailing whitespace.
pub open spec fn trim_end(s: Seq<char>) -> Seq<char>
    decreases s.len(),
{
    if s.len() > 0 && is_white_space(s.last()) {
        trim_end(s.drop_last())
    } else {
        s
    }
}

/// The payload of a line: what follows `data:`, trimmed of whitespace.
pub open spec fn line_payload(line: Seq<char>) -> Option<Seq<char>> {
    let l = strip_trailing_cr(line);
    if l.len() >= 5 && l.take(5) == "data:"@ {
        Some(trim_end(trim_start(l.skip(5))))
    } else {
        None
    }
}

/// The payloads of the lines, in order.
pub open spec fn payloads_of_lines(lines: Seq<Seq<char>>) -> Seq<Seq<char>>
    decreases lines.len(),
{
    if lines.len() == 0 {
        Seq::empty()
    } else {
        match line_payload(lines[0]) {
            Some(p) => seq![p] + payloads_of_lines(lines.drop_first()),
            None => payloads_of_lines(lines.drop_first()),
        }
    }
}

/// The payloads of the events, in order.
pub open spec fn payloads_of_events(events: Seq<Seq<char>>) -> Seq<Seq<char>>
    decreases events.len(),
{
    if events.len() == 0 {
        Seq::empty()
    } else {
        payloads_of_lines(lines_of(events[0])) + payloads_of_events(events.drop_first())
    }
}

/// What the stream consumer is handed next.
#[derive(Debug, Clone, PartialEq, Eq)]
pub enum SsePoll {
    /// A payload to parse.
    Data(String),
    /// Nothing is pending: more input is needed.
    NeedInput,
    /// The stream is over.
    Finished,
}

/// Abstract value of an [`SsePoll`].
pub enum SsePollView {
    Data(Seq<char>),
    NeedInput,
    Finished,
}

impl DeepView for SsePoll {
    type V = SsePollView;

    open spec fn deep_view(&self) -> SsePollView {
        match self {
            SsePoll::Data(d) => SsePollView::Data(d@),
            SsePoll::NeedInput => SsePollView::NeedInput,
            SsePoll::Finished => SsePollView::Finished,
        }
    }
}

/// Taking the next payload from the pending ones: `[DONE]` marks the end
/// and empty payloads are skipped; returns what is handed out, the
/// pending payloads left, and whether the end was seen.
pub open spec fn poll_pending(pending: Seq<Seq<char>>, done: bool) -> (SsePollView, Seq<Seq<char>>, bool)
    decreases pending.len(),
{
    if pending.len() == 0 {
        (if done { SsePollView::Finished } else { SsePollView::NeedInput }, pending, done)
    } else if pending[0] == "[DONE]"@ {
        poll_pending(pending.drop_first(), true)
    } else if pending[0].len() == 0 {
        poll_pending(pending.drop_first(), done)
    } else {
        (SsePollView::Data(pending[0]), pending.drop_first(), done)
    }
}

/// The payloads that polling hands out, in order: every pending payload
/// but the empty ones and the `[DONE]` markers.
pub open spec fn handed_out(pending: Seq<Seq<char>>) -> Seq<Seq<char>>
    decreases pending.len(),
{
    if pending.len() == 0 {
        Seq::empty()
    } else if pending[0] == "[DONE]"@ || pending[0].len() == 0 {
        handed_out(pending.drop_first())
    } else {
        seq![pending[0]] + handed_out(pending.drop_first())
    }
}

/// Whether `[DONE]` is among the pending payloads.
pub open spec fn done_marked(pending: Seq<Seq<char>>) -> bool {
    exists|i: int| 0 <= i < pending.len() && pending[i] == "[DONE]"@
}

/// Polling hands out the first payload still to be handed out and keeps
/// the others for later; when there is none, nothing is left pending and
/// the answer is `Finished` exactly when the end was seen.
pub proof fn lemma_poll_hands_out(pending: Seq<Seq<char>>, done: bool)
    ensures
        ({
            let (v, rest, d) = poll_pending(pending, done);
            &&& v matches SsePollView::Data(x) ==> handed_out(pending) == seq![x] + handed_out(rest)
            &&& !(v is Data) ==> handed_out(pending) == Seq::<Seq<char>>::empty() && rest
                == Seq::<Seq<char>>::empty() && (v is Finished <==> (done || done_marked(pending)))
            &&& (d <==> (done || (!(v is Data) && done_marked(pending)) || (v is Data && d)))
        }),
    decreases pending.len(),
{
    if pending.len() > 0 {
        lemma_poll_hands_out(pending.drop_first(), done || pending[0] == "[DONE]"@);
        let rest = pending.drop_first();
        if done_marked(rest) {
            let i = choose|i: int| 0 <= i < rest.len() && rest[i] == "[DONE]"@;
            assert(pending[i + 1] == rest[i]);
        }
        if done_marked(pending) && pending[0] != "[DONE]"@ {
            let i = choose|i: int| 0 <= i < pending.len() && pending[i] == "[DONE]"@;
            assert(rest[i - 1] == pending[i]);
        }
    }
}

/// What two runs of payloads hand out is what each hands out, in order.
pub proof fn lemma_handed_out_append(a: Seq<Seq<char>>, b: Seq<Seq<char>>)
    ensures
        handed_out(a + b) == handed_out(a) + handed_out(b),
    decreases a.len(),
{
    if a.len() == 0 {
        assert(a + b == b);
    } else {
        lemma_handed_out_append(a.drop_first(), b);
        assert((a + b).drop_first() == a.drop_first() + b);
        assert((a + b)[0] == a[0]);
        if !(a[0] == "[DONE]"@ || a[0].len() == 0) {
            assert(seq![a[0]] + handed_out(a.drop_first()) + handed_out(b) == seq![a[0]] + (handed_out(
                a.drop_first(),
            ) + handed_out(b)));
        }
    }
}

// ---------------------------------------------------------------------
// The decoder
// ---------------------------------------------------------------------

/// Incremental state for parsing an SSE text stream into complete `data:`
/// payloads, since pieces can split lines (or even a single line)
/// arbitrarily.
pub struct SseDecoder {
    buf: Vec<char>,
    pending: VecDeque<String>,
    done: bool,
}

impl SseDecoder {
    /// Text received but not yet part of a complete event.
    pub closed spec fn buffered(&self) -> Seq<char> {
        self.buf@
    }

    /// Payloads extracted but not yet handed out.
    pub closed spec fn pending(&self) -> Seq<Seq<char>> {
        self.pending@.map_values(|s: String| s@)
    }

    /// Whether the end of the stream has been seen.
    pub closed spec fn is_done(&self) -> bool {
        self.done
    }

    /// The buffered text holds no complete event.
    pub open spec fn wf(&self) -> bool {
        first_blank_line_from(self.buffered(), 0) is None
    }

    /// A decoder that has received nothing.
    pub fn new() -> (r: Self)
        ensures
            r.wf(),
            r.buffered() == Seq::<char>::empty(),
            r.pending() == Seq::<Seq<char>>::empty(),
            !r.is_done(),
    {
        let r = SseDecoder { buf: Vec::new(), pending: VecDeque::new(), done: false };
        assert(r.pending() =~= Seq::<Seq<char>>::empty());
        r
    }

    /// Takes in a piece of the stream: the complete events of the buffered
    /// text followed by `text` yield their payloads, and the unfinished
    /// rest stays buffered.
    pub fn feed(&mut self, text: &str)
        requires
            old(self).wf(),
        ensures
            final(self).wf(),
            final(self).buffered() == split_events(old(self).buffered() + text@).1,
            final(self).pending() == old(self).pending() + payloads_of_events(
                split_events(old(self).buffered() + text@).0,
            ),
            handed_out(final(self).pending()) == handed_out(old(self).pending()) + handed_out(
                payloads_of_events(split_events(old(self).buffered() + text@).0),
            ),
            final(self).is_done() == old(self).is_done(),
    {
        proof {
            lemma_handed_out_append(
                self.pending(),
                payloads_of_events(split_events(self.buffered() + text@).0),
            );
        }
        let ghost total = self.buf@ + text@;
        let ghost old_pending = self.pending();
        let mut incoming = chars_of(text);
        self.buf.append(&mut incoming);
        assert(self.buf@ == total);
        loop
            invariant
                self.done == old(self).done,
                split_events(self.buf@).1 == split_events(total).1,
                old_pending + payloads_of_events(split_events(total).0) == self.pending()
                    + payloads_of_events(split_events(self.buf@).0),
            ensures
                self.done == old(self).done,
                first_blank_line_from(self.buf@, 0) is None,
                split_events(self.buf@).1 == split_events(total).1,
                old_pending + payloads_of_events(split_events(total).0) == self.pending()
                    + payloads_of_events(split_events(self.buf@).0),
            decreases self.buf@.len(),
        {
            match find_blank_line(&self.buf) {
                None => {
                    break;
                },
                Some(pos) => {
                    proof {
                        lemma_first_blank_line_bounds(self.buf@, 0);
                    }
                    let ghost b = self.buf@;
                    let mut event = self.buf.split_off(pos + 2);
                    std::mem::swap(&mut event, &mut self.buf);
                    assert(event@ == b.take(pos + 2));
                    assert(self.buf@ == b.skip(pos + 2));
                    let ghost before = self.pending();
                    push_event_payloads(&event, &mut self.pending);
                    assert(payloads_of_events(split_events(b).0) == payloads_of_lines(
                        lines_of(event@),
                    ) + payloads_of_events(split_events(self.buf@).0)) by {
                        let evs = split_events(b).0;
                        assert(evs[0] == event@);
                        assert(evs.drop_first() == split_events(self.buf@).0);
                    }
                    assert(before + payloads_of_lines(lines_of(event@)) + payloads_of_events(
                        split_events(self.buf@).0,
                    ) == before + (payloads_of_lines(lines_of(event@)) + payloads_of_events(
                        split_events(self.buf@).0,
                    )));
                },
            }
        }
        assert(split_events(self.buf@).0 == Seq::<Seq<char>>::empty());
        assert(self.pending() + Seq::<Seq<char>>::empty() == self.pending());
    }

    /// Marks the end of the stream (the input ended or failed).
    pub fn finish(&mut self)
        ensures
            final(self).is_done(),
            final(self).buffered() == old(self).buffered(),
            final(self).pending() == old(self).pending(),
    {
        self.done = true;
    }

    /// Hands out the next payload: `[DONE]` marks the end and empty
    /// payloads are skipped; with nothing pending, says whether the
    /// stream is over or more input is needed.
    pub fn next_payload(&mut self) -> (r: SsePoll)
        requires
            old(self).wf(),
        ensures
            final(self).wf(),
            final(self).buffered() == old(self).buffered(),
            (r.deep_view(), final(self).pending(), final(self).is_done()) == poll_pending(
                old(self).pending(),
                old(self).is_done(),
            ),
            r.deep_view() matches SsePollView::Data(x) ==> handed_out(old(self).pending()) == seq![x]
                + handed_out(final(self).pending()),
            !(r is Data) ==> handed_out(old(self).pending()) == Seq::<Seq<char>>::empty()
                && final(self).pending() == Seq::<Seq<char>>::empty(),
            r is Finished <==> (!(r is Data) && (old(self).is_done() || done_marked(old(self).pending()))),
    {
        proof {
            lemma_poll_hands_out(self.pending(), self.done);
        }
        loop
            invariant
                ({
                    let (v, rest, d) = poll_pending(old(self).pending(), old(self).done);
                    &&& v matches SsePollView::Data(x) ==> handed_out(old(self).pending()) == seq![x]
                        + handed_out(rest)
                    &&& !(v is Data) ==> handed_out(old(self).pending()) == Seq::<Seq<char>>::empty()
                        && rest == Seq::<Seq<char>>::empty() && (v is Finished <==> (old(self).done
                        || done_marked(old(self).pending())))
                }),
                self.buf@ == old(self).buf@,
                self.wf(),
                poll_pending(self.pending(), self.done) == poll_pending(
                    old(self).pending(),
                    old(self).done,
                ),
            decreases self.pending@.len(),
        {
            let ghost p = self.pending();
            match self.pending.pop_front() {
                Some(data) => {
                    assert(p[0] == data@);
                    assert(self.pending() == p.drop_first());
                    if str_eq(data.as_str(), "[DONE]") {
                        self.done = true;
                        continue ;
                    }
                    if data.as_str().is_empty() {
                        continue ;
                    }
                    return SsePoll::Data(data);
                },
                None => {
                    if self.done {
                        return SsePoll::Finished;
                    }
                    return SsePoll::NeedInput;
                },
            }
        }
    }
}

/// The position of the first blank line of `buf`.
fn find_blank_line(buf: &Vec<char>) -> (r: Option<usize>)
    ensures
        r matches Some(p) ==> p + 1 < buf.len(),
        match r {
            Some(p) => first_blank_line_from(buf@, 0) == Some(p as int),
            None => first_blank_line_from(buf@, 0) is None,
        },
{
    let mut i: usize = 0;
    while buf.len() > 0 && i < buf.len() - 1
        invariant
            first_blank_line_from(buf@, i as int) == first_blank_line_from(buf@, 0),
        decreases buf.len() - i,
    {
        if buf[i] == '\n' && buf[i + 1] == '\n' {
            return Some(i);
        }
        i = i + 1;
    }
    None
}

/// The position of the first newline of `buf` at or after `from`.
fn find_newline(buf: &Vec<char>, from: usize) -> (r: Option<usize>)
    requires
        from <= buf.len(),
    ensures
        match r {
            Some(k) => first_newline_from(buf@, from as int) == Some(k as int),
            None => first_newline_from(buf@, from as int) is None,
        },
{
    let mut i: usize = from;
    while i < buf.len()
        invariant
            from <= i <= buf.len(),
            first_newline_from(buf@, i as int) == first_newline_from(buf@, from as int),
        decreases buf.len() - i,
    {
        if buf[i] == '\n' {
            return Some(i);
        }
        i = i + 1;
    }
    None
}

proof fn lemma_first_newline_shift(s: Seq<char>, start: int, i: int)
    requires
        0 <= start <= i,
        start <= s.len(),
    ensures
        first_newline_from(s, i) == match first_newline_from(s.skip(start), i - start) {
            Some(k) => Some(k + start),
            None => None,
        },
    decreases s.len() - i,
{
    if 0 <= i < s.len() {
        assert(s.skip(start)[i - start] == s[i]);
        if s[i] != '\n' {
            lemma_first_newline_shift(s, start, i + 1);
        }
    }
}

/// Appends the payloads of the event's lines to `pending`.
fn push_event_payloads(event: &Vec<char>, pending: &mut VecDeque<String>)
    ensures
        final(pending)@.map_values(|s: String| s@) == old(pending)@.map_values(|s: String| s@)
            + payloads_of_lines(lines_of(event@)),
{
    let ghost ev = event@;
    let ghost base = old(pending)@.map_values(|s: String| s@);
    let mut start: usize = 0;
    assert(ev.skip(0) == ev);
    loop
        invariant_except_break
            base + payloads_of_lines(lines_of(ev)) == pending@.map_values(|s: String| s@)
                + payloads_of_lines(lines_of(ev.skip(start as int))),
        invariant
            start <= event.len(),
            ev == event@,
            base == old(pending)@.map_values(|s: String| s@),
        ensures
            pending@.map_values(|s: String| s@) == base + payloads_of_lines(lines_of(ev)),
        decreases event.len() - start,
    {
        let ghost rest = ev.skip(start as int);
        proof {
            lemma_first_newline_shift(ev, start as int, start as int);
            lemma_first_newline_bounds(ev, start as int);
        }
        let ghost before = pending@.map_values(|s: String| s@);
        match find_newline(event, start) {
            Some(k) => {
                let line = line_payload_of(event, start, k);
                assert(rest.take(k - start) == ev.subrange(start as int, k as int));
                assert(rest.skip(k - start + 1) == ev.skip(k + 1));
                assert(lines_of(rest) == seq![ev.subrange(start as int, k as int)] + lines_of(
                    ev.skip(k + 1),
                ));
                let ghost ls = lines_of(rest);
                assert(ls[0] == ev.subrange(start as int, k as int));
                assert(ls.drop_first() == lines_of(ev.skip(k + 1)));
                match line {
                    Some(p) => {
                        pending.push_back(p);
                        assert(pending@.map_values(|s: String| s@) == before.push(
                            line_payload(ev.subrange(start as int, k as int))->0,
                        ));
                    },
                    None => {},
                }
                assert(before + payloads_of_lines(ls) == pending@.map_values(|s: String| s@)
                    + payloads_of_lines(lines_of(ev.skip(k + 1))));
                start = k + 1;
            },
            None => {
                if start < event.len() {
                    let line = line_payload_of(event, start, event.len());
                    assert(lines_of(rest) == seq![rest]);
                    assert(ev.subrange(start as int, ev.len() as int) == rest);
                    let ghost ls = lines_of(rest);
                    assert(ls.drop_first() == Seq::<Seq<char>>::empty());
                    match line {
                        Some(p) => {
                            pending.push_back(p);
                            assert(pending@.map_values(|s: String| s@) == before.push(
                                line_payload(rest)->0,
                            ));
                        },
                        None => {},
                    }
                } else {
                    assert(rest.len() == 0);
                    assert(lines_of(rest) == Seq::<Seq<char>>::empty());
                }
                assert(payloads_of_lines(Seq::<Seq<char>>::empty()) == Seq::<Seq<char>>::empty());
                break;
            },
        }
    }
}

/// The payload of the line `event[start..end]`, when it is a `data:` line.
fn line_payload_of(event: &Vec<char>, start: usize, end: usize) -> (r: Option<String>)
    requires
        start <= end <= event.len(),
    ensures
        r.deep_view() == line_payload(event@.subrange(start as int, end as int)),
{
    let ghost line = event@.subrange(start as int, end as int);
    let mut e = end;
    while e > start
        invariant
            start <= e <= end,
            end <= event.len(),
            strip_trailing_cr(event@.subrange(start as int, e as int)) == strip_trailing_cr(line),
        ensures
            start <= e <= end,
            strip_trailing_cr(event@.subrange(start as int, e as int)) == strip_trailing_cr(line),
            e == start || event@[e - 1] != '\r',
        decreases e,
    {
        if event[e - 1] != '\r' {
            break;
        }
        assert(event@.subrange(start as int, e as int).drop_last() == event@.subrange(
            start as int,
            e - 1,
        ));
        e = e - 1;
    }
    let ghost l = event@.subrange(start as int, e as int);
    assert(strip_trailing_cr(l) == l);
    assert(forall|k: int| 0 <= k < l.len() ==> l[k] == event@[start + k]);
    proof {
        reveal_strlit("data:");
    }
    if e - start < 5 || event[start] != 'd' || event[start + 1] != 'a' || event[start + 2] != 't'
        || event[start + 3] != 'a' || event[start + 4] != ':' {
        assert(!(l.len() >= 5 && l.take(5) == "data:"@)) by {
            if l.len() >= 5 && l.take(5) == "data:"@ {
                assert(l.take(5)[0] == 'd');
                assert(l.take(5)[1] == 'a');
                assert(l.take(5)[2] == 't');
                assert(l.take(5)[3] == 'a');
                assert(l.take(5)[4] == ':');
            }
        }
        return None;
    }
    assert(l.take(5) =~= "data:"@);
    assert(l.skip(5) == event@.subrange(start + 5, e as int));
    let mut a = start + 5;
    while a < e
        invariant
            start + 5 <= a <= e,
            e <= event.len(),
            trim_start(event@.subrange(a as int, e as int)) == trim_start(l.skip(5)),
        ensures
            start + 5 <= a <= e,
            trim_start(event@.subrange(a as int, e as int)) == trim_start(l.skip(5)),
            a == e || !is_white_space(event@[a as int]),
        decreases e - a,
    {
        if !char_is_whitespace(event[a]) {
            break;
        }
        assert(event@.subrange(a as int, e as int).drop_first() == event@.subrange(a + 1, e as int));
        a = a + 1;
    }
    assert(trim_start(event@.subrange(a as int, e as int)) == event@.subrange(a as int, e as int));
    let mut b = e;
    while b > a
        invariant
            a <= b <= e,
            e <= event.len(),
            trim_end(event@.subrange(a as int, b as int)) == trim_end(trim_start(l.skip(5))),
        ensures
            a <= b <= e,
            trim_end(event@.subrange(a as int, b as int)) == trim_end(trim_start(l.skip(5))),
            b == a || !is_white_space(event@[b - 1]),
        decreases b,
    {
        if !char_is_whitespace(event[b - 1]) {
            break;
        }
        assert(event@.subrange(a as int, b as int).drop_last() == event@.subrange(a as int, b - 1));
        b = b - 1;
    }
    assert(trim_end(event@.subrange(a as int, b as int)) == event@.subrange(a as int, b as int));
    let mut out: Vec<char> = Vec::new();
    let mut j = a;
    while j < b
        invariant
            a <= j <= b,
            b <= event.len(),
            out@ == event@.subrange(a as int, j as int),
        decreases b - j,
    {
        out.push(event[j]);
        j = j + 1;
        assert(out@ == event@.subrange(a as int, j as int));
    }
    Some(string_from_chars(&out))
}

// ---------------------------------------------------------------------
// Properties
// ---------------------------------------------------------------------

proof fn lemma_first_blank_line_extend(x: Seq<char>, y: Seq<char>, i: int)
    requires
        0 <= i,
        first_blank_line_from(x, i) is Some,
    ensures
        first_blank_line_from(x + y, i) == first_blank_line_from(x, i),
    decreases x.len() - i,
{
    assert((x + y)[i] == x[i]);
    if i + 1 < x.len() {
        assert((x + y)[i + 1] == x[i + 1]);
    }
    if !blank_line_at(x, i) {
        lemma_first_blank_line_extend(x, y, i + 1);
    }
}

/// Splitting `x + y` into events is splitting `x`, then splitting what
/// was left of `x` followed by `y`.
pub proof fn lemma_split_events_append(x: Seq<char>, y: Seq<char>)
    ensures
        split_events(x + y).0 == split_events(x).0 + split_events(split_events(x).1 + y).0,
        split_events(x + y).1 == split_events(split_events(x).1 + y).1,
    decreases x.len(),
{
    match first_blank_line_from(x, 0) {
        Some(p) => {
            lemma_first_blank_line_bounds(x, 0);
            lemma_first_blank_line_extend(x, y, 0);
            assert((x + y).skip(p + 2) == x.skip(p + 2) + y);
            assert((x + y).take(p + 2) == x.take(p + 2));
            lemma_split_events_append(x.skip(p + 2), y);
            let e = split_events(x.skip(p + 2)).0;
            let e2 = split_events(split_events(x).1 + y).0;
            assert(seq![x.take(p + 2)] + (e + e2) == (seq![x.take(p + 2)] + e) + e2);
        },
        None => {
            assert(Seq::<Seq<char>>::empty() + split_events(x + y).0 == split_events(x + y).0);
        },
    }
}

/// The payloads of two runs of events are those of the first run, then
/// those of the second.
pub proof fn lemma_payloads_of_events_append(a: Seq<Seq<char>>, b: Seq<Seq<char>>)
    ensures
        payloads_of_events(a + b) == payloads_of_events(a) + payloads_of_events(b),
    decreases a.len(),
{
    if a.len() == 0 {
        assert(a + b == b);
    } else {
        lemma_payloads_of_events_append(a.drop_first(), b);
        assert((a + b).drop_first() == a.drop_first() + b);
        assert((a + b)[0] == a[0]);
    }
}

/// However the stream is cut into pieces, the payloads come out the same:
/// feeding `a` and then `b` yields the payloads, and leaves buffered the
/// text, that feeding `a + b` at once does.
pub proof fn lemma_feed_in_pieces(buffered: Seq<char>, a: Seq<char>, b: Seq<char>)
    ensures
        payloads_of_events(split_events(buffered + a).0) + payloads_of_events(
            split_events(split_events(buffered + a).1 + b).0,
        ) == payloads_of_events(split_events(buffered + a + b).0),
        split_events(split_events(buffered + a).1 + b).1 == split_events(buffered + a + b).1,
{
    lemma_split_events_append(buffered + a, b);
    lemma_payloads_of_events_append(
        split_events(buffered + a).0,
        split_events(split_events(buffered + a).1 + b).0,
    );
}

/// The pieces of a stream, put back together.
pub open spec fn joined_pieces(pieces: Seq<Seq<char>>) -> Seq<char>
    decreases pieces.len(),
{
    if pieces.len() == 0 {
        Seq::empty()
    } else {
        joined_pieces(pieces.drop_last()) + pieces.last()
    }
}

/// Feeding the pieces one after another to a decoder that holds
/// `buffered`: the payloads they yield, and the text left buffered.
pub open spec fn fed_pieces(buffered: Seq<char>, pieces: Seq<Seq<char>>) -> (Seq<Seq<char>>, Seq<char>)
    decreases pieces.len(),
{
    if pieces.len() == 0 {
        (Seq::empty(), buffered)
    } else {
        let (yielded, rest) = fed_pieces(buffered, pieces.drop_last());
        let split = split_events(rest + pieces.last());
        (yielded + payloads_of_events(split.0), split.1)
    }
}

/// However the stream is cut into any number of pieces, feeding them in
/// turn to a decoder (whose buffered text holds no complete event) yields
/// the payloads, and leaves buffered the text, that feeding the whole
/// stream at once does.
pub proof fn lemma_feed_any_pieces(buffered: Seq<char>, pieces: Seq<Seq<char>>)
    requires
        first_blank_line_from(buffered, 0) is None,
    ensures
        fed_pieces(buffered, pieces) == (
            payloads_of_events(split_events(buffered + joined_pieces(pieces)).0),
            split_events(buffered + joined_pieces(pieces)).1,
        ),
    decreases pieces.len(),
{
    if pieces.len() == 0 {
        assert(buffered + joined_pieces(pieces) == buffered);
        lemma_fed_nothing(buffered);
    } else {
        let init = pieces.drop_last();
        let last = pieces.last();
        lemma_feed_any_pieces(buffered, init);
        lemma_feed_in_pieces(buffered, joined_pieces(init), last);
        assert(buffered + joined_pieces(init) + last == buffered + joined_pieces(pieces));
        assert(buffered + (joined_pieces(init) + last) == buffered + joined_pieces(init) + last);
    }
}

/// Feeding nothing yields what the buffered text already holds, which is
/// nothing when it holds no complete event.
proof fn lemma_fed_nothing(buffered: Seq<char>)
    ensures
        first_blank_line_from(buffered, 0) is None ==> split_events(buffered) == (
            Seq::<Seq<char>>::empty(),
            buffered,
        ),
{
}

/// Fed the pieces of a stream in turn, a fresh decoder hands out the same
/// payloads, in the same order, however the stream was cut.
pub proof fn lemma_handed_out_any_pieces(pieces: Seq<Seq<char>>)
    ensures
        handed_out(fed_pieces(Seq::empty(), pieces).0) == handed_out(
            payloads_of_events(split_events(joined_pieces(pieces)).0),
        ),
{
    lemma_feed_any_pieces(Seq::empty(), pieces);
    assert(Seq::<char>::empty() + joined_pieces(pieces) == joined_pieces(pieces));
}

} // verus!
