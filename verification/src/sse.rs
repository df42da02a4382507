//! Text that arrives as server-sent events, in pieces that are cut anywhere between
//! two characters.
use vstd::prelude::*;
use vstd::utf8::*;

use crate::lines;
use crate::outside;
use crate::text;
use crate::types::StreamEvent;

verus! {

// ---------------------------------------------------------------------------
// Lines and their payloads
// ---------------------------------------------------------------------------

/// A line without the carriage returns at its end.
pub open spec fn stripped(line: Seq<char>) -> Seq<char> {
    text::drop_while_end(line, |c: char| c == '\r')
}

/// What a line carries: what follows `data: `. An empty line and a comment carry
/// nothing.
pub open spec fn payload(line: Seq<char>) -> Option<Seq<char>> {
    let l = stripped(line);
    if text::begins_with(l, "data: "@) {
        Some(l.subrange("data: "@.len() as int, l.len() as int))
    } else {
        None
    }
}

/// What the complete lines of a text carry, line by line.
pub open spec fn payloads(s: Seq<char>) -> Seq<Seq<char>>
    decreases s.len(),
{
    let k = lines::index_of(s, '\n', 0);
    if 0 <= k < s.len() {
        let rest = s.subrange(k + 1, s.len() as int);
        match payload(s.subrange(0, k)) {
            Some(d) => seq![d] + payloads(rest),
            None => payloads(rest),
        }
    } else {
        Seq::empty()
    }
}

/// What follows the last line feed of a text.
pub open spec fn unfinished(s: Seq<char>) -> Seq<char>
    decreases s.len(),
{
    let k = lines::index_of(s, '\n', 0);
    if 0 <= k < s.len() {
        unfinished(s.subrange(k + 1, s.len() as int))
    } else {
        s
    }
}

/// It does not matter between which characters the text is cut: what `a` and then
/// `b` carry, the unfinished line of `a` kept in between, is what both together
/// carry.
pub proof fn pieces_do_not_matter(a: Seq<char>, b: Seq<char>)
    ensures
        payloads(a + b) == payloads(a) + payloads(unfinished(a) + b),
        unfinished(a + b) == unfinished(unfinished(a) + b),
    decreases a.len(),
{
    let k = lines::index_of(a, '\n', 0);
    lines::lemma_index_of(a, '\n', 0);
    if k < a.len() {
        lines::lemma_index_of_is(a + b, '\n', 0, k);
        let rest = a.subrange(k + 1, a.len() as int);
        pieces_do_not_matter(rest, b);
        assert((a + b).subrange(0, k) =~= a.subrange(0, k));
        assert((a + b).subrange(k + 1, (a + b).len() as int) =~= rest + b);
        match payload(a.subrange(0, k)) {
            Some(d) => {
                assert(seq![d] + (payloads(rest) + payloads(unfinished(rest) + b)) =~= seq![d]
                    + payloads(rest) + payloads(unfinished(rest) + b));
            },
            None => {},
        }
    } else {
        assert(payloads(a) =~= Seq::empty());
        assert(payloads(a) + payloads(a + b) =~= payloads(a + b));
    }
}

// ---------------------------------------------------------------------------
// The stream
// ---------------------------------------------------------------------------

/// What has arrived of a stream.
pub struct SseStream {
    /// What has not been read yet.
    pub buffer: String,
    /// The text so far.
    pub full_text: String,
}

/// What comes next of what has arrived.
pub enum SseItem {
    /// The payload of a line.
    Data(String),
    /// The end of the stream.
    Done,
    /// Nothing: more must arrive.
    Starved,
}

/// The text that a stream of deltas makes: all of them in order.
pub open spec fn text_of_deltas(deltas: Seq<Option<Seq<char>>>) -> Seq<char>
    decreases deltas.len(),
{
    if deltas.len() == 0 {
        Seq::empty()
    } else {
        let front = text_of_deltas(deltas.drop_last());
        match deltas.last() {
            Some(d) => front + d,
            None => front,
        }
    }
}

/// The texts that are handed on of a stream of deltas: those that are not empty.
pub open spec fn tokens_of_deltas(deltas: Seq<Option<Seq<char>>>) -> Seq<Seq<char>>
    decreases deltas.len(),
{
    if deltas.len() == 0 {
        Seq::empty()
    } else {
        let front = tokens_of_deltas(deltas.drop_last());
        match deltas.last() {
            Some(d) => if d.len() > 0 {
                front.push(d)
            } else {
                front
            },
            None => front,
        }
    }
}

/// The text at the end of a stream is what was handed on before, one after the
/// other.
pub proof fn full_text_is_the_tokens(deltas: Seq<Option<Seq<char>>>)
    ensures
        text_of_deltas(deltas) == lines::joined(tokens_of_deltas(deltas), Seq::empty()),
    decreases deltas.len(),
{
    if deltas.len() > 0 {
        full_text_is_the_tokens(deltas.drop_last());
        let front = tokens_of_deltas(deltas.drop_last());
        match deltas.last() {
            Some(d) => {
                if d.len() > 0 {
                    lemma_joined_push(front, d);
                } else {
                    assert(text_of_deltas(deltas.drop_last()) + d =~= text_of_deltas(
                        deltas.drop_last(),
                    ));
                }
            },
            None => {},
        }
    }
}

/// One text more, joined without anything in between.
proof fn lemma_joined_push(parts: Seq<Seq<char>>, d: Seq<char>)
    ensures
        lines::joined(parts.push(d), Seq::empty()) == lines::joined(parts, Seq::empty()) + d,
{
    assert(parts.push(d).drop_last() =~= parts);
    if parts.len() == 0 {
        assert(lines::joined(parts, Seq::empty()) + d =~= d);
    } else {
        assert(lines::joined(parts, Seq::empty()) + Seq::<char>::empty() + d =~= lines::joined(
            parts,
            Seq::empty(),
        ) + d);
    }
}

impl SseStream {
    /// A stream of which nothing has arrived.
    pub fn new() -> (r: Self)
        ensures
            r.buffer@ == Seq::<char>::empty(),
            r.full_text@ == Seq::<char>::empty(),
    {
        let r = SseStream { buffer: String::new(), full_text: String::new() };
        assert(r.buffer@ =~= Seq::<char>::empty());
        assert(r.full_text@ =~= Seq::<char>::empty());
        r
    }

    /// Takes up the bytes that arrive. Bytes that encode no text are dropped, and so
    /// is a piece that is cut inside a character.
    pub fn feed(&mut self, chunk: &[u8])
        ensures
            final(self).buffer@ == if valid_utf8(chunk@) {
                old(self).buffer@ + decode_utf8(chunk@)
            } else {
                old(self).buffer@
            },
            final(self).full_text == old(self).full_text,
    {
        match outside::from_utf8(chunk) {
            Some(s) => self.buffer.append(s.as_str()),
            None => {},
        }
    }

    /// Reads up to the next payload.
    pub fn next(&mut self) -> (r: SseItem)
        ensures
            final(self).full_text == old(self).full_text,
            match r {
                SseItem::Starved => payloads(old(self).buffer@).len() == 0 && final(self).buffer@
                    == unfinished(old(self).buffer@),
                SseItem::Done => payloads(old(self).buffer@) == seq!["[DONE]"@] + payloads(
                    final(self).buffer@,
                ) && unfinished(final(self).buffer@) == unfinished(old(self).buffer@),
                SseItem::Data(d) => d@ != "[DONE]"@ && payloads(old(self).buffer@) == seq![d@]
                    + payloads(final(self).buffer@) && unfinished(final(self).buffer@)
                    == unfinished(old(self).buffer@),
            },
    {
        let ghost start = self.buffer@;
        let cs = text::chars_of(self.buffer.as_str());
        let mut from: usize = 0;
        proof {
            assert(start.subrange(0, start.len() as int) =~= start);
            reveal_strlit("data: ");
        }
        loop
            invariant
                from <= cs.len(),
                cs@ == start,
                self.full_text == old(self).full_text,
                old(self).buffer@ == start,
                payloads(start.subrange(from as int, start.len() as int)) == payloads(start),
                unfinished(start.subrange(from as int, start.len() as int)) == unfinished(start),
            decreases cs.len() - from,
        {
            let ghost here = start.subrange(from as int, start.len() as int);
            let k = lines::index_from(&cs, '\n', from);
            proof {
                lines::lemma_index_of(start, '\n', from as int);
                lines::lemma_index_of_is(here, '\n', 0, k - from);
            }
            if k >= cs.len() {
                self.buffer = text::text_between(&cs, from, cs.len());
                return SseItem::Starved;
            }
            let raw = text::text_between(&cs, from, k);
            let line = text::trim_end_char(raw.as_str(), '\r');
            let ghost rest = start.subrange(k + 1, start.len() as int);
            proof {
                assert(here.subrange(0, k - from) =~= raw@);
                assert(here.subrange(k - from + 1, here.len() as int) =~= rest);
            }
            match text::strip_prefix(line.as_str(), "data: ") {
                Some(d) => {
                    assert(payload(raw@) == Some(d@));
                    self.buffer = text::text_between(&cs, k + 1, cs.len());
                    if text::same(d.as_str(), "[DONE]") {
                        return SseItem::Done;
                    }
                    return SseItem::Data(d);
                },
                None => {
                    assert(payload(raw@) is None);
                    from = k + 1;
                },
            }
        }
    }

    /// Takes up the text that a payload adds, where it adds any, and gives what is
    /// handed on of it.
    pub fn on_delta(&mut self, delta: Option<String>) -> (r: Option<StreamEvent>)
        ensures
            final(self).buffer == old(self).buffer,
            final(self).full_text@ == old(self).full_text@ + text::text_or_empty(delta),
            match r {
                Some(StreamEvent::Token(t)) => delta is Some && t@ == delta.unwrap()@ && t@.len()
                    > 0,
                Some(_) => false,
                None => text::text_or_empty(delta).len() == 0,
            },
    {
        match delta {
            Some(d) => {
                self.full_text.append(d.as_str());
                if d.as_str().unicode_len() > 0 {
                    Some(StreamEvent::Token(d))
                } else {
                    None
                }
            },
            None => {
                assert(self.full_text@ + Seq::<char>::empty() =~= self.full_text@);
                None
            },
        }
    }

    /// What is handed on when the stream says that it is done.
    pub fn done(&self) -> (r: StreamEvent)
        ensures
            r is Done,
            r->full_text@ == self.full_text@,
    {
        StreamEvent::Done { full_text: self.full_text.clone() }
    }

    /// What is handed on when nothing more arrives: the text, if there is any.
    pub fn on_end(&self) -> (r: Option<StreamEvent>)
        ensures
            match r {
                Some(e) => self.full_text@.len() > 0 && e is Done && e->full_text@
                    == self.full_text@,
                None => self.full_text@.len() == 0,
            },
    {
        if self.full_text.as_str().unicode_len() > 0 {
            Some(self.done())
        } else {
            None
        }
    }
}

} // verus!
