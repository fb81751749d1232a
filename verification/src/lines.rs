//! The line reader's core: an incremental splitter that turns one byte
//! stream into complete text lines, and the rendering of a captured
//! line for subscribers.
//!
//! The splitter is fed whatever chunks the stream hands out and emits a
//! line for every line feed, dropping the terminator and a carriage
//! return just before it.  Which lines come out depends only on the
//! bytes fed so far, never on how they were chunked.

use vstd::prelude::*;
use vstd::utf8::{decode_utf8, valid_utf8};

verus! {

/// Which stream of the supervised process a line came from.
#[derive(Clone, Copy, Debug, PartialEq, Eq, Structural)]
pub enum Origin {
    Stdout,
    Stderr,
}

/// The byte that ends a line.
pub open spec fn line_feed() -> u8 {
    10
}

/// The byte a terminator may be preceded by, dropped with it.
pub open spec fn carriage_return() -> u8 {
    13
}

/// A finished line: the bytes since the previous terminator, with a
/// trailing carriage return dropped.
pub open spec fn strip_cr(s: Seq<u8>) -> Seq<u8> {
    if s.len() > 0 && s.last() == carriage_return() {
        s.drop_last()
    } else {
        s
    }
}

/// The bytes of `fed` that sit after its last line feed: what a
/// splitter still holds after consuming `fed`.
pub open spec fn pending_of(fed: Seq<u8>) -> Seq<u8>
    decreases fed.len(),
{
    if fed.len() == 0 {
        Seq::empty()
    } else if fed.last() == line_feed() {
        Seq::empty()
    } else {
        pending_of(fed.drop_last()).push(fed.last())
    }
}

/// Every complete line in `fed`, in stream order.
pub open spec fn lines_of(fed: Seq<u8>) -> Seq<Seq<u8>>
    decreases fed.len(),
{
    if fed.len() == 0 {
        Seq::empty()
    } else if fed.last() == line_feed() {
        lines_of(fed.drop_last()).push(strip_cr(pending_of(fed.drop_last())))
    } else {
        lines_of(fed.drop_last())
    }
}

/// Splits one byte stream into complete lines, incrementally.  The
/// ghost `fed` records every byte consumed; the concrete buffer always
/// holds exactly the bytes after the last terminator.
pub struct LineSplitter {
    buf: Vec<u8>,
    fed: Ghost<Seq<u8>>,
}

impl LineSplitter {
    /// All bytes this splitter has consumed.
    pub closed spec fn fed(&self) -> Seq<u8> {
        self.fed@
    }

    /// The buffer mirrors the tail of the consumed stream.
    pub closed spec fn wf(&self) -> bool {
        self.buf@ == pending_of(self.fed@)
    }

    /// A splitter that has seen nothing.
    pub fn new() -> (s: Self)
        ensures
            s.wf(),
            s.fed() == Seq::<u8>::empty(),
    {
        LineSplitter { buf: Vec::new(), fed: Ghost(Seq::empty()) }
    }

    /// Consume one byte; a line feed completes and returns a line.
    pub fn feed_byte(&mut self, b: u8) -> (line: Option<Vec<u8>>)
        requires
            old(self).wf(),
        ensures
            final(self).wf(),
            final(self).fed() == old(self).fed().push(b),
            lines_of(final(self).fed()) == if b == line_feed() {
                lines_of(old(self).fed()).push(strip_cr(pending_of(old(self).fed())))
            } else {
                lines_of(old(self).fed())
            },
            line matches Some(l) ==> b == line_feed() && l@ == strip_cr(
                pending_of(old(self).fed()),
            ),
            line is None <==> b != line_feed(),
    {
        proof {
            assert(self.fed@.push(b).drop_last() =~= self.fed@);
        }
        self.fed = Ghost(self.fed@.push(b));
        if b == 10 {
            if self.buf.len() > 0 && self.buf[self.buf.len() - 1] == 13 {
                self.buf.pop();
            }
            let mut line = Vec::new();
            core::mem::swap(&mut line, &mut self.buf);
            Some(line)
        } else {
            self.buf.push(b);
            None
        }
    }

    /// Consume a chunk, returning every line it completes, in order.
    /// The lines of the whole stream grow by exactly those lines:
    /// chunk boundaries never change what comes out.
    pub fn feed(&mut self, chunk: &[u8]) -> (lines: Vec<Vec<u8>>)
        requires
            old(self).wf(),
        ensures
            final(self).wf(),
            final(self).fed() == old(self).fed() + chunk@,
            lines_of(final(self).fed()) == lines_of(old(self).fed()) + lines.deep_view(),
    {
        let mut lines: Vec<Vec<u8>> = Vec::new();
        let mut i: usize = 0;
        proof {
            assert(self.fed() + chunk@.take(0) =~= self.fed());
            assert(lines_of(self.fed()) + lines.deep_view() =~= lines_of(self.fed()));
        }
        while i < chunk.len()
            invariant
                self.wf(),
                i <= chunk.len(),
                self.fed() == old(self).fed() + chunk@.take(i as int),
                lines_of(self.fed()) == lines_of(old(self).fed()) + lines.deep_view(),
            decreases chunk.len() - i,
        {
            let ghost prev = lines.deep_view();
            let r = self.feed_byte(chunk[i]);
            if let Some(l) = r {
                proof {
                    assert(l.deep_view() =~= l@);
                }
                lines.push(l);
            }
            i = i + 1;
            proof {
                assert(old(self).fed() + chunk@.take(i - 1 as int) + seq![chunk@[i - 1]]
                    =~= old(self).fed() + chunk@.take(i as int));
                assert(lines.deep_view() =~= if r is Some {
                    prev.push(r->0@)
                } else {
                    prev
                });
                assert(lines_of(self.fed()) =~= lines_of(old(self).fed()) + lines.deep_view());
            }
        }
        proof {
            assert(chunk@.take(chunk@.len() as int) =~= chunk@);
        }
        lines
    }

    /// At end of stream, the bytes after the last terminator form one
    /// final line, handed out as the stream's tail without stripping.
    pub fn take_remainder(&mut self) -> (r: Option<Vec<u8>>)
        requires
            old(self).wf(),
        ensures
            final(self).wf(),
            final(self).fed() == Seq::<u8>::empty(),
            r matches Some(l) ==> l@ == pending_of(old(self).fed()) && l@.len() > 0,
            r is None <==> pending_of(old(self).fed()).len() == 0,
    {
        self.fed = Ghost(Seq::empty());
        if self.buf.len() == 0 {
            None
        } else {
            let mut line = Vec::new();
            core::mem::swap(&mut line, &mut self.buf);
            Some(line)
        }
    }
}

/// The tag put before a line captured from the error stream, so that
/// subscribers can tell error output apart: the text `ERROR: `.
pub open spec fn stderr_tag() -> Seq<char> {
    seq!['E', 'R', 'R', 'O', 'R', ':', ' ']
}

/// The text a subscriber sees for a captured line: the decoded line,
/// prefixed by the error tag when it came from the error stream.
pub open spec fn rendered(origin: Origin, line: Seq<u8>) -> Seq<char> {
    if origin is Stderr {
        stderr_tag() + decode_utf8(line)
    } else {
        decode_utf8(line)
    }
}

/// Relies on `String::from_utf8` of std: returns the decoded text
/// exactly when the bytes are valid UTF-8, and refuses them otherwise.
#[verifier::external_body]
fn decode_line(line: Vec<u8>) -> (r: Option<String>)
    ensures
        r is Some <==> valid_utf8(line@),
        r matches Some(s) ==> s@ == decode_utf8(line@),
{
    String::from_utf8(line).ok()
}

/// Turn one captured line into the text broadcast to subscribers.
/// A line that does not decode yields nothing: the reader that saw it
/// ends silently, as an undecodable stream is an ended stream.
pub fn render_line(origin: Origin, line: Vec<u8>) -> (r: Option<String>)
    ensures
        r is Some <==> valid_utf8(line@),
        r matches Some(s) ==> s@ == rendered(origin, line@),
{
    let ghost line_view = line@;
    match decode_line(line) {
        None => None,
        Some(text) => {
            match origin {
                Origin::Stdout => Some(text),
                Origin::Stderr => {
                    let mut tagged = String::new();
                    tagged.append("ERROR: ");
                    tagged.append(text.as_str());
                    proof {
                        reveal_strlit("ERROR: ");
                        assert(tagged@ =~= rendered(origin, line_view));
                    }
                    Some(tagged)
                },
            }
        },
    }
}

} // verus!
