//! From the child's output to events: the bytes that arrive on a pipe are cut
//! into lines, and each line becomes an event tagged with the stream it came
//! from.
//!
//! The caller reads each pipe on its own, in chunks of any size, feeds every
//! chunk to that pipe's [`LineAssembler`], and sends an event for each line
//! that is handed back, in that order. When the pipe is at its end,
//! [`LineAssembler::finish`] hands out what the child wrote after its last
//! line break.

use crate::definition::{CommandEvent, EventView};
use vstd::prelude::*;

verus! {

/// The byte that ends a line.
pub const LINE_BREAK: u8 = 0x0A;

/// The lines that are complete once `bytes` have arrived after `carry`, the
/// begun line left by earlier bytes; and the line that is begun after them.
/// A line does not include the line break that ends it.
pub open spec fn cut(carry: Seq<u8>, bytes: Seq<u8>) -> (Seq<Seq<u8>>, Seq<u8>)
    decreases bytes.len(),
{
    if bytes.len() == 0 {
        (Seq::empty(), carry)
    } else if bytes.first() == LINE_BREAK {
        let (lines, rest) = cut(Seq::empty(), bytes.drop_first());
        (seq![carry] + lines, rest)
    } else {
        cut(carry.push(bytes.first()), bytes.drop_first())
    }
}

/// The bytes of `lines`, each followed by a line break.
pub open spec fn joined(lines: Seq<Seq<u8>>) -> Seq<u8>
    decreases lines.len(),
{
    if lines.len() == 0 {
        Seq::empty()
    } else {
        lines.first().push(LINE_BREAK) + joined(lines.drop_first())
    }
}

/// Whether `bytes` hold no line break.
pub open spec fn unbroken(bytes: Seq<u8>) -> bool {
    forall|i: int| 0 <= i < bytes.len() ==> #[trigger] bytes[i] != LINE_BREAK
}

/// The bytes of each line of `lines`, in order.
pub open spec fn lines_view(lines: Seq<Vec<u8>>) -> Seq<Seq<u8>> {
    lines.map_values(|line: Vec<u8>| line@)
}

/// The stream of the child that a line was read from.
#[derive(Debug, Clone, Copy, PartialEq, Eq, Structural)]
pub enum StreamOrigin {
    Stdout,
    Stderr,
}

impl StreamOrigin {
    /// The event for a line that was read from this stream.
    pub fn event(&self, line: String) -> (event: CommandEvent)
        ensures
            event@ == match *self {
                StreamOrigin::Stdout => EventView::Stdout(line@),
                StreamOrigin::Stderr => EventView::Stderr(line@),
            },
    {
        match self {
            StreamOrigin::Stdout => CommandEvent::Stdout(line),
            StreamOrigin::Stderr => CommandEvent::Stderr(line),
        }
    }
}

/// Collects the bytes of one stream and hands them out line by line.
#[derive(Debug)]
pub struct LineAssembler {
    /// The line that is begun and not yet ended.
    pending: Vec<u8>,
}

impl View for LineAssembler {
    type V = Seq<u8>;

    /// The bytes of the begun line.
    closed spec fn view(&self) -> Seq<u8> {
        self.pending@
    }
}

impl LineAssembler {
    pub fn new() -> (assembler: Self)
        ensures
            assembler@ == Seq::<u8>::empty(),
    {
        LineAssembler { pending: Vec::new() }
    }

    /// Takes the next bytes of the stream and hands out the lines that they
    /// complete, in the order of the stream.
    pub fn feed(&mut self, chunk: &[u8]) -> (lines: Vec<Vec<u8>>)
        ensures
            (lines_view(lines@), final(self)@) == cut(old(self)@, chunk@),
    {
        let mut lines: Vec<Vec<u8>> = Vec::new();
        let mut pending: Vec<u8> = Vec::new();
        core::mem::swap(&mut pending, &mut self.pending);
        let mut i: usize = 0;
        assert(chunk@.subrange(0, chunk@.len() as int) =~= chunk@);
        assert(lines_view(lines@) =~= Seq::<Seq<u8>>::empty());
        assert(Seq::<Seq<u8>>::empty() + cut(pending@, chunk@).0 =~= cut(pending@, chunk@).0);
        while i < chunk.len()
            invariant
                i <= chunk.len(),
                cut(old(self)@, chunk@) == (
                    lines_view(lines@) + cut(pending@, chunk@.subrange(i as int, chunk@.len() as int)).0,
                    cut(pending@, chunk@.subrange(i as int, chunk@.len() as int)).1,
                ),
            decreases chunk.len() - i,
        {
            let ghost ahead = chunk@.subrange(i as int, chunk@.len() as int);
            let ghost before = lines_view(lines@);
            let ghost carry = pending@;
            assert(ahead.first() == chunk@[i as int]);
            assert(ahead.drop_first() =~= chunk@.subrange(i + 1, chunk@.len() as int));
            let byte = chunk[i];
            if byte == LINE_BREAK {
                let mut line: Vec<u8> = Vec::new();
                core::mem::swap(&mut line, &mut pending);
                lines.push(line);
                proof {
                    let after = cut(Seq::<u8>::empty(), ahead.drop_first()).0;
                    assert(lines_view(lines@) =~= before.push(carry));
                    assert(before + (seq![carry] + after) =~= before.push(carry) + after);
                }
            } else {
                pending.push(byte);
            }
            i += 1;
        }
        assert(chunk@.subrange(i as int, chunk@.len() as int) =~= Seq::<u8>::empty());
        assert(lines_view(lines@) + Seq::<Seq<u8>>::empty() =~= lines_view(lines@));
        self.pending = pending;
        lines
    }

    /// Ends the stream: hands out the begun line, if the child wrote anything
    /// after its last line break.
    pub fn finish(self) -> (last: Option<Vec<u8>>)
        ensures
            match last {
                Some(line) => line@ == self@ && self@.len() > 0,
                None => self@.len() == 0,
            },
    {
        if self.pending.len() == 0 {
            None
        } else {
            Some(self.pending)
        }
    }
}

/// Nothing is lost and nothing is added in cutting: the lines, each with its
/// line break, followed by the begun line are the bytes that arrived.
pub proof fn lemma_cut_rejoins(carry: Seq<u8>, bytes: Seq<u8>)
    ensures
        joined(cut(carry, bytes).0) + cut(carry, bytes).1 == carry + bytes,
    decreases bytes.len(),
{
    let (lines, rest) = cut(carry, bytes);
    if bytes.len() == 0 {
        assert(joined(lines) + rest =~= carry + bytes);
    } else if bytes.first() == LINE_BREAK {
        let (later, last) = cut(Seq::empty(), bytes.drop_first());
        lemma_cut_rejoins(Seq::empty(), bytes.drop_first());
        assert(lines.first() == carry);
        assert(lines.drop_first() =~= later);
        assert(joined(later) + last == Seq::<u8>::empty() + bytes.drop_first());
        assert(carry.push(LINE_BREAK) + (Seq::<u8>::empty() + bytes.drop_first()) =~= carry + bytes);
        assert(joined(lines) + rest =~= carry.push(LINE_BREAK) + (joined(later) + last));
    } else {
        lemma_cut_rejoins(carry.push(bytes.first()), bytes.drop_first());
        assert(carry.push(bytes.first()) + bytes.drop_first() =~= carry + bytes);
    }
}

/// No line holds a line break, nor does the begun line, if the line begun
/// before held none.
pub proof fn lemma_cut_lines_unbroken(carry: Seq<u8>, bytes: Seq<u8>)
    requires
        unbroken(carry),
    ensures
        forall|i: int| 0 <= i < cut(carry, bytes).0.len() ==> unbroken(#[trigger] cut(carry, bytes).0[i]),
        unbroken(cut(carry, bytes).1),
    decreases bytes.len(),
{
    if bytes.len() == 0 {
    } else if bytes.first() == LINE_BREAK {
        let (later, last) = cut(Seq::empty(), bytes.drop_first());
        lemma_cut_lines_unbroken(Seq::empty(), bytes.drop_first());
        let lines = cut(carry, bytes).0;
        assert forall|i: int| 0 <= i < lines.len() implies unbroken(#[trigger] lines[i]) by {
            if i > 0 {
                assert(lines[i] == later[i - 1]);
            }
        }
    } else {
        lemma_cut_lines_unbroken(carry.push(bytes.first()), bytes.drop_first());
    }
}

/// The lines do not depend on how the stream is divided into chunks: cutting
/// two chunks one after the other gives the lines of the first followed by
/// those of the second, and these are the lines of both chunks taken as one.
pub proof fn lemma_cut_in_pieces(carry: Seq<u8>, a: Seq<u8>, b: Seq<u8>)
    ensures
        cut(carry, a + b) == (
            cut(carry, a).0 + cut(cut(carry, a).1, b).0,
            cut(cut(carry, a).1, b).1,
        ),
    decreases a.len(),
{
    if a.len() == 0 {
        assert(a + b =~= b);
        assert(Seq::<Seq<u8>>::empty() + cut(carry, b).0 =~= cut(carry, b).0);
    } else {
        assert((a + b).first() == a.first());
        assert((a + b).drop_first() =~= a.drop_first() + b);
        if a.first() == LINE_BREAK {
            lemma_cut_in_pieces(Seq::empty(), a.drop_first(), b);
            let first = cut(Seq::<u8>::empty(), a.drop_first());
            let second = cut(first.1, b);
            assert(seq![carry] + (first.0 + second.0) =~= (seq![carry] + first.0) + second.0);
        } else {
            lemma_cut_in_pieces(carry.push(a.first()), a.drop_first(), b);
        }
    }
}

} // verus!
