//! Re-assembly of a child's output into lines.
//!
//! Output arrives in chunks of arbitrary size. A line ends with its line feed
//! and keeps it; what follows the last line feed is held back until more
//! arrives or the stream closes.

use vstd::prelude::*;
use crate::process::{LogEvent, LogEventView, StreamKind};

verus! {

/// The byte that ends a line.
pub const LINE_FEED: u8 = 10;

/// Splitting of `held + data`: the lines that are complete, in order, and the
/// bytes after the last line feed.
pub open spec fn scan(held: Seq<u8>, data: Seq<u8>) -> (Seq<Seq<u8>>, Seq<u8>)
    decreases data.len(),
{
    if data.len() == 0 {
        (Seq::empty(), held)
    } else {
        let before = scan(held, data.drop_last());
        let current = before.1.push(data.last());
        if data.last() == LINE_FEED {
            (before.0.push(current), Seq::empty())
        } else {
            (before.0, current)
        }
    }
}

/// All bytes of `lines`, one line after the other.
pub open spec fn concat_all(lines: Seq<Seq<u8>>) -> Seq<u8>
    decreases lines.len(),
{
    if lines.len() == 0 {
        Seq::empty()
    } else {
        concat_all(lines.drop_last()) + lines.last()
    }
}

/// Whether `line` is exactly one line: not empty, ended by a line feed and
/// with no line feed before its end.
pub open spec fn is_line(line: Seq<u8>) -> bool {
    &&& line.len() > 0
    &&& line.last() == LINE_FEED
    &&& forall|i: int| 0 <= i < line.len() - 1 ==> line[i] != LINE_FEED
}

/// Whether `bytes` holds no line feed.
pub open spec fn unterminated(bytes: Seq<u8>) -> bool {
    forall|i: int| 0 <= i < bytes.len() ==> bytes[i] != LINE_FEED
}

/// The events that carry `lines`, all from `stream`.
pub open spec fn line_events(stream: StreamKind, lines: Seq<Seq<u8>>) -> Seq<LogEventView> {
    Seq::new(lines.len(), |i: int| LogEventView { stream, text: lines[i] })
}

/// Splitting does not depend on how the data was cut into chunks: scanning
/// `a` and then `b` yields the lines and the rest of scanning `a + b` at once.
pub proof fn lemma_scan_chunks(held: Seq<u8>, a: Seq<u8>, b: Seq<u8>)
    ensures
        scan(held, a + b).0 == scan(held, a).0 + scan(scan(held, a).1, b).0,
        scan(held, a + b).1 == scan(scan(held, a).1, b).1,
    decreases b.len(),
{
    if b.len() == 0 {
        assert(a + b =~= a);
        assert(scan(held, a).0 + Seq::<Seq<u8>>::empty() =~= scan(held, a).0);
    } else {
        lemma_scan_chunks(held, a, b.drop_last());
        assert((a + b).drop_last() =~= a + b.drop_last());
        assert((a + b).last() == b.last());
        let mid = scan(held, a).1;
        let inner = scan(mid, b.drop_last());
        if b.last() == LINE_FEED {
            assert(scan(held, a).0 + inner.0.push(inner.1.push(b.last())) =~= (scan(held, a).0
                + inner.0).push(inner.1.push(b.last())));
        }
    }
}

/// Nothing is lost and nothing is added: the lines followed by the rest are
/// the bytes that went in.
pub proof fn lemma_scan_conserves(held: Seq<u8>, data: Seq<u8>)
    ensures
        concat_all(scan(held, data).0) + scan(held, data).1 == held + data,
    decreases data.len(),
{
    if data.len() == 0 {
        assert(concat_all(Seq::<Seq<u8>>::empty()) + held =~= held + data);
    } else {
        lemma_scan_conserves(held, data.drop_last());
        let before = scan(held, data.drop_last());
        let current = before.1.push(data.last());
        assert(held + data =~= (held + data.drop_last()).push(data.last()));
        if data.last() == LINE_FEED {
            let lines = before.0.push(current);
            assert(lines.drop_last() =~= before.0);
            assert(concat_all(lines) + Seq::<u8>::empty() =~= (concat_all(before.0)
                + before.1).push(data.last()));
        } else {
            assert(concat_all(before.0) + current =~= (concat_all(before.0) + before.1).push(
                data.last(),
            ));
        }
    }
}

/// Every complete line is exactly one line, and the rest holds no line feed,
/// provided what was held back before held none.
pub proof fn lemma_scan_lines(held: Seq<u8>, data: Seq<u8>)
    requires
        unterminated(held),
    ensures
        forall|i: int| 0 <= i < scan(held, data).0.len() ==> is_line(#[trigger] scan(held, data).0[i]),
        unterminated(scan(held, data).1),
    decreases data.len(),
{
    if data.len() > 0 {
        lemma_scan_lines(held, data.drop_last());
    }
}

/// The lines of a stream that wrote `data` and then ended: its complete
/// lines, and after them what followed the last line feed, if anything.
pub open spec fn lines_of(data: Seq<u8>) -> Seq<Seq<u8>> {
    let split = scan(Seq::empty(), data);
    if split.1.len() > 0 {
        split.0.push(split.1)
    } else {
        split.0
    }
}

/// The lines of a stream are its bytes: put one after the other they give
/// back what was written, byte for byte.
pub proof fn lemma_lines_conserve(data: Seq<u8>)
    ensures
        concat_all(lines_of(data)) == data,
{
    lemma_scan_conserves(Seq::empty(), data);
    let split = scan(Seq::<u8>::empty(), data);
    assert(Seq::<u8>::empty() + data =~= data);
    if split.1.len() > 0 {
        assert(split.0.push(split.1).drop_last() =~= split.0);
    } else {
        assert(concat_all(split.0) + split.1 =~= concat_all(split.0));
    }
}

/// Every line of a stream but the last is exactly one line, terminator
/// included; the last is one too, unless the stream ended without a line
/// feed, in which case it is what was left, and not empty.
pub proof fn lemma_lines_shape(data: Seq<u8>)
    ensures
        forall|i: int| 0 <= i < lines_of(data).len() - 1 ==> is_line(#[trigger] lines_of(data)[i]),
        lines_of(data).len() > 0 ==> is_line(lines_of(data).last()) || (unterminated(
            lines_of(data).last(),
        ) && lines_of(data).last().len() > 0),
{
    lemma_scan_lines(Seq::empty(), data);
}

/// Collects the output of one stream and hands it out line by line.
#[derive(Debug)]
pub struct LineAssembler {
    held: Vec<u8>,
}

impl LineAssembler {
    #[verifier::type_invariant]
    spec fn well_formed(self) -> bool {
        unterminated(self.held@)
    }

    /// The bytes received after the last line feed, not yet handed out.
    pub closed spec fn held(self) -> Seq<u8> {
        self.held@
    }

    /// An assembler that holds nothing.
    pub fn new() -> (r: LineAssembler)
        ensures
            r.held() == Seq::<u8>::empty(),
    {
        LineAssembler { held: Vec::new() }
    }

    /// Takes the next chunk of the output of `stream` and returns the lines
    /// it completes, in the order in which they were written.
    pub fn feed(&mut self, stream: StreamKind, chunk: &[u8]) -> (events: Vec<LogEvent>)
        ensures
            final(self).held() == scan(old(self).held(), chunk@).1,
            unterminated(final(self).held()),
            events.deep_view() == line_events(stream, scan(old(self).held(), chunk@).0),
    {
        let mut events: Vec<LogEvent> = Vec::new();
        let mut current: Vec<u8> = self.held.clone();
        let mut i: usize = 0;
        proof {
            use_type_invariant(&*self);
            assert(chunk@.subrange(0, 0) =~= Seq::<u8>::empty());
            assert(current@ =~= self.held@);
        }
        while i < chunk.len()
            invariant
                i <= chunk.len(),
                unterminated(current@),
                current@ == scan(self.held@, chunk@.subrange(0, i as int)).1,
                events.deep_view() == line_events(
                    stream,
                    scan(self.held@, chunk@.subrange(0, i as int)).0,
                ),
            decreases chunk.len() - i,
        {
            let b = chunk[i];
            let ghost seen = chunk@.subrange(0, i as int);
            let ghost next = chunk@.subrange(0, i + 1);
            let ghost before = scan(self.held@, seen);
            proof {
                assert(next.drop_last() =~= seen);
                assert(next.last() == b);
            }
            current.push(b);
            if b == LINE_FEED {
                let ghost shown = events.deep_view();
                events.push(LogEvent { stream, text: current });
                current = Vec::new();
                assert(events.deep_view() =~= shown.push(
                    LogEventView { stream, text: before.1.push(b) },
                ));
                assert(events.deep_view() =~= line_events(stream, scan(self.held@, next).0));
            }
            i = i + 1;
        }
        assert(chunk@.subrange(0, i as int) =~= chunk@);
        self.held = current;
        events
    }

    /// Closes the stream: what is still held back is handed out as a last,
    /// unterminated line of `stream`, so that no trailing output is lost.
    pub fn finish(&mut self, stream: StreamKind) -> (last: Option<LogEvent>)
        ensures
            final(self).held() == Seq::<u8>::empty(),
            last.deep_view() == closing_event(stream, old(self).held()),
    {
        if self.held.len() == 0 {
            None
        } else {
            let line: Vec<u8> = self.held.clone();
            assert(line@ =~= self.held@);
            self.held = Vec::new();
            Some(LogEvent { stream, text: line })
        }
    }
}

/// The event that closing a stream produces from what was held back.
pub open spec fn closing_event(stream: StreamKind, held: Seq<u8>) -> Option<LogEventView> {
    if held.len() == 0 {
        None
    } else {
        Some(LogEventView { stream, text: held })
    }
}

} // verus!
