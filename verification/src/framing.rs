//! Framing: how a stream of bytes is cut into request lines, how a datagram
//! of several lines is handled, and how responses are batched for writing.

use vstd::prelude::*;
use vstd::slice::slice_subrange;
use crate::color::Color;
use crate::handler::{cells_after_line, handle_line, reply_of_line};
use crate::pixmap::Pixmap;
use crate::protocol::{parse_request, request_of_line};
use crate::text::NEWLINE;

verus! {

/// The longest frame that a stream connection accepts, unless told otherwise.
pub const DEFAULT_MAX_FRAME: usize = 128;

/// The position of the first newline.
pub open spec fn first_newline(s: Seq<u8>) -> Option<int>
    decreases s.len(),
{
    if s.len() == 0 {
        None
    } else if s[0] == NEWLINE {
        Some(0)
    } else {
        match first_newline(s.drop_first()) {
            Some(k) => Some(k + 1),
            None => None,
        }
    }
}

/// The first newline is a newline, and no byte before it is one.
pub proof fn lemma_first_newline(s: Seq<u8>)
    ensures
        match first_newline(s) {
            Some(k) => 0 <= k < s.len() && s[k] == NEWLINE && forall|j: int|
                0 <= j < k ==> #[trigger] s[j] != NEWLINE,
            None => forall|j: int| 0 <= j < s.len() ==> #[trigger] s[j] != NEWLINE,
        },
    decreases s.len(),
{
    if s.len() > 0 && s[0] != NEWLINE {
        let rest = s.drop_first();
        lemma_first_newline(rest);
        match first_newline(rest) {
            Some(k) => {
                assert forall|j: int| 0 <= j < k + 1 implies #[trigger] s[j] != NEWLINE by {
                    if j > 0 {
                        assert(s[j] == rest[j - 1]);
                    }
                }
            },
            None => {
                assert forall|j: int| 0 <= j < s.len() implies #[trigger] s[j] != NEWLINE by {
                    if j > 0 {
                        assert(s[j] == rest[j - 1]);
                    }
                }
            },
        }
    }
}

/// What the front of a receive buffer holds.
#[derive(Clone, Copy, Debug, PartialEq, Eq)]
pub enum Frame {
    /// A complete line, newline included, of `end` bytes.
    Line { end: usize },
    /// The beginning of a line that may still be completed.
    Incomplete,
    /// More bytes than a frame may have, and no newline among them.
    TooLong,
}

/// The frame at the front of a buffer, where no frame may have more than
/// `max` bytes, its newline included.
pub open spec fn frame_of(buffer: Seq<u8>, max: usize) -> Frame {
    match first_newline(buffer) {
        Some(k) => if k < max {
            Frame::Line { end: (k + 1) as usize }
        } else {
            Frame::TooLong
        },
        None => if buffer.len() >= max {
            Frame::TooLong
        } else {
            Frame::Incomplete
        },
    }
}

/// Finds the frame at position `from` of a buffer.
pub fn next_frame(buffer: &[u8], from: usize, max: usize) -> (frame: Frame)
    requires
        from <= buffer@.len(),
    ensures
        frame == frame_of(buffer@.skip(from as int), max),
        frame matches Frame::Line { end } ==> 1 <= end && from + end <= buffer@.len(),
{
    let ghost s = buffer@.skip(from as int);
    let available: usize = buffer.len() - from;
    let mut i: usize = 0;
    proof {
        lemma_first_newline(s);
    }
    while i < max && i < available
        invariant
            from <= buffer@.len() <= usize::MAX,
            available == buffer@.len() - from,
            s == buffer@.skip(from as int),
            i <= max,
            i <= available,
            forall|j: int| 0 <= j < i ==> #[trigger] s[j] != NEWLINE,
        decreases available - i,
    {
        if buffer[from + i] == NEWLINE {
            proof {
                lemma_first_newline(s);
                assert(s[i as int] == NEWLINE);
            }
            return Frame::Line { end: i + 1 };
        }
        assert(s[i as int] == buffer@[from + i]);
        i = i + 1;
    }
    if i == max {
        Frame::TooLong
    } else {
        Frame::Incomplete
    }
}

/// The length of the first line of a datagram: up to and including its first
/// newline, or all of it where it has none.
pub open spec fn line_length(data: Seq<u8>) -> int {
    match first_newline(data) {
        Some(k) => k + 1,
        None => data.len() as int,
    }
}

/// What handling a datagram gives: the cells afterwards, and the reply, or
/// none where the datagram was dropped.
pub struct DatagramOutcome {
    pub cells: Seq<Color>,
    pub reply: Option<Seq<u8>>,
}

/// Handles the lines of a datagram in order. The replies are joined into
/// one. A line that is no request ends the handling: the datagram is dropped
/// and nothing is replied, but what earlier lines wrote stays written.
pub open spec fn datagram_outcome(cells: Seq<Color>, width: nat, height: nat, data: Seq<u8>)
    -> DatagramOutcome
    decreases data.len(),
    via datagram_outcome_decreases
{
    if data.len() == 0 {
        DatagramOutcome { cells, reply: Some(Seq::<u8>::empty()) }
    } else {
        let end = line_length(data);
        let line = data.take(end);
        if request_of_line(line) is Err {
            DatagramOutcome { cells, reply: None }
        } else {
            let rest = datagram_outcome(
                cells_after_line(cells, width, height, line),
                width,
                height,
                data.skip(end),
            );
            DatagramOutcome {
                cells: rest.cells,
                reply: match rest.reply {
                    Some(tail) => Some(reply_of_line(cells, width, height, line) + tail),
                    None => None,
                },
            }
        }
    }
}

#[via_fn]
proof fn datagram_outcome_decreases(cells: Seq<Color>, width: nat, height: nat, data: Seq<u8>) {
    lemma_first_newline(data);
}

/// The outcome of a datagram whose first lines gave `reply` already.
pub open spec fn with_reply(reply: Seq<u8>, rest: DatagramOutcome) -> DatagramOutcome {
    DatagramOutcome {
        cells: rest.cells,
        reply: match rest.reply {
            Some(tail) => Some(reply + tail),
            None => None,
        },
    }
}

/// The length of the line at position `from` of a datagram.
fn next_line_length(data: &[u8], from: usize) -> (end: usize)
    requires
        from < data@.len(),
    ensures
        end == line_length(data@.skip(from as int)),
        1 <= end,
        from + end <= data@.len(),
{
    let ghost s = data@.skip(from as int);
    let available: usize = data.len() - from;
    let mut i: usize = 0;
    proof {
        lemma_first_newline(s);
    }
    while i < available
        invariant
            from < data@.len() <= usize::MAX,
            available == data@.len() - from,
            s == data@.skip(from as int),
            i <= available,
            forall|j: int| 0 <= j < i ==> #[trigger] s[j] != NEWLINE,
        decreases available - i,
    {
        if data[from + i] == NEWLINE {
            proof {
                lemma_first_newline(s);
                assert(s[i as int] == NEWLINE);
            }
            return i + 1;
        }
        assert(s[i as int] == data@[from + i]);
        i = i + 1;
    }
    proof {
        lemma_first_newline(s);
    }
    available
}

/// Handles a datagram of newline-separated requests and gives the reply
/// datagram: the responses joined in order, possibly none. `None` says that
/// the datagram was dropped because one of its lines is no request.
pub fn handle_datagram(pixmap: &mut Pixmap, data: &[u8]) -> (reply: Option<Vec<u8>>)
    ensures
        final(pixmap).width() == old(pixmap).width(),
        final(pixmap).height() == old(pixmap).height(),
        final(pixmap)@ == datagram_outcome(
            old(pixmap)@,
            old(pixmap).width(),
            old(pixmap).height(),
            data@,
        ).cells,
        match datagram_outcome(old(pixmap)@, old(pixmap).width(), old(pixmap).height(), data@).reply {
            Some(bytes) => reply is Some && reply->Some_0@ == bytes,
            None => reply is None,
        },
{
    let ghost width = pixmap.width();
    let ghost height = pixmap.height();
    let ghost whole = datagram_outcome(pixmap@, width, height, data@);
    let mut out: Vec<u8> = Vec::new();
    let mut pos: usize = 0;
    proof {
        assert(data@.skip(0) =~= data@);
        assert(with_reply(out@, whole).reply == whole.reply) by {
            if whole.reply is Some {
                assert(out@ + whole.reply->Some_0 =~= whole.reply->Some_0);
            }
        }
    }
    while pos < data.len()
        invariant
            pos <= data@.len(),
            pixmap.width() == width,
            pixmap.height() == height,
            width == old(pixmap).width(),
            height == old(pixmap).height(),
            whole == datagram_outcome(old(pixmap)@, width, height, data@),
            whole == with_reply(
                out@,
                datagram_outcome(pixmap@, width, height, data@.skip(pos as int)),
            ),
        decreases data@.len() - pos,
    {
        let ghost rest = data@.skip(pos as int);
        let ghost cells = pixmap@;
        let end: usize = next_line_length(data, pos);
        let line: &[u8] = slice_subrange(data, pos, pos + end);
        proof {
            assert(line@ =~= rest.take(end as int));
            assert(rest.skip(end as int) =~= data@.skip(pos + end));
        }
        if parse_request(line).is_err() {
            return None;
        }
        let mut reply: Vec<u8> = handle_line(pixmap, line);
        proof {
            let tail = datagram_outcome(pixmap@, width, height, data@.skip(pos + end));
            if tail.reply is Some {
                assert((out@ + reply@) + tail.reply->Some_0 =~= out@ + (reply@
                    + tail.reply->Some_0));
            }
        }
        out.append(&mut reply);
        pos = pos + end;
    }
    proof {
        assert(data@.skip(pos as int).len() == 0);
        assert(out@ + Seq::<u8>::empty() =~= out@);
    }
    Some(out)
}

} // verus!
