//! One stream connection: the bytes received but not yet handled, the lines
//! cut from them, and the batching of what is written back.

use vstd::prelude::*;
use vstd::slice::{slice_subrange, slice_to_vec};
use crate::color::Color;
use crate::framing::{first_newline, frame_of, lemma_first_newline, next_frame, Frame};
use crate::handler::{cells_after_line, handle_line, reply_of_line};
use crate::pixmap::Pixmap;
use crate::text::NEWLINE;

verus! {

/// Why a connection has to be closed.
#[derive(Clone, Copy, Debug, PartialEq, Eq, Structural)]
pub enum FramingError {
    /// The client sent more bytes than a frame may have without ending the line.
    FrameTooLong,
}

/// What handling the bytes of a stream gives: the cells afterwards, the
/// bytes to send back, the bytes that wait for the rest of their line, and
/// whether the frame at the front is too long.
pub struct StreamOutcome {
    pub cells: Seq<Color>,
    pub output: Seq<u8>,
    pub rest: Seq<u8>,
    pub too_long: bool,
}

/// Handles the complete lines at the front of `buffered` in order, and
/// stops at the first frame that is incomplete or too long.
pub open spec fn stream_outcome(
    cells: Seq<Color>,
    width: nat,
    height: nat,
    buffered: Seq<u8>,
    max: usize,
) -> StreamOutcome
    decreases buffered.len(),
    via stream_outcome_decreases
{
    match frame_of(buffered, max) {
        Frame::Line { end } => {
            let line = buffered.take(end as int);
            let rest = stream_outcome(
                cells_after_line(cells, width, height, line),
                width,
                height,
                buffered.skip(end as int),
                max,
            );
            StreamOutcome {
                cells: rest.cells,
                output: reply_of_line(cells, width, height, line) + rest.output,
                rest: rest.rest,
                too_long: rest.too_long,
            }
        },
        Frame::Incomplete => StreamOutcome {
            cells,
            output: Seq::<u8>::empty(),
            rest: buffered,
            too_long: false,
        },
        Frame::TooLong => StreamOutcome {
            cells,
            output: Seq::<u8>::empty(),
            rest: buffered,
            too_long: true,
        },
    }
}

#[via_fn]
proof fn stream_outcome_decreases(
    cells: Seq<Color>,
    width: nat,
    height: nat,
    buffered: Seq<u8>,
    max: usize,
) {
    lemma_first_newline(buffered);
}

/// The outcome of a stream whose first lines gave `output` already.
pub open spec fn with_output(output: Seq<u8>, rest: StreamOutcome) -> StreamOutcome {
    StreamOutcome {
        cells: rest.cells,
        output: output + rest.output,
        rest: rest.rest,
        too_long: rest.too_long,
    }
}

/// What the server does after it received bytes on a connection.
#[derive(Debug, PartialEq, Eq)]
pub struct Step {
    /// The bytes to write back and flush, in order.
    pub output: Vec<u8>,
    /// Set when the connection has to be closed once `output` is written.
    pub error: Option<FramingError>,
}

/// The receiving side of a stream connection.
pub struct Connection {
    buffer: Vec<u8>,
    max_frame: usize,
}

impl Connection {
    /// The bytes received that do not make a whole line yet.
    pub closed spec fn buffered(&self) -> Seq<u8> {
        self.buffer@
    }

    /// The longest frame that the connection accepts, its newline included.
    pub closed spec fn max_frame(&self) -> usize {
        self.max_frame
    }

    /// A connection on which nothing was received yet.
    pub fn new(max_frame: usize) -> (connection: Connection)
        ensures
            connection.buffered() == Seq::<u8>::empty(),
            connection.max_frame() == max_frame,
    {
        Connection { buffer: Vec::new(), max_frame }
    }

    /// Takes the bytes that arrived, handles every line that they complete
    /// and keeps the rest for later. A frame that is too long ends the
    /// handling: the lines before it are answered, and the connection is to
    /// be closed.
    pub fn receive(&mut self, pixmap: &mut Pixmap, bytes: &[u8]) -> (step: Step)
        ensures
            final(self).max_frame() == old(self).max_frame(),
            final(pixmap).width() == old(pixmap).width(),
            final(pixmap).height() == old(pixmap).height(),
            ({
                let outcome = stream_outcome(
                    old(pixmap)@,
                    old(pixmap).width(),
                    old(pixmap).height(),
                    old(self).buffered() + bytes@,
                    old(self).max_frame(),
                );
                &&& final(pixmap)@ == outcome.cells
                &&& step.output@ == outcome.output
                &&& final(self).buffered() == outcome.rest
                &&& step.error == if outcome.too_long {
                    Some(FramingError::FrameTooLong)
                } else {
                    None::<FramingError>
                }
            }),
    {
        let ghost width = pixmap.width();
        let ghost height = pixmap.height();
        let ghost max = self.max_frame;
        self.buffer.extend_from_slice(bytes);
        let total: usize = self.buffer.len();
        let ghost all = self.buffer@;
        assert(all == old(self).buffered() + bytes@);
        let ghost whole = stream_outcome(pixmap@, width, height, all, max);
        let mut output: Vec<u8> = Vec::new();
        let mut error: Option<FramingError> = None;
        let mut pos: usize = 0;
        proof {
            assert(all.skip(0) =~= all);
            assert(output@ + whole.output =~= whole.output);
        }
        loop
            invariant_except_break
                error is None,
                whole == with_output(
                    output@,
                    stream_outcome(pixmap@, width, height, all.skip(pos as int), max),
                ),
            invariant
                pos <= all.len() == total,
                width == old(pixmap).width(),
                height == old(pixmap).height(),
                max == old(self).max_frame(),
                whole == stream_outcome(
                    old(pixmap)@,
                    width,
                    height,
                    old(self).buffered() + bytes@,
                    max,
                ),
                self.buffer@ == all,
                self.max_frame == max,
                pixmap.width() == width,
                pixmap.height() == height,
            ensures
                whole.cells == pixmap@,
                whole.output == output@,
                whole.rest == all.skip(pos as int),
                whole.too_long == (error is Some),
                error is Some ==> error == Some(FramingError::FrameTooLong),
            decreases all.len() - pos,
        {
            let ghost front = all.skip(pos as int);
            match next_frame(self.buffer.as_slice(), pos, self.max_frame) {
                Frame::Line { end } => {
                    let line: &[u8] = slice_subrange(self.buffer.as_slice(), pos, pos + end);
                    proof {
                        assert(line@ =~= front.take(end as int));
                        assert(front.skip(end as int) =~= all.skip(pos + end));
                    }
                    let mut reply: Vec<u8> = handle_line(pixmap, line);
                    proof {
                        let tail = stream_outcome(
                            pixmap@,
                            width,
                            height,
                            all.skip(pos + end),
                            max,
                        );
                        assert((output@ + reply@) + tail.output =~= output@ + (reply@
                            + tail.output));
                    }
                    output.append(&mut reply);
                    pos = pos + end;
                },
                Frame::Incomplete => {
                    assert(output@ + Seq::<u8>::empty() =~= output@);
                    break ;
                },
                Frame::TooLong => {
                    assert(output@ + Seq::<u8>::empty() =~= output@);
                    error = Some(FramingError::FrameTooLong);
                    break ;
                },
            }
        }
        let rest: Vec<u8> = slice_to_vec(slice_subrange(self.buffer.as_slice(), pos, total));
        assert(rest@ =~= all.skip(pos as int));
        self.buffer = rest;
        Step { output, error }
    }
}

/// What a write did to the pending bytes of a write buffer.
pub struct WriteOutcome {
    /// The bytes to hand to the transport now.
    pub flushed: Seq<u8>,
    /// The bytes that wait for the next flush.
    pub pending: Seq<u8>,
}

/// Batches `bytes` behind the pending ones. Where both together would not
/// fit the capacity, the pending bytes are flushed first, and the new ones
/// go the same way if they alone fill the buffer.
pub open spec fn write_outcome(pending: Seq<u8>, bytes: Seq<u8>, capacity: nat) -> WriteOutcome {
    if pending.len() + bytes.len() <= capacity {
        WriteOutcome { flushed: Seq::<u8>::empty(), pending: pending + bytes }
    } else if bytes.len() >= capacity {
        WriteOutcome { flushed: pending + bytes, pending: Seq::<u8>::empty() }
    } else {
        WriteOutcome { flushed: pending, pending: bytes }
    }
}

/// The sending side of a stream connection: responses wait here until they
/// are flushed.
pub struct WriteBuffer {
    data: Vec<u8>,
    capacity: usize,
}

impl WriteBuffer {
    /// The bytes that wait for the next flush.
    pub closed spec fn pending(&self) -> Seq<u8> {
        self.data@
    }

    /// The number of bytes that may wait.
    pub closed spec fn capacity(&self) -> nat {
        self.capacity as nat
    }

    /// An empty write buffer.
    pub fn new(capacity: usize) -> (buffer: WriteBuffer)
        ensures
            buffer.pending() == Seq::<u8>::empty(),
            buffer.capacity() == capacity,
    {
        WriteBuffer { data: Vec::new(), capacity }
    }

    /// Batches bytes for writing and gives back what has to be written to
    /// the transport now, which is nothing as long as the buffer has room.
    pub fn write(&mut self, bytes: &[u8]) -> (flushed: Vec<u8>)
        ensures
            final(self).capacity() == old(self).capacity(),
            flushed@ == write_outcome(old(self).pending(), bytes@, old(self).capacity()).flushed,
            final(self).pending() == write_outcome(
                old(self).pending(),
                bytes@,
                old(self).capacity(),
            ).pending,
    {
        let fits: bool = match self.data.len().checked_add(bytes.len()) {
            Some(total) => total <= self.capacity,
            None => false,
        };
        if fits {
            self.data.extend_from_slice(bytes);
            Vec::new()
        } else {
            let mut flushed: Vec<u8> = Vec::new();
            flushed.append(&mut self.data);
            if bytes.len() >= self.capacity {
                flushed.extend_from_slice(bytes);
            } else {
                self.data.extend_from_slice(bytes);
            }
            assert(self.data@ =~= write_outcome(
                old(self).pending(),
                bytes@,
                old(self).capacity(),
            ).pending);
            flushed
        }
    }

    /// Takes all pending bytes out, to be written to the transport: the end
    /// of a request cycle.
    pub fn flush(&mut self) -> (flushed: Vec<u8>)
        ensures
            final(self).capacity() == old(self).capacity(),
            flushed@ == old(self).pending(),
            final(self).pending() == Seq::<u8>::empty(),
    {
        let mut flushed: Vec<u8> = Vec::new();
        flushed.append(&mut self.data);
        flushed
    }
}

/// A write loses nothing and keeps the order: what is flushed, followed by
/// what is pending, is what was pending followed by what was written. What
/// is pending afterwards fits the capacity.
pub proof fn law_write_keeps_bytes(pending: Seq<u8>, bytes: Seq<u8>, capacity: nat)
    ensures
        write_outcome(pending, bytes, capacity).flushed + write_outcome(
            pending,
            bytes,
            capacity,
        ).pending == pending + bytes,
        write_outcome(pending, bytes, capacity).pending.len() <= capacity,
{
    let outcome = write_outcome(pending, bytes, capacity);
    assert(outcome.flushed + outcome.pending =~= pending + bytes);
}

/// A frame of a WebSocket session, as far as the server looks at it.
#[derive(Clone, Copy, Debug, PartialEq, Eq)]
pub enum WsFrame<'a> {
    /// A text frame: one request line.
    Text(&'a [u8]),
    /// A binary frame.
    Binary,
}

/// What the server does with a frame of a WebSocket session.
#[derive(Debug, PartialEq, Eq)]
pub enum WsReply {
    /// One text frame to send back.
    Text(Vec<u8>),
    /// Nothing to send: the request has no response.
    Nothing,
    /// Nothing to send: a binary frame is ignored with a warning.
    IgnoredBinary,
    /// The session has to be closed.
    Close(FramingError),
}

/// Handles one frame of a WebSocket session. A text frame is one request
/// line and must not be longer than a frame may be; its response, if it has
/// one, is one text frame. Binary frames change nothing.
pub fn handle_ws_frame(pixmap: &mut Pixmap, frame: WsFrame<'_>, max_frame: usize) -> (reply:
    WsReply)
    ensures
        final(pixmap).width() == old(pixmap).width(),
        final(pixmap).height() == old(pixmap).height(),
        match frame {
            WsFrame::Binary => reply is IgnoredBinary && final(pixmap)@ == old(pixmap)@,
            WsFrame::Text(line) => if line@.len() > max_frame {
                reply == WsReply::Close(FramingError::FrameTooLong) && final(pixmap)@ == old(
                    pixmap,
                )@
            } else {
                let bytes = reply_of_line(
                    old(pixmap)@,
                    old(pixmap).width(),
                    old(pixmap).height(),
                    line@,
                );
                &&& final(pixmap)@ == cells_after_line(
                    old(pixmap)@,
                    old(pixmap).width(),
                    old(pixmap).height(),
                    line@,
                )
                &&& bytes.len() == 0 ==> reply is Nothing
                &&& bytes.len() > 0 ==> (reply matches WsReply::Text(text) && text@ == bytes)
            },
        },
{
    match frame {
        WsFrame::Binary => WsReply::IgnoredBinary,
        WsFrame::Text(line) => {
            if line.len() > max_frame {
                return WsReply::Close(FramingError::FrameTooLong);
            }
            let bytes: Vec<u8> = handle_line(pixmap, line);
            if bytes.len() == 0 {
                WsReply::Nothing
            } else {
                WsReply::Text(bytes)
            }
        },
    }
}

/// More bytes behind a newline do not move it.
pub proof fn lemma_first_newline_prefix(buffered: Seq<u8>, more: Seq<u8>)
    requires
        first_newline(buffered) is Some,
    ensures
        first_newline(buffered + more) == first_newline(buffered),
    decreases buffered.len(),
{
    if buffered.len() > 0 && buffered[0] != NEWLINE {
        lemma_first_newline_prefix(buffered.drop_first(), more);
        assert((buffered + more).drop_first() =~= buffered.drop_first() + more);
    }
}

/// How a stream is cut into reads does not matter: handling some bytes and
/// then, with what was left of them, some more gives what handling all of
/// them at once gives. (After a frame that is too long nothing more is
/// handled: the connection is closed.)
pub proof fn law_chunking_does_not_matter(
    cells: Seq<Color>,
    width: nat,
    height: nat,
    buffered: Seq<u8>,
    more: Seq<u8>,
    max: usize,
)
    requires
        !stream_outcome(cells, width, height, buffered, max).too_long,
    ensures
        stream_outcome(cells, width, height, buffered + more, max) == with_output(
            stream_outcome(cells, width, height, buffered, max).output,
            stream_outcome(
                stream_outcome(cells, width, height, buffered, max).cells,
                width,
                height,
                stream_outcome(cells, width, height, buffered, max).rest + more,
                max,
            ),
        ),
    decreases buffered.len(),
{
    let first = stream_outcome(cells, width, height, buffered, max);
    let whole = stream_outcome(cells, width, height, buffered + more, max);
    lemma_first_newline(buffered);
    match frame_of(buffered, max) {
        Frame::Line { end } => {
            lemma_first_newline_prefix(buffered, more);
            let line = buffered.take(end as int);
            let next = cells_after_line(cells, width, height, line);
            assert((buffered + more).take(end as int) =~= line);
            assert((buffered + more).skip(end as int) =~= buffered.skip(end as int) + more);
            law_chunking_does_not_matter(next, width, height, buffered.skip(end as int), more, max);
            let second = stream_outcome(next, width, height, buffered.skip(end as int), max);
            let last = stream_outcome(second.cells, width, height, second.rest + more, max);
            let reply = reply_of_line(cells, width, height, line);
            assert(reply + (second.output + last.output) =~= (reply + second.output)
                + last.output);
        },
        Frame::Incomplete => {
            assert(Seq::<u8>::empty() + whole.output =~= whole.output);
        },
        Frame::TooLong => {},
    }
}

} // verus!
