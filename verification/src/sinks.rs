//! What the sinks make of the canvas: the bytes of a frame in the pixel
//! format of the consumer, and what a failure means for the sink.

use vstd::prelude::*;
use crate::color::Color;

verus! {

/// How the bytes of a pixel are laid out.
#[derive(Clone, Copy, Debug, PartialEq, Eq, Structural)]
pub enum PixelFormat {
    /// Three bytes: red, green, blue. The input format of the video encoder.
    Rgb24,
    /// Four bytes: blue, green, red and a zero byte. The format of a
    /// 32-bit framebuffer.
    Bgrx32,
}

/// The number of bytes of a pixel.
pub open spec fn pixel_size(format: PixelFormat) -> int {
    match format {
        PixelFormat::Rgb24 => 3,
        PixelFormat::Bgrx32 => 4,
    }
}

/// The bytes of one pixel.
pub open spec fn pixel_bytes(format: PixelFormat, color: Color) -> Seq<u8> {
    match format {
        PixelFormat::Rgb24 => seq![color.0, color.1, color.2],
        PixelFormat::Bgrx32 => seq![color.2, color.1, color.0, 0u8],
    }
}

/// The bytes of a frame: the pixels in row-major order, one after the other.
pub open spec fn frame_bytes(format: PixelFormat, cells: Seq<Color>) -> Seq<u8> {
    Seq::new(
        (pixel_size(format) * cells.len()) as nat,
        |j: int| pixel_bytes(format, cells[j / pixel_size(format)])[j % pixel_size(format)],
    )
}

/// Lays the cells of the canvas out as one frame.
pub fn encode_frame(format: PixelFormat, cells: &[Color]) -> (out: Vec<u8>)
    ensures
        out@ == frame_bytes(format, cells@),
{
    let mut out: Vec<u8> = Vec::new();
    let ghost size = pixel_size(format);
    let mut i: usize = 0;
    while i < cells.len()
        invariant
            i <= cells@.len(),
            size == pixel_size(format),
            out@.len() == size * i,
            forall|j: int|
                0 <= j < size * i ==> #[trigger] out@[j] == pixel_bytes(format, cells@[j / size])[j
                    % size],
        decreases cells@.len() - i,
    {
        let color: Color = cells[i];
        let ghost before = out@;
        match format {
            PixelFormat::Rgb24 => {
                out.push(color.0);
                out.push(color.1);
                out.push(color.2);
            },
            PixelFormat::Bgrx32 => {
                out.push(color.2);
                out.push(color.1);
                out.push(color.0);
                out.push(0);
            },
        }
        proof {
            assert(size * (i + 1) == size * i + size) by (nonlinear_arith);
            assert forall|j: int| 0 <= j < size * (i + 1) implies #[trigger] out@[j]
                == pixel_bytes(format, cells@[j / size])[j % size] by {
                if j < size * i {
                    assert(out@[j] == before[j]);
                } else {
                    let r = j - size * i;
                    assert(0 <= r < size);
                    assert(j / size == i && j % size == r) by (nonlinear_arith)
                        requires
                            j == size * i + r,
                            0 <= r < size,
                            i >= 0,
                    ;
                }
            }
        }
        i = i + 1;
    }
    assert(out@ =~= frame_bytes(format, cells@));
    out
}

/// The microseconds in a second.
pub const MICROS_PER_SECOND: u64 = 1_000_000;

/// The time between two frames at a frame rate, in microseconds. A rate of
/// zero is taken as one frame in a second, and the time is never shorter
/// than one microsecond.
pub open spec fn frame_interval_of(framerate: usize) -> u64 {
    if framerate == 0 {
        MICROS_PER_SECOND
    } else if framerate >= MICROS_PER_SECOND {
        1
    } else {
        (MICROS_PER_SECOND / framerate as u64) as u64
    }
}

/// The time between two frames at a frame rate, in microseconds.
pub fn frame_interval_micros(framerate: usize) -> (micros: u64)
    ensures
        micros == frame_interval_of(framerate),
        micros >= 1,
{
    if framerate == 0 {
        MICROS_PER_SECOND
    } else if framerate as u64 >= MICROS_PER_SECOND {
        1
    } else {
        let rate: u64 = framerate as u64;
        assert(1_000_000u64 / rate >= 1) by (nonlinear_arith)
            requires
                1 <= rate < 1_000_000,
        ;
        MICROS_PER_SECOND / rate
    }
}

/// The time between two snapshots, in seconds: the interval asked for, and
/// one second where none was asked for.
pub open spec fn snapshot_interval_of(interval_secs: u64) -> u64 {
    if interval_secs == 0 {
        1
    } else {
        interval_secs
    }
}

/// The time between two snapshots, in seconds.
pub fn snapshot_interval_secs(interval_secs: u64) -> (secs: u64)
    ensures
        secs == snapshot_interval_of(interval_secs),
        secs >= 1,
{
    if interval_secs == 0 {
        1
    } else {
        interval_secs
    }
}

/// What went wrong in a sink.
#[derive(Clone, Copy, Debug, PartialEq, Eq, Structural)]
pub enum SinkFailure {
    /// Serialising or writing failed this once.
    Transient,
    /// The video encoder has exited.
    EncoderExited,
}

/// What a sink does after a failure.
#[derive(Clone, Copy, Debug, PartialEq, Eq, Structural)]
pub enum SinkVerdict {
    /// The failure is logged and the sink goes on with its next tick.
    ContinueNextTick,
    /// The sink ends, and its handle carries the error.
    Terminate,
}

/// What a failure means for a sink.
pub open spec fn sink_verdict_of(failure: SinkFailure) -> SinkVerdict {
    match failure {
        SinkFailure::Transient => SinkVerdict::ContinueNextTick,
        SinkFailure::EncoderExited => SinkVerdict::Terminate,
    }
}

/// Decides what a sink does after a failure.
pub fn after_sink_failure(failure: SinkFailure) -> (verdict: SinkVerdict)
    ensures
        verdict == sink_verdict_of(failure),
{
    match failure {
        SinkFailure::Transient => SinkVerdict::ContinueNextTick,
        SinkFailure::EncoderExited => SinkVerdict::Terminate,
    }
}

} // verus!
