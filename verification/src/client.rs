//! A painting client: it asks the server for the dimensions of the canvas
//! and then fills the canvas, column by column, with one color.

use vstd::prelude::*;
use crate::color::Color;
use crate::protocol::{format_request, request_text, Request};

verus! {

/// The requests that paint the first `count` cells of column `x`, from the
/// top down, one line each.
pub open spec fn column_text(x: usize, count: nat, color: Color) -> Seq<u8>
    decreases count,
{
    if count == 0 {
        Seq::<u8>::empty()
    } else {
        column_text(x, (count - 1) as nat, color) + request_text(
            Request::SetPixel { x, y: (count - 1) as usize, color },
        )
    }
}

/// The bytes to send to paint column `x` of a canvas of the given height.
pub fn paint_column(x: usize, height: usize, color: Color) -> (out: Vec<u8>)
    ensures
        out@ == column_text(x, height as nat, color),
{
    let mut out: Vec<u8> = Vec::new();
    let mut y: usize = 0;
    while y < height
        invariant
            y <= height,
            out@ == column_text(x, y as nat, color),
        decreases height - y,
    {
        let mut line: Vec<u8> = format_request(&Request::SetPixel { x, y, color });
        out.append(&mut line);
        y = y + 1;
    }
    out
}

/// The requests that paint the first `count` columns of a canvas of the
/// given height, column after column from the left, each from the top down.
pub open spec fn sweep_text(count: nat, height: nat, color: Color) -> Seq<u8>
    decreases count,
{
    if count == 0 {
        Seq::<u8>::empty()
    } else {
        sweep_text((count - 1) as nat, height, color) + column_text(
            (count - 1) as usize,
            height,
            color,
        )
    }
}

/// The bytes to send to paint a whole canvas in one color: one write for
/// every cell, the columns from the left, each column from the top down.
pub fn paint_sweep(width: usize, height: usize, color: Color) -> (out: Vec<u8>)
    ensures
        out@ == sweep_text(width as nat, height as nat, color),
{
    let mut out: Vec<u8> = Vec::new();
    let mut x: usize = 0;
    while x < width
        invariant
            x <= width,
            out@ == sweep_text(x as nat, height as nat, color),
        decreases width - x,
    {
        let mut column: Vec<u8> = paint_column(x, height, color);
        out.append(&mut column);
        x = x + 1;
    }
    out
}

} // verus!
