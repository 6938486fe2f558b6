//! What the server does with a request: the dispatch to the canvas, and the
//! bytes it answers with, be it the response or a diagnostic.

use vstd::prelude::*;
use crate::color::Color;
use crate::pixmap::{cell_index, inside, law_set_then_get, GenericError, Pixmap};
use crate::protocol::{
    format_response, help_bytes, help_text, parse_request, request_of_line, response_of_fields,
    response_of_message, response_text, valid_response, ParseError, Request, Response,
    ResponseView, StateEncoding, STATE_WORD,
};
use crate::protocol_laws::{
    is_alphanumeric, is_token, law_response_round_trip, lemma_body_of_line, lemma_not_help,
    lemma_number_token, lemma_token, lemma_words,
};
use crate::state_encoding::{encode_rgb64, law_rgb64_round_trip, rgb64_text};
use crate::text::{
    lemma_split_single, no_space, number_text, push_number, split_fields, upper, NEWLINE, SPACE,
};
use vstd::slice::slice_to_vec;

verus! {

/// The word `error`, with which every diagnostic begins.
pub const ERROR_WORD: [u8; 5] = [0x65, 0x72, 0x72, 0x6F, 0x72];

/// The word `syntax`.
pub const SYNTAX_WORD: [u8; 6] = [0x73, 0x79, 0x6E, 0x74, 0x61, 0x78];

/// The word `coordinates`.
pub const COORDINATES_WORD: [u8; 11] = [
    0x63,
    0x6F,
    0x6F,
    0x72,
    0x64,
    0x69,
    0x6E,
    0x61,
    0x74,
    0x65,
    0x73,
];

/// The word `size`.
pub const DIMENSIONS_WORD: [u8; 4] = [0x73, 0x69, 0x7A, 0x65];

/// Why a request got a diagnostic in place of its response.
#[derive(Clone, Copy, Debug, PartialEq, Eq)]
pub enum Failure {
    /// The line is no request.
    Parse(ParseError),
    /// The canvas refused the request.
    Canvas(GenericError),
}

/// The part of a diagnostic that follows the word `error`: what failed, and
/// the numbers that say where. For coordinates outside the canvas these are
/// the coordinates and, after the word `size`, the dimensions of the canvas.
pub open spec fn diagnostic_detail(failure: Failure) -> Seq<u8> {
    match failure {
        Failure::Parse(ParseError::Syntax { position }) => SYNTAX_WORD@ + seq![SPACE]
            + number_text(position as nat),
        Failure::Canvas(GenericError::InvalidCoordinates { target, size }) => COORDINATES_WORD@
            + seq![SPACE] + number_text(target.0 as nat) + seq![SPACE] + number_text(
            target.1 as nat,
        ) + seq![SPACE] + DIMENSIONS_WORD@ + seq![SPACE] + number_text(size.0 as nat) + seq![
            SPACE,
        ] + number_text(size.1 as nat),
        Failure::Canvas(GenericError::InvalidSize(width, height)) => DIMENSIONS_WORD@ + seq![
            SPACE,
        ] + number_text(width as nat) + seq![SPACE] + number_text(height as nat),
    }
}

/// The diagnostic line for a failure: the word `error` and the detail.
pub open spec fn diagnostic_text(failure: Failure) -> Seq<u8> {
    (ERROR_WORD@ + seq![SPACE] + diagnostic_detail(failure)).push(NEWLINE)
}

/// Writes the diagnostic line for a failure.
pub fn format_diagnostic(failure: &Failure) -> (out: Vec<u8>)
    ensures
        out@ == diagnostic_text(*failure),
{
    let mut out: Vec<u8> = Vec::new();
    out.extend_from_slice(ERROR_WORD.as_slice());
    out.push(SPACE);
    match *failure {
        Failure::Parse(ParseError::Syntax { position }) => {
            out.extend_from_slice(SYNTAX_WORD.as_slice());
            out.push(SPACE);
            push_number(&mut out, position);
        },
        Failure::Canvas(GenericError::InvalidCoordinates { target, size }) => {
            out.extend_from_slice(COORDINATES_WORD.as_slice());
            out.push(SPACE);
            push_number(&mut out, target.0);
            out.push(SPACE);
            push_number(&mut out, target.1);
            out.push(SPACE);
            out.extend_from_slice(DIMENSIONS_WORD.as_slice());
            out.push(SPACE);
            push_number(&mut out, size.0);
            out.push(SPACE);
            push_number(&mut out, size.1);
        },
        Failure::Canvas(GenericError::InvalidSize(width, height)) => {
            out.extend_from_slice(DIMENSIONS_WORD.as_slice());
            out.push(SPACE);
            push_number(&mut out, width);
            out.push(SPACE);
            push_number(&mut out, height);
        },
    }
    out.push(NEWLINE);
    assert(out@ =~= diagnostic_text(*failure));
    out
}

/// What a request is answered with on a canvas of the given cells: a
/// response, nothing, or the reason why the canvas refused it.
pub open spec fn outcome_of(cells: Seq<Color>, width: nat, height: nat, request: Request) -> Result<
    Option<ResponseView>,
    GenericError,
> {
    match request {
        Request::GetSize => Ok(
            Some(ResponseView::Size { width: width as usize, height: height as usize }),
        ),
        Request::GetPixel { x, y } => if inside(width, height, x as nat, y as nat) {
            Ok(
                Some(
                    ResponseView::Pixel {
                        x,
                        y,
                        color: cells[cell_index(width, x as nat, y as nat) as int],
                    },
                ),
            )
        } else {
            Err(
                GenericError::InvalidCoordinates {
                    target: (x, y),
                    size: (width as usize, height as usize),
                },
            )
        },
        Request::SetPixel { x, y, color } => if inside(width, height, x as nat, y as nat) {
            Ok(None)
        } else {
            Err(
                GenericError::InvalidCoordinates {
                    target: (x, y),
                    size: (width as usize, height as usize),
                },
            )
        },
        Request::GetState { encoding } => Ok(
            Some(ResponseView::State { encoding, bytes: rgb64_text(cells) }),
        ),
        Request::Help { topic } => Ok(Some(ResponseView::Help { text: help_text(topic) })),
    }
}

/// The cells of the canvas after a request: only a write inside the canvas
/// changes them, and it changes one cell.
pub open spec fn cells_after(cells: Seq<Color>, width: nat, height: nat, request: Request) -> Seq<
    Color,
> {
    match request {
        Request::SetPixel { x, y, color } => if inside(width, height, x as nat, y as nat) {
            cells.update(cell_index(width, x as nat, y as nat) as int, color)
        } else {
            cells
        },
        _ => cells,
    }
}

/// Applies a request to the canvas and gives the response, if one is due.
pub fn handle_request(pixmap: &mut Pixmap, request: &Request) -> (res: Result<
    Option<Response>,
    GenericError,
>)
    ensures
        final(pixmap).width() == old(pixmap).width(),
        final(pixmap).height() == old(pixmap).height(),
        final(pixmap)@ == cells_after(
            old(pixmap)@,
            old(pixmap).width(),
            old(pixmap).height(),
            *request,
        ),
        match outcome_of(old(pixmap)@, old(pixmap).width(), old(pixmap).height(), *request) {
            Ok(Some(response)) => res matches Ok(Some(r)) && r@ == response,
            Ok(None) => res matches Ok(None),
            Err(e) => res == Err::<Option<Response>, GenericError>(e),
        },
{
    match *request {
        Request::GetSize => {
            let size: (usize, usize) = pixmap.get_size();
            Ok(Some(Response::Size { width: size.0, height: size.1 }))
        },
        Request::GetPixel { x, y } => {
            match pixmap.get_pixel(x, y) {
                Ok(color) => Ok(Some(Response::Pixel { x, y, color })),
                Err(e) => Err(e),
            }
        },
        Request::SetPixel { x, y, color } => {
            match pixmap.set_pixel(x, y, color) {
                Ok(()) => Ok(None),
                Err(e) => Err(e),
            }
        },
        Request::GetState { encoding } => {
            let cells: Vec<Color> = pixmap.get_raw_data();
            match encoding {
                StateEncoding::Rgb64 => Ok(
                    Some(Response::State { encoding, bytes: encode_rgb64(cells.as_slice()) }),
                ),
            }
        },
        Request::Help { topic } => Ok(
            Some(Response::Help { text: slice_to_vec(help_bytes(topic)) }),
        ),
    }
}

/// The bytes that answer a line: the response, nothing for a write that was
/// done, or one diagnostic line.
pub open spec fn reply_of_line(cells: Seq<Color>, width: nat, height: nat, line: Seq<u8>) -> Seq<
    u8,
> {
    match request_of_line(line) {
        Err(e) => diagnostic_text(Failure::Parse(e)),
        Ok(request) => match outcome_of(cells, width, height, request) {
            Err(e) => diagnostic_text(Failure::Canvas(e)),
            Ok(None) => Seq::<u8>::empty(),
            Ok(Some(response)) => response_text(response),
        },
    }
}

/// The cells of the canvas after a line was handled.
pub open spec fn cells_after_line(cells: Seq<Color>, width: nat, height: nat, line: Seq<u8>) -> Seq<
    Color,
> {
    match request_of_line(line) {
        Err(_) => cells,
        Ok(request) => cells_after(cells, width, height, request),
    }
}

/// Handles one request line: parses it, applies it to the canvas and gives
/// the bytes to send back. A line that is no request, or that the canvas
/// refuses, gets a diagnostic and changes nothing.
pub fn handle_line(pixmap: &mut Pixmap, line: &[u8]) -> (out: Vec<u8>)
    ensures
        final(pixmap).width() == old(pixmap).width(),
        final(pixmap).height() == old(pixmap).height(),
        final(pixmap)@ == cells_after_line(
            old(pixmap)@,
            old(pixmap).width(),
            old(pixmap).height(),
            line@,
        ),
        out@ == reply_of_line(old(pixmap)@, old(pixmap).width(), old(pixmap).height(), line@),
{
    match parse_request(line) {
        Err(e) => format_diagnostic(&Failure::Parse(e)),
        Ok(request) => match handle_request(pixmap, &request) {
            Err(e) => format_diagnostic(&Failure::Canvas(e)),
            Ok(None) => Vec::new(),
            Ok(Some(response)) => format_response(&response),
        },
    }
}

/// Every response that the server gives is one that a client reads back.
pub proof fn law_outcome_valid(cells: Seq<Color>, width: nat, height: nat, request: Request)
    ensures
        outcome_of(cells, width, height, request) matches Ok(Some(response)) ==> valid_response(
            response,
        ) && response_of_message(response_text(response)) == Ok::<ResponseView, ParseError>(
            response,
        ),
{
    match outcome_of(cells, width, height, request) {
        Ok(Some(response)) => {
            match request {
                Request::GetState { encoding } => {
                    law_rgb64_round_trip(cells);
                },
                Request::Help { topic } => {
                    assert(response == ResponseView::Help { text: help_text(topic) });
                },
                _ => {},
            }
            law_response_round_trip(response);
        },
        _ => {},
    }
}

/// A line that begins with a word and a space has that word as its first
/// field, whatever follows.
pub proof fn lemma_first_field(word: Seq<u8>, rest: Seq<u8>)
    requires
        no_space(word),
    ensures
        split_fields(word + seq![SPACE] + rest).len() >= 2,
        split_fields(word + seq![SPACE] + rest)[0] == word,
    decreases rest.len(),
{
    let s = word + seq![SPACE] + rest;
    if rest.len() == 0 {
        assert(s.drop_last() =~= word);
        lemma_split_single(word);
    } else {
        lemma_first_field(word, rest.drop_last());
        assert(s.drop_last() =~= word + seq![SPACE] + rest.drop_last());
    }
}

/// Whether a byte string holds letters, digits and spaces only.
pub open spec fn is_plain(s: Seq<u8>) -> bool {
    forall|i: int| 0 <= i < s.len() ==> is_alphanumeric(#[trigger] s[i]) || s[i] == SPACE
}

/// A word or a space behind plain text is plain text.
proof fn lemma_plain_append(a: Seq<u8>, b: Seq<u8>)
    requires
        is_plain(a),
        is_token(b) || b == seq![SPACE],
    ensures
        is_plain(a + b),
{
    assert forall|i: int| 0 <= i < (a + b).len() implies is_alphanumeric(#[trigger] (a + b)[i])
        || (a + b)[i] == SPACE by {
        if i < a.len() {
            assert((a + b)[i] == a[i]);
        } else {
            assert((a + b)[i] == b[i - a.len()]);
        }
    }
}

/// The detail of a diagnostic is plain text.
proof fn lemma_detail_is_plain(failure: Failure)
    ensures
        is_plain(diagnostic_detail(failure)),
{
    lemma_words();
    let sp = seq![SPACE];
    assert(is_token(SYNTAX_WORD@));
    assert(is_token(COORDINATES_WORD@));
    assert(is_token(DIMENSIONS_WORD@));
    let empty = Seq::<u8>::empty();
    match failure {
        Failure::Parse(ParseError::Syntax { position }) => {
            lemma_number_token(position);
            lemma_plain_append(empty, SYNTAX_WORD@);
            assert(empty + SYNTAX_WORD@ =~= SYNTAX_WORD@);
            lemma_plain_append(SYNTAX_WORD@, sp);
            lemma_plain_append(SYNTAX_WORD@ + sp, number_text(position as nat));
        },
        Failure::Canvas(GenericError::InvalidCoordinates { target, size }) => {
            lemma_number_token(target.0);
            lemma_number_token(target.1);
            lemma_number_token(size.0);
            lemma_number_token(size.1);
            let a = COORDINATES_WORD@;
            lemma_plain_append(empty, a);
            assert(empty + a =~= a);
            lemma_plain_append(a, sp);
            let b = a + sp + number_text(target.0 as nat);
            lemma_plain_append(a + sp, number_text(target.0 as nat));
            lemma_plain_append(b, sp);
            let c = b + sp + number_text(target.1 as nat);
            lemma_plain_append(b + sp, number_text(target.1 as nat));
            lemma_plain_append(c, sp);
            let d = c + sp + DIMENSIONS_WORD@;
            lemma_plain_append(c + sp, DIMENSIONS_WORD@);
            lemma_plain_append(d, sp);
            let e = d + sp + number_text(size.0 as nat);
            lemma_plain_append(d + sp, number_text(size.0 as nat));
            lemma_plain_append(e, sp);
            lemma_plain_append(e + sp, number_text(size.1 as nat));
        },
        Failure::Canvas(GenericError::InvalidSize(width, height)) => {
            lemma_number_token(width);
            lemma_number_token(height);
            let a = DIMENSIONS_WORD@;
            lemma_plain_append(empty, a);
            assert(empty + a =~= a);
            lemma_plain_append(a, sp);
            let b = a + sp + number_text(width as nat);
            lemma_plain_append(a + sp, number_text(width as nat));
            lemma_plain_append(b, sp);
            lemma_plain_append(b + sp, number_text(height as nat));
        },
    }
}

/// A diagnostic is a single line that begins with a lower-case letter, and
/// no client reads it as a response.
pub proof fn law_diagnostic_is_no_response(failure: Failure)
    ensures
        diagnostic_text(failure).len() > 0,
        diagnostic_text(failure)[0] == 0x65u8,
        diagnostic_text(failure).last() == NEWLINE,
        forall|i: int|
            0 <= i < diagnostic_text(failure).len() - 1 ==> #[trigger] diagnostic_text(failure)[i]
                != NEWLINE,
        response_of_message(diagnostic_text(failure)) is Err,
{
    let line = diagnostic_text(failure);
    let body = line.drop_last();
    lemma_detail_is_plain(failure);

    let rest = diagnostic_detail(failure);
    let last: usize = match failure {
        Failure::Parse(ParseError::Syntax { position }) => position,
        Failure::Canvas(GenericError::InvalidCoordinates { target, size }) => size.1,
        Failure::Canvas(GenericError::InvalidSize(width, height)) => height,
    };
    lemma_number_token(last);
    lemma_token(number_text(last as nat));
    assert(body =~= ERROR_WORD@ + seq![SPACE] + rest);
    assert(line == body.push(NEWLINE));
    assert forall|i: int| 0 <= i < line.len() - 1 implies #[trigger] line[i] != NEWLINE by {
        if i > 5 {
            assert(line[i] == rest[i - 6]);
        }
    }
    assert(rest.last() == number_text(last as nat).last());
    assert(body.last() == rest.last());
    lemma_body_of_line(body);
    assert(line[0] == ERROR_WORD@[0]);
    lemma_not_help(line);
    lemma_first_field(ERROR_WORD@, rest);
    lemma_words();
    let fields = split_fields(body);
    assert(upper(fields[0][0]) != upper(STATE_WORD@[0]));
    assert(response_of_fields(fields) == Err::<ResponseView, int>(0));
}

/// A client that writes a cell inside the canvas and then asks for it gets
/// no answer to the write and the written color as the answer to the
/// question.
pub proof fn law_set_then_get_request(
    cells: Seq<Color>,
    width: nat,
    height: nat,
    x: usize,
    y: usize,
    color: Color,
)
    requires
        cells.len() == width * height,
        inside(width, height, x as nat, y as nat),
    ensures
        outcome_of(cells, width, height, Request::SetPixel { x, y, color }) == Ok::<
            Option<ResponseView>,
            GenericError,
        >(None),
        outcome_of(
            cells_after(cells, width, height, Request::SetPixel { x, y, color }),
            width,
            height,
            Request::GetPixel { x, y },
        ) == Ok::<Option<ResponseView>, GenericError>(Some(ResponseView::Pixel { x, y, color })),
{
    law_set_then_get(cells, width, height, x as nat, y as nat, color);
}

/// Only a write changes the canvas.
pub proof fn law_reads_change_nothing(cells: Seq<Color>, width: nat, height: nat, request: Request)
    requires
        !(request is SetPixel),
    ensures
        cells_after(cells, width, height, request) == cells,
{
}

} // verus!
