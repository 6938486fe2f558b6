//! The line protocol: requests and responses, their text on the wire, and the
//! parsers that read that text back.
//!
//! A request is one line: a keyword and its arguments, separated by single
//! spaces. Keywords and help topics are read without regard to case. The line
//! ends in a newline, which may be missing and may be preceded by a carriage
//! return.

use vstd::prelude::*;
use vstd::slice::{slice_subrange, slice_to_vec};
use vstd::string::*;
use crate::color::{color_of_text, color_text, Color};
use crate::i18n::{HELP_GENERAL, HELP_PX, HELP_SIZE, HELP_STATE};
use crate::state_encoding::{byte_to_sextet, is_payload, is_payload_byte};
use crate::text::{
    body_length, bytes_equal, eq_ignore_case, field_position, line_body, matches_word,
    number_of, number_text, parse_number, push_number, split_fields, split_line, Fields,
    NEWLINE, SPACE,
};

verus! {

/// The keyword `SIZE`.
pub const SIZE_WORD: [u8; 4] = [0x53, 0x49, 0x5A, 0x45];

/// The keyword `PX`.
pub const PX_WORD: [u8; 2] = [0x50, 0x58];

/// The keyword `STATE`.
pub const STATE_WORD: [u8; 5] = [0x53, 0x54, 0x41, 0x54, 0x45];

/// The keyword `HELP`.
pub const HELP_WORD: [u8; 4] = [0x48, 0x45, 0x4C, 0x50];

/// The name of the encoding `rgb64`.
pub const RGB64_WORD: [u8; 5] = [0x72, 0x67, 0x62, 0x36, 0x34];

/// A command that help is available on.
#[derive(Clone, Copy, Debug, PartialEq, Eq, Structural)]
pub enum HelpTopic {
    Size,
    Px,
    State,
}

/// A scheme that encodes the whole canvas as one payload.
#[derive(Clone, Copy, Debug, PartialEq, Eq, Structural)]
pub enum StateEncoding {
    Rgb64,
}

/// What a client asks for.
#[derive(Clone, Copy, Debug, PartialEq, Eq)]
pub enum Request {
    /// The dimensions of the canvas.
    GetSize,
    /// The color of one cell.
    GetPixel { x: usize, y: usize },
    /// A new color for one cell.
    SetPixel { x: usize, y: usize, color: Color },
    /// The whole canvas in the given encoding.
    GetState { encoding: StateEncoding },
    /// Help on a topic, or the overview.
    Help { topic: Option<HelpTopic> },
}

/// What the server answers.
#[derive(Debug, PartialEq, Eq)]
pub enum Response {
    /// The dimensions of the canvas.
    Size { width: usize, height: usize },
    /// The color of one cell.
    Pixel { x: usize, y: usize, color: Color },
    /// The whole canvas: the encoding and the encoded payload.
    State { encoding: StateEncoding, bytes: Vec<u8> },
    /// A help text.
    Help { text: Vec<u8> },
}

/// The mathematical value of a response.
pub enum ResponseView {
    Size { width: usize, height: usize },
    Pixel { x: usize, y: usize, color: Color },
    State { encoding: StateEncoding, bytes: Seq<u8> },
    Help { text: Seq<u8> },
}

impl View for Response {
    type V = ResponseView;

    open spec fn view(&self) -> ResponseView {
        match *self {
            Response::Size { width, height } => ResponseView::Size { width, height },
            Response::Pixel { x, y, color } => ResponseView::Pixel { x, y, color },
            Response::State { encoding, bytes } => ResponseView::State { encoding, bytes: bytes@ },
            Response::Help { text } => ResponseView::Help { text: text@ },
        }
    }
}

/// Why a line could not be read.
#[derive(Clone, Copy, Debug, PartialEq, Eq)]
pub enum ParseError {
    /// The line does not follow the grammar. `position` is the offset of the
    /// first field that is wrong, or the length of the line where a field is
    /// missing.
    Syntax { position: usize },
}

/// The topic that a field names.
pub open spec fn topic_of(field: Seq<u8>) -> Option<HelpTopic> {
    if matches_word(field, SIZE_WORD@) {
        Some(HelpTopic::Size)
    } else if matches_word(field, PX_WORD@) {
        Some(HelpTopic::Px)
    } else if matches_word(field, STATE_WORD@) {
        Some(HelpTopic::State)
    } else {
        None
    }
}

/// The word for a topic.
pub open spec fn topic_word(topic: HelpTopic) -> Seq<u8> {
    match topic {
        HelpTopic::Size => SIZE_WORD@,
        HelpTopic::Px => PX_WORD@,
        HelpTopic::State => STATE_WORD@,
    }
}

/// The encoding that a field names. The name is matched exactly.
pub open spec fn encoding_of(field: Seq<u8>) -> Option<StateEncoding> {
    if field == RGB64_WORD@ {
        Some(StateEncoding::Rgb64)
    } else {
        None
    }
}

/// The name of an encoding.
pub open spec fn encoding_word(encoding: StateEncoding) -> Seq<u8> {
    match encoding {
        StateEncoding::Rgb64 => RGB64_WORD@,
    }
}

/// The request that the fields of a line spell, or the index of the first
/// field that is wrong or missing.
pub open spec fn request_of_fields(f: Seq<Seq<u8>>) -> Result<Request, int> {
    let n = f.len();
    if matches_word(f[0], SIZE_WORD@) {
        if n == 1 {
            Ok(Request::GetSize)
        } else {
            Err(1)
        }
    } else if matches_word(f[0], HELP_WORD@) {
        if n == 1 {
            Ok(Request::Help { topic: None })
        } else if topic_of(f[1]) is None {
            Err(1)
        } else if n == 2 {
            Ok(Request::Help { topic: topic_of(f[1]) })
        } else {
            Err(2)
        }
    } else if matches_word(f[0], PX_WORD@) {
        if n < 2 || number_of(f[1]) is None {
            Err(1)
        } else if n < 3 || number_of(f[2]) is None {
            Err(2)
        } else if n == 3 {
            Ok(Request::GetPixel { x: number_of(f[1]).unwrap(), y: number_of(f[2]).unwrap() })
        } else if color_of_text(f[3]) is None {
            Err(3)
        } else if n == 4 {
            Ok(
                Request::SetPixel {
                    x: number_of(f[1]).unwrap(),
                    y: number_of(f[2]).unwrap(),
                    color: color_of_text(f[3]).unwrap(),
                },
            )
        } else {
            Err(4)
        }
    } else if matches_word(f[0], STATE_WORD@) {
        if n < 2 || encoding_of(f[1]) is None {
            Err(1)
        } else if n == 2 {
            Ok(Request::GetState { encoding: encoding_of(f[1]).unwrap() })
        } else {
            Err(2)
        }
    } else {
        Err(0)
    }
}

/// The syntax error for a line whose field `k` is wrong or missing.
pub open spec fn syntax_error(fields: Seq<Seq<u8>>, body_len: nat, k: int) -> ParseError {
    ParseError::Syntax { position: field_position(fields, body_len, k) as usize }
}

/// What a request line means.
pub open spec fn request_of_line(line: Seq<u8>) -> Result<Request, ParseError> {
    let body = line_body(line);
    let fields = split_fields(body);
    match request_of_fields(fields) {
        Ok(request) => Ok(request),
        Err(k) => Err(syntax_error(fields, body.len(), k)),
    }
}

/// The line that carries a request, newline included.
pub open spec fn request_text(request: Request) -> Seq<u8> {
    match request {
        Request::GetSize => SIZE_WORD@.push(NEWLINE),
        Request::GetPixel { x, y } => (PX_WORD@ + seq![SPACE] + number_text(x as nat) + seq![
            SPACE,
        ] + number_text(y as nat)).push(NEWLINE),
        Request::SetPixel { x, y, color } => (PX_WORD@ + seq![SPACE] + number_text(x as nat)
            + seq![SPACE] + number_text(y as nat) + seq![SPACE] + color_text(color)).push(
            NEWLINE,
        ),
        Request::GetState { encoding } => (STATE_WORD@ + seq![SPACE] + encoding_word(
            encoding,
        )).push(NEWLINE),
        Request::Help { topic: None } => HELP_WORD@.push(NEWLINE),
        Request::Help { topic: Some(topic) } => (HELP_WORD@ + seq![SPACE] + topic_word(
            topic,
        )).push(NEWLINE),
    }
}

/// Reads a field as a help topic.
fn parse_topic(field: &[u8]) -> (res: Option<HelpTopic>)
    ensures
        res == topic_of(field@),
{
    if eq_ignore_case(field, SIZE_WORD.as_slice()) {
        Some(HelpTopic::Size)
    } else if eq_ignore_case(field, PX_WORD.as_slice()) {
        Some(HelpTopic::Px)
    } else if eq_ignore_case(field, STATE_WORD.as_slice()) {
        Some(HelpTopic::State)
    } else {
        None
    }
}

/// Reads a field as the name of an encoding.
fn parse_encoding(field: &[u8]) -> (res: Option<StateEncoding>)
    ensures
        res == encoding_of(field@),
{
    if bytes_equal(field, RGB64_WORD.as_slice()) {
        Some(StateEncoding::Rgb64)
    } else {
        None
    }
}

/// Decides what request the fields of a line spell.
fn request_from_fields(line: &[u8], n: usize, fields: &Fields) -> (res: Result<Request, usize>)
    requires
        n <= line@.len(),
        fields.describes(line@.take(n as int)),
        fields.ranges@.len() >= 1,
    ensures
        match request_of_fields(split_fields(line@.take(n as int))) {
            Ok(request) => res == Ok::<Request, usize>(request),
            Err(k) => res == Err::<Request, usize>(k as usize) && 0 <= k <= 4,
        },
{
    let count: usize = fields.count();
    let keyword: &[u8] = fields.field(line, n, 0);
    if eq_ignore_case(keyword, SIZE_WORD.as_slice()) {
        if count == 1 {
            Ok(Request::GetSize)
        } else {
            Err(1)
        }
    } else if eq_ignore_case(keyword, HELP_WORD.as_slice()) {
        if count == 1 {
            return Ok(Request::Help { topic: None });
        }
        match parse_topic(fields.field(line, n, 1)) {
            None => Err(1),
            Some(topic) => if count == 2 {
                Ok(Request::Help { topic: Some(topic) })
            } else {
                Err(2)
            },
        }
    } else if eq_ignore_case(keyword, PX_WORD.as_slice()) {
        if count < 2 {
            return Err(1);
        }
        let x: usize = match parse_number(fields.field(line, n, 1)) {
            None => {
                return Err(1);
            },
            Some(x) => x,
        };
        if count < 3 {
            return Err(2);
        }
        let y: usize = match parse_number(fields.field(line, n, 2)) {
            None => {
                return Err(2);
            },
            Some(y) => y,
        };
        if count == 3 {
            return Ok(Request::GetPixel { x, y });
        }
        match Color::parse_hex(fields.field(line, n, 3)) {
            None => Err(3),
            Some(color) => if count == 4 {
                Ok(Request::SetPixel { x, y, color })
            } else {
                Err(4)
            },
        }
    } else if eq_ignore_case(keyword, STATE_WORD.as_slice()) {
        if count < 2 {
            return Err(1);
        }
        match parse_encoding(fields.field(line, n, 1)) {
            None => Err(1),
            Some(encoding) => if count == 2 {
                Ok(Request::GetState { encoding })
            } else {
                Err(2)
            },
        }
    } else {
        Err(0)
    }
}

/// Reads a request line.
pub fn parse_request(line: &[u8]) -> (res: Result<Request, ParseError>)
    ensures
        res == request_of_line(line@),
{
    let n: usize = body_length(line);
    let fields: Fields = split_line(line, n);
    match request_from_fields(line, n, &fields) {
        Ok(request) => Ok(request),
        Err(k) => Err(ParseError::Syntax { position: fields.position(line, n, k) }),
    }
}

/// Appends the word for a topic.
fn push_topic(out: &mut Vec<u8>, topic: HelpTopic)
    ensures
        final(out)@ == old(out)@ + topic_word(topic),
{
    match topic {
        HelpTopic::Size => out.extend_from_slice(SIZE_WORD.as_slice()),
        HelpTopic::Px => out.extend_from_slice(PX_WORD.as_slice()),
        HelpTopic::State => out.extend_from_slice(STATE_WORD.as_slice()),
    }
}

/// Appends the name of an encoding.
fn push_encoding(out: &mut Vec<u8>, encoding: StateEncoding)
    ensures
        final(out)@ == old(out)@ + encoding_word(encoding),
{
    match encoding {
        StateEncoding::Rgb64 => out.extend_from_slice(RGB64_WORD.as_slice()),
    }
}

/// Writes a request as one line.
pub fn format_request(request: &Request) -> (out: Vec<u8>)
    ensures
        out@ == request_text(*request),
{
    let mut out: Vec<u8> = Vec::new();
    match *request {
        Request::GetSize => {
            out.extend_from_slice(SIZE_WORD.as_slice());
        },
        Request::GetPixel { x, y } => {
            out.extend_from_slice(PX_WORD.as_slice());
            out.push(SPACE);
            push_number(&mut out, x);
            out.push(SPACE);
            push_number(&mut out, y);
        },
        Request::SetPixel { x, y, color } => {
            out.extend_from_slice(PX_WORD.as_slice());
            out.push(SPACE);
            push_number(&mut out, x);
            out.push(SPACE);
            push_number(&mut out, y);
            out.push(SPACE);
            color.push_hex(&mut out);
        },
        Request::GetState { encoding } => {
            out.extend_from_slice(STATE_WORD.as_slice());
            out.push(SPACE);
            push_encoding(&mut out, encoding);
        },
        Request::Help { topic } => {
            out.extend_from_slice(HELP_WORD.as_slice());
            match topic {
                None => {},
                Some(topic) => {
                    out.push(SPACE);
                    push_topic(&mut out, topic);
                },
            }
        },
    }
    out.push(NEWLINE);
    assert(out@ =~= request_text(*request));
    out
}

/// The help text on a topic, or the overview.
pub open spec fn help_text(topic: Option<HelpTopic>) -> Seq<u8> {
    match topic {
        None => HELP_GENERAL.spec_bytes(),
        Some(HelpTopic::Size) => HELP_SIZE.spec_bytes(),
        Some(HelpTopic::Px) => HELP_PX.spec_bytes(),
        Some(HelpTopic::State) => HELP_STATE.spec_bytes(),
    }
}

/// A text as it is sent: followed by a newline, unless it ends in one.
pub open spec fn help_line(text: Seq<u8>) -> Seq<u8> {
    if text.len() > 0 && text.last() == NEWLINE {
        text
    } else {
        text.push(NEWLINE)
    }
}

/// Whether a message is the given help text, with or without the newline
/// that ends it on the wire.
pub open spec fn is_help_message(message: Seq<u8>, text: Seq<u8>) -> bool {
    message == text || message == help_line(text)
}

/// The help text that a message carries, if it is one of the server's.
pub open spec fn help_of_message(message: Seq<u8>) -> Option<Seq<u8>> {
    if is_help_message(message, help_text(None)) {
        Some(help_text(None))
    } else if is_help_message(message, help_text(Some(HelpTopic::Size))) {
        Some(help_text(Some(HelpTopic::Size)))
    } else if is_help_message(message, help_text(Some(HelpTopic::Px))) {
        Some(help_text(Some(HelpTopic::Px)))
    } else if is_help_message(message, help_text(Some(HelpTopic::State))) {
        Some(help_text(Some(HelpTopic::State)))
    } else {
        None
    }
}

/// The response that the fields of a line spell, or the index of the first
/// field that is wrong or missing.
pub open spec fn response_of_fields(f: Seq<Seq<u8>>) -> Result<ResponseView, int> {
    let n = f.len();
    if matches_word(f[0], SIZE_WORD@) {
        if n < 2 || number_of(f[1]) is None {
            Err(1)
        } else if n < 3 || number_of(f[2]) is None {
            Err(2)
        } else if n == 3 {
            Ok(
                ResponseView::Size {
                    width: number_of(f[1]).unwrap(),
                    height: number_of(f[2]).unwrap(),
                },
            )
        } else {
            Err(3)
        }
    } else if matches_word(f[0], PX_WORD@) {
        if n < 2 || number_of(f[1]) is None {
            Err(1)
        } else if n < 3 || number_of(f[2]) is None {
            Err(2)
        } else if n < 4 || color_of_text(f[3]) is None {
            Err(3)
        } else if n == 4 {
            Ok(
                ResponseView::Pixel {
                    x: number_of(f[1]).unwrap(),
                    y: number_of(f[2]).unwrap(),
                    color: color_of_text(f[3]).unwrap(),
                },
            )
        } else {
            Err(4)
        }
    } else if matches_word(f[0], STATE_WORD@) {
        if n < 2 || encoding_of(f[1]) is None {
            Err(1)
        } else if n < 3 || !is_payload(f[2]) {
            Err(2)
        } else if n == 3 {
            Ok(ResponseView::State { encoding: encoding_of(f[1]).unwrap(), bytes: f[2] })
        } else {
            Err(3)
        }
    } else {
        Err(0)
    }
}

/// What a response message means. A help text is recognised as a whole; any
/// other response is one line of fields.
pub open spec fn response_of_message(message: Seq<u8>) -> Result<ResponseView, ParseError> {
    match help_of_message(message) {
        Some(text) => Ok(ResponseView::Help { text }),
        None => {
            let body = line_body(message);
            let fields = split_fields(body);
            match response_of_fields(fields) {
                Ok(response) => Ok(response),
                Err(k) => Err(syntax_error(fields, body.len(), k)),
            }
        },
    }
}

/// The message that carries a response, newline included.
pub open spec fn response_text(response: ResponseView) -> Seq<u8> {
    match response {
        ResponseView::Size { width, height } => (SIZE_WORD@ + seq![SPACE] + number_text(
            width as nat,
        ) + seq![SPACE] + number_text(height as nat)).push(NEWLINE),
        ResponseView::Pixel { x, y, color } => (PX_WORD@ + seq![SPACE] + number_text(x as nat)
            + seq![SPACE] + number_text(y as nat) + seq![SPACE] + color_text(color)).push(
            NEWLINE,
        ),
        ResponseView::State { encoding, bytes } => (STATE_WORD@ + seq![SPACE] + encoding_word(
            encoding,
        ) + seq![SPACE] + bytes).push(NEWLINE),
        ResponseView::Help { text } => help_line(text),
    }
}

/// Whether a response is one that the server sends: a payload holds payload
/// bytes only, and a help text is one of the server's.
pub open spec fn valid_response(response: ResponseView) -> bool {
    match response {
        ResponseView::Size { .. } => true,
        ResponseView::Pixel { .. } => true,
        ResponseView::State { bytes, .. } => is_payload(bytes),
        ResponseView::Help { text } => exists|topic: Option<HelpTopic>| text == help_text(topic),
    }
}

/// The help text on a topic, or the overview.
pub fn help_bytes(topic: Option<HelpTopic>) -> (text: &'static [u8])
    ensures
        text@ == help_text(topic),
{
    match topic {
        None => HELP_GENERAL.as_bytes(),
        Some(HelpTopic::Size) => HELP_SIZE.as_bytes(),
        Some(HelpTopic::Px) => HELP_PX.as_bytes(),
        Some(HelpTopic::State) => HELP_STATE.as_bytes(),
    }
}

/// Whether a message is the given help text, with or without its newline.
fn is_help(message: &[u8], text: &[u8]) -> (r: bool)
    ensures
        r == is_help_message(message@, text@),
{
    if bytes_equal(message, text) {
        return true;
    }
    let len: usize = text.len();
    if len > 0 && text[len - 1] == NEWLINE {
        return false;
    }
    if message.len() == 0 || message.len() - 1 != len || message[len] != NEWLINE {
        return false;
    }
    let head: &[u8] = slice_subrange(message, 0, len);
    let same: bool = bytes_equal(head, text);
    proof {
        if same {
            assert(message@ =~= text@.push(NEWLINE));
        } else if message@ == text@.push(NEWLINE) {
            assert(message@.subrange(0, len as int) =~= text@);
        }
    }
    same
}

/// Checks that a field holds payload bytes only.
fn check_payload(field: &[u8]) -> (r: bool)
    ensures
        r == is_payload(field@),
{
    let mut i: usize = 0;
    while i < field.len()
        invariant
            i <= field@.len(),
            forall|j: int| 0 <= j < i ==> is_payload_byte(#[trigger] field@[j]),
        decreases field@.len() - i,
    {
        if byte_to_sextet(field[i]).is_none() && field[i] != 0x3D {
            return false;
        }
        i = i + 1;
    }
    true
}

/// Decides what response the fields of a line spell.
fn response_from_fields(line: &[u8], n: usize, fields: &Fields) -> (res: Result<Response, usize>)
    requires
        n <= line@.len(),
        fields.describes(line@.take(n as int)),
        fields.ranges@.len() >= 1,
    ensures
        match response_of_fields(split_fields(line@.take(n as int))) {
            Ok(response) => res is Ok && res->Ok_0@ == response,
            Err(k) => res == Err::<Response, usize>(k as usize) && 0 <= k <= 4,
        },
{
    let count: usize = fields.count();
    let keyword: &[u8] = fields.field(line, n, 0);
    let size: bool = eq_ignore_case(keyword, SIZE_WORD.as_slice());
    let px: bool = !size && eq_ignore_case(keyword, PX_WORD.as_slice());
    let state: bool = !size && !px && eq_ignore_case(keyword, STATE_WORD.as_slice());
    if size || px {
        if count < 2 {
            return Err(1);
        }
        let first: usize = match parse_number(fields.field(line, n, 1)) {
            None => {
                return Err(1);
            },
            Some(v) => v,
        };
        if count < 3 {
            return Err(2);
        }
        let second: usize = match parse_number(fields.field(line, n, 2)) {
            None => {
                return Err(2);
            },
            Some(v) => v,
        };
        if size {
            return if count == 3 {
                Ok(Response::Size { width: first, height: second })
            } else {
                Err(3)
            };
        }
        if count < 4 {
            return Err(3);
        }
        match Color::parse_hex(fields.field(line, n, 3)) {
            None => Err(3),
            Some(color) => if count == 4 {
                Ok(Response::Pixel { x: first, y: second, color })
            } else {
                Err(4)
            },
        }
    } else if state {
        if count < 2 {
            return Err(1);
        }
        let encoding: StateEncoding = match parse_encoding(fields.field(line, n, 1)) {
            None => {
                return Err(1);
            },
            Some(encoding) => encoding,
        };
        if count < 3 {
            return Err(2);
        }
        let payload: &[u8] = fields.field(line, n, 2);
        if !check_payload(payload) {
            return Err(2);
        }
        if count == 3 {
            Ok(Response::State { encoding, bytes: slice_to_vec(payload) })
        } else {
            Err(3)
        }
    } else {
        Err(0)
    }
}

/// Reads a response message.
pub fn parse_response(message: &[u8]) -> (res: Result<Response, ParseError>)
    ensures
        match response_of_message(message@) {
            Ok(response) => res is Ok && res->Ok_0@ == response,
            Err(e) => res == Err::<Response, ParseError>(e),
        },
{
    if is_help(message, help_bytes(None)) {
        return Ok(Response::Help { text: slice_to_vec(help_bytes(None)) });
    }
    if is_help(message, help_bytes(Some(HelpTopic::Size))) {
        return Ok(Response::Help { text: slice_to_vec(help_bytes(Some(HelpTopic::Size))) });
    }
    if is_help(message, help_bytes(Some(HelpTopic::Px))) {
        return Ok(Response::Help { text: slice_to_vec(help_bytes(Some(HelpTopic::Px))) });
    }
    if is_help(message, help_bytes(Some(HelpTopic::State))) {
        return Ok(Response::Help { text: slice_to_vec(help_bytes(Some(HelpTopic::State))) });
    }
    let n: usize = body_length(message);
    let fields: Fields = split_line(message, n);
    match response_from_fields(message, n, &fields) {
        Ok(response) => Ok(response),
        Err(k) => Err(ParseError::Syntax { position: fields.position(message, n, k) }),
    }
}

/// Writes a response as it is sent.
pub fn format_response(response: &Response) -> (out: Vec<u8>)
    ensures
        out@ == response_text(response@),
{
    let mut out: Vec<u8> = Vec::new();
    match response {
        Response::Size { width, height } => {
            out.extend_from_slice(SIZE_WORD.as_slice());
            out.push(SPACE);
            push_number(&mut out, *width);
            out.push(SPACE);
            push_number(&mut out, *height);
            out.push(NEWLINE);
        },
        Response::Pixel { x, y, color } => {
            out.extend_from_slice(PX_WORD.as_slice());
            out.push(SPACE);
            push_number(&mut out, *x);
            out.push(SPACE);
            push_number(&mut out, *y);
            out.push(SPACE);
            color.push_hex(&mut out);
            out.push(NEWLINE);
        },
        Response::State { encoding, bytes } => {
            out.extend_from_slice(STATE_WORD.as_slice());
            out.push(SPACE);
            push_encoding(&mut out, *encoding);
            out.push(SPACE);
            out.extend_from_slice(bytes.as_slice());
            out.push(NEWLINE);
        },
        Response::Help { text } => {
            out.extend_from_slice(text.as_slice());
            let len: usize = text.len();
            if len == 0 || text[len - 1] != NEWLINE {
                out.push(NEWLINE);
            }
        },
    }
    assert(out@ =~= response_text(response@));
    out
}

} // verus!
