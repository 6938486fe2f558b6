//! The command interface: a message is read as a command, and the two
//! commands a painting client needs, `SIZE` and `PX <x> <y> <color>`, are
//! carried out on the canvas.

use vstd::prelude::*;
use vstd::utf8::encode_utf8;
use crate::color::Color;
use crate::pixmap::{cell_index, inside, GenericError, Pixmap};
use crate::protocol::{
    format_response, parse_request, request_of_line, response_text, HelpTopic, ParseError,
    Request, Response, ResponseView, StateEncoding,
};

verus! {

/// A command: what a request line asks for.
#[derive(Clone, Copy, Debug, PartialEq, Eq)]
pub enum Command {
    /// `SIZE`: asks for the dimensions of the canvas.
    SIZE,
    /// `PX <x> <y> <color>`: sets the cell (x, y) to a color.
    PX(usize, usize, Color),
    /// `PX <x> <y>`: asks for the color of the cell (x, y).
    GET(usize, usize),
    /// `STATE <encoding>`: asks for the whole canvas in an encoding.
    STATE(StateEncoding),
    /// `HELP [topic]`: asks for help on a topic, or for the overview.
    HELP(Option<HelpTopic>),
}

/// The command that a request is.
pub open spec fn command_of(request: Request) -> Command {
    match request {
        Request::GetSize => Command::SIZE,
        Request::SetPixel { x, y, color } => Command::PX(x, y, color),
        Request::GetPixel { x, y } => Command::GET(x, y),
        Request::GetState { encoding } => Command::STATE(encoding),
        Request::Help { topic } => Command::HELP(topic),
    }
}

/// The request that a command is.
pub open spec fn request_of(command: Command) -> Request {
    match command {
        Command::SIZE => Request::GetSize,
        Command::PX(x, y, color) => Request::SetPixel { x, y, color },
        Command::GET(x, y) => Request::GetPixel { x, y },
        Command::STATE(encoding) => Request::GetState { encoding },
        Command::HELP(topic) => Request::Help { topic },
    }
}

/// The command that a message spells. The grammar is that of request lines:
/// every request is a command, and what is no request is no command, for
/// the same reason.
pub open spec fn command_of_message(message: Seq<u8>) -> Result<Command, ParseError> {
    match request_of_line(message) {
        Ok(request) => Ok(command_of(request)),
        Err(e) => Err(e),
    }
}

/// Commands and requests are the same things under two names.
pub proof fn law_commands_are_requests(command: Command, request: Request)
    ensures
        command_of(request_of(command)) == command,
        request_of(command_of(request)) == request,
{
}

/// A message is a command exactly when it is a request line, and then the
/// command is that request.
pub proof fn law_commands_follow_the_grammar(message: Seq<u8>)
    ensures
        command_of_message(message) is Ok <==> request_of_line(message) is Ok,
        command_of_message(message) is Err ==> command_of_message(message)->Err_0
            == request_of_line(message)->Err_0,
        command_of_message(message) is Ok ==> request_of(command_of_message(message)->Ok_0)
            == request_of_line(message)->Ok_0,
{
}

impl Command {
    /// The request that this command is, for the server to handle.
    pub fn request(&self) -> (request: Request)
        ensures
            request == request_of(*self),
    {
        match *self {
            Command::SIZE => Request::GetSize,
            Command::PX(x, y, color) => Request::SetPixel { x, y, color },
            Command::GET(x, y) => Request::GetPixel { x, y },
            Command::STATE(encoding) => Request::GetState { encoding },
            Command::HELP(topic) => Request::Help { topic },
        }
    }
}

/// Reads a command from a message.
pub fn parse_message(msg: String) -> (res: Result<Command, ParseError>)
    ensures
        res == command_of_message(encode_utf8(msg@)),
{
    let bytes: &[u8] = msg.as_str().as_bytes();
    match parse_request(bytes) {
        Ok(Request::GetSize) => Ok(Command::SIZE),
        Ok(Request::SetPixel { x, y, color }) => Ok(Command::PX(x, y, color)),
        Ok(Request::GetPixel { x, y }) => Ok(Command::GET(x, y)),
        Ok(Request::GetState { encoding }) => Ok(Command::STATE(encoding)),
        Ok(Request::Help { topic }) => Ok(Command::HELP(topic)),
        Err(e) => Err(e),
    }
}

/// Answers `SIZE`: the line that states the dimensions of the canvas.
pub fn cmd_size(map: &Pixmap) -> (answer: Vec<u8>)
    ensures
        answer@ == response_text(
            ResponseView::Size { width: map.width() as usize, height: map.height() as usize },
        ),
{
    let size: (usize, usize) = map.get_size();
    format_response(&Response::Size { width: size.0, height: size.1 })
}

/// Carries out `PX`: writes the color to the cell (x, y). A write has no
/// answer, so the bytes to send back are none. Outside the canvas nothing is
/// written and the coordinates are refused.
pub fn cmd_px(map: &mut Pixmap, x: usize, y: usize, color: Color) -> (res: Result<
    Vec<u8>,
    GenericError,
>)
    ensures
        final(map).width() == old(map).width(),
        final(map).height() == old(map).height(),
        inside(old(map).width(), old(map).height(), x as nat, y as nat) ==> res is Ok
            && res->Ok_0@ == Seq::<u8>::empty() && final(map)@ == old(map)@.update(
            cell_index(old(map).width(), x as nat, y as nat) as int,
            color,
        ),
        !inside(old(map).width(), old(map).height(), x as nat, y as nat) ==> final(map)@ == old(
            map,
        )@ && res == Err::<Vec<u8>, GenericError>(
            GenericError::InvalidCoordinates {
                target: (x, y),
                size: (old(map).width() as usize, old(map).height() as usize),
            },
        ),
{
    match map.set_pixel(x, y, color) {
        Ok(()) => Ok(Vec::new()),
        Err(e) => Err(e),
    }
}

} // verus!
