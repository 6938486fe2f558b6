//! A canvas that lives on another server. This module holds what a client
//! decides: which request stands for an operation, and what the response
//! that came back means for it. Sending and receiving is left to the caller.

use vstd::prelude::*;
use crate::color::Color;
use crate::protocol::{
    format_request, parse_response, request_text, response_of_message, ParseError, Request,
    Response, ResponseView, StateEncoding,
};
use crate::state_encoding::{decode_rgb64, rgb64_pixels, DecodeError};

verus! {

/// Why a response was of no use.
#[derive(Clone, Copy, Debug, PartialEq, Eq)]
pub enum RemoteError {
    /// What the server sent is no response.
    Unreadable(ParseError),
    /// The response is not of the kind that answers the request.
    UnexpectedResponse,
    /// The server answered for another cell than was asked for.
    WrongCoordinates { requested: (usize, usize), received: (usize, usize) },
    /// The payload of the response could not be decoded.
    Payload(DecodeError),
}

/// The canvas of another server, as far as it is known here: its
/// dimensions, which the server states once and never changes.
#[derive(Debug)]
pub struct RemotePixmap {
    width: usize,
    height: usize,
}

/// The dimensions that a response to a size request states.
pub open spec fn size_of_response(response: ResponseView) -> Result<(usize, usize), RemoteError> {
    match response {
        ResponseView::Size { width, height } => Ok((width, height)),
        _ => Err(RemoteError::UnexpectedResponse),
    }
}

/// The color that a response gives for the cell (x, y).
pub open spec fn pixel_of_response(x: usize, y: usize, response: ResponseView) -> Result<
    Color,
    RemoteError,
> {
    match response {
        ResponseView::Pixel { x: x2, y: y2, color } => if x != x2 || y != y2 {
            Err(RemoteError::WrongCoordinates { requested: (x, y), received: (x2, y2) })
        } else {
            Ok(color)
        },
        _ => Err(RemoteError::UnexpectedResponse),
    }
}

/// The cells that a response to a state request holds.
pub open spec fn cells_of_response(response: ResponseView) -> Result<Seq<Color>, RemoteError> {
    match response {
        ResponseView::State { encoding: StateEncoding::Rgb64, bytes } => match rgb64_pixels(
            bytes,
        ) {
            Some(cells) => Ok(cells),
            None => Err(RemoteError::Payload(DecodeError::Malformed)),
        },
        _ => Err(RemoteError::UnexpectedResponse),
    }
}

impl RemotePixmap {
    /// The width that the server stated.
    pub closed spec fn width(&self) -> usize {
        self.width
    }

    /// The height that the server stated.
    pub closed spec fn height(&self) -> usize {
        self.height
    }

    /// The bytes to send for a request.
    pub fn send(request: &Request) -> (bytes: Vec<u8>)
        ensures
            bytes@ == request_text(*request),
    {
        format_request(request)
    }

    /// The response that a received message carries.
    pub fn receive(message: &[u8]) -> (res: Result<Response, RemoteError>)
        ensures
            match response_of_message(message@) {
                Ok(response) => res is Ok && res->Ok_0@ == response,
                Err(e) => res is Err && res->Err_0 == RemoteError::Unreadable(e),
            },
    {
        match parse_response(message) {
            Ok(response) => Ok(response),
            Err(e) => Err(RemoteError::Unreadable(e)),
        }
    }

    /// The request that a new remote canvas starts with.
    pub fn size_request() -> (request: Request)
        ensures
            request == Request::GetSize,
    {
        Request::GetSize
    }

    /// Creates the remote canvas from the server's response to the size
    /// request.
    pub fn new(response: &Response) -> (res: Result<RemotePixmap, RemoteError>)
        ensures
            match size_of_response(response@) {
                Ok(size) => res is Ok && res->Ok_0.width() == size.0 && res->Ok_0.height()
                    == size.1,
                Err(e) => res is Err && res->Err_0 == e,
            },
    {
        let mut instance = RemotePixmap { width: 0, height: 0 };
        match instance.fetch_size(response) {
            Ok(()) => Ok(instance),
            Err(e) => Err(e),
        }
    }

    /// Takes the dimensions from the server's response to a size request.
    /// Any other response is refused and changes nothing.
    pub fn fetch_size(&mut self, response: &Response) -> (res: Result<(), RemoteError>)
        ensures
            match size_of_response(response@) {
                Ok(size) => res is Ok && final(self).width() == size.0 && final(self).height()
                    == size.1,
                Err(e) => res == Err::<(), RemoteError>(e) && final(self).width() == old(
                    self,
                ).width() && final(self).height() == old(self).height(),
            },
    {
        match response {
            Response::Size { width, height } => {
                self.width = *width;
                self.height = *height;
                Ok(())
            },
            _ => Err(RemoteError::UnexpectedResponse),
        }
    }

    /// The dimensions (width, height).
    pub fn get_size(&self) -> (size: (usize, usize))
        ensures
            size == (self.width(), self.height()),
    {
        (self.width, self.height)
    }

    /// The request that reads the cell (x, y).
    pub fn get_pixel_request(x: usize, y: usize) -> (request: Request)
        ensures
            request == (Request::GetPixel { x, y }),
    {
        Request::GetPixel { x, y }
    }

    /// The color of the cell (x, y) according to the server's response. A
    /// response for another cell is refused.
    pub fn get_pixel(&self, x: usize, y: usize, response: &Response) -> (res: Result<
        Color,
        RemoteError,
    >)
        ensures
            res == pixel_of_response(x, y, response@),
    {
        match response {
            Response::Pixel { x: x2, y: y2, color } => {
                if x != *x2 || y != *y2 {
                    Err(RemoteError::WrongCoordinates { requested: (x, y), received: (*x2, *y2) })
                } else {
                    Ok(*color)
                }
            },
            _ => Err(RemoteError::UnexpectedResponse),
        }
    }

    /// The request that writes the cell (x, y). The server does not answer it.
    pub fn set_pixel_request(x: usize, y: usize, color: Color) -> (request: Request)
        ensures
            request == (Request::SetPixel { x, y, color }),
    {
        Request::SetPixel { x, y, color }
    }

    /// The request that reads the whole canvas.
    pub fn get_raw_data_request() -> (request: Request)
        ensures
            request == (Request::GetState { encoding: StateEncoding::Rgb64 }),
    {
        Request::GetState { encoding: StateEncoding::Rgb64 }
    }

    /// All cells according to the server's response to a state request.
    pub fn get_raw_data(&self, response: &Response) -> (res: Result<Vec<Color>, RemoteError>)
        ensures
            match cells_of_response(response@) {
                Ok(cells) => res is Ok && res->Ok_0@ == cells,
                Err(e) => res is Err && res->Err_0 == e,
            },
    {
        match response {
            Response::State { encoding: StateEncoding::Rgb64, bytes } => {
                match decode_rgb64(bytes.as_slice()) {
                    Ok(cells) => Ok(cells),
                    Err(e) => Err(RemoteError::Payload(e)),
                }
            },
            _ => Err(RemoteError::UnexpectedResponse),
        }
    }
}

} // verus!
