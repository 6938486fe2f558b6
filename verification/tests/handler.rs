use pixelflut::color::Color;
use pixelflut::handler::{format_diagnostic, handle_line, handle_request, Failure};
use pixelflut::i18n::{HELP_GENERAL, HELP_PX, HELP_SIZE, HELP_STATE};
use pixelflut::pixmap::{GenericError, Pixmap};
use pixelflut::protocol::{
    parse_response, HelpTopic, ParseError, Request, Response, StateEncoding,
};

fn canvas() -> Pixmap {
    Pixmap::new(4, 4).unwrap()
}

fn is_diagnostic(line: &[u8]) -> bool {
    !line.is_empty()
        && line[0].is_ascii_lowercase()
        && line[line.len() - 1] == b'\n'
        && line.iter().filter(|b| **b == b'\n').count() == 1
        && !line.starts_with(b"PX")
        && parse_response(line).is_err()
}

#[test]
fn size_query() {
    let mut pixmap = canvas();
    assert_eq!(handle_line(&mut pixmap, b"SIZE\n"), b"SIZE 4 4\n".to_vec());
}

#[test]
fn set_then_get() {
    let mut pixmap = canvas();
    assert_eq!(handle_line(&mut pixmap, b"PX 1 2 FF8800\n"), Vec::<u8>::new());
    assert_eq!(handle_line(&mut pixmap, b"PX 1 2\n"), b"PX 1 2 FF8800\n".to_vec());
}

#[test]
fn out_of_bounds() {
    let mut pixmap = canvas();
    let reply = handle_line(&mut pixmap, b"PX 4 0\n");
    assert!(is_diagnostic(&reply));
    assert_eq!(reply, b"error coordinates 4 0 size 4 4\n".to_vec());
    let reply = handle_line(&mut pixmap, b"PX 0 4 ffffff\n");
    assert!(is_diagnostic(&reply));
    assert_eq!(pixmap.get_raw_data(), vec![Color(0, 0, 0); 16]);
}

#[test]
fn set_with_alpha_suffix() {
    let mut pixmap = canvas();
    assert_eq!(handle_line(&mut pixmap, b"PX 0 0 11223344\n"), Vec::<u8>::new());
    assert_eq!(handle_line(&mut pixmap, b"PX 0 0\n"), b"PX 0 0 112233\n".to_vec());
}

#[test]
fn malformed_lines_get_a_diagnostic_and_change_nothing() {
    let mut pixmap = canvas();
    pixmap.set_pixel(2, 2, Color(5, 6, 7)).unwrap();
    let before = pixmap.get_raw_data();
    for line in [
        &b"\n"[..],
        b"FOO\n",
        b"PX\n",
        b"PX 1\n",
        b"PX 1 2 3\n",
        b"PX 1 2 ffffff \n",
        b"SIZE 1\n",
        b"STATE\n",
        b"HELP nothing\n",
    ] {
        let reply = handle_line(&mut pixmap, line);
        assert!(is_diagnostic(&reply));
        assert!(reply.starts_with(b"error syntax "));
        assert_eq!(pixmap.get_raw_data(), before);
    }
    assert_eq!(handle_line(&mut pixmap, b"PX a 1\n"), b"error syntax 3\n".to_vec());
    // the connection goes on: the next request is served
    assert_eq!(handle_line(&mut pixmap, b"PX 2 2\n"), b"PX 2 2 050607\n".to_vec());
}

#[test]
fn diagnostics_are_single_lines_that_are_no_responses() {
    let failures = [
        Failure::Parse(ParseError::Syntax { position: 0 }),
        Failure::Parse(ParseError::Syntax { position: 127 }),
        Failure::Canvas(GenericError::InvalidCoordinates { target: (4, 0), size: (4, 4) }),
        Failure::Canvas(GenericError::InvalidSize(0, 7)),
    ];
    let texts: [&[u8]; 4] = [
        b"error syntax 0\n",
        b"error syntax 127\n",
        b"error coordinates 4 0 size 4 4\n",
        b"error size 0 7\n",
    ];
    for (failure, text) in failures.iter().zip(texts) {
        let line = format_diagnostic(failure);
        assert_eq!(line, text.to_vec());
        assert!(is_diagnostic(&line));
    }
}

#[test]
fn requests_are_dispatched() {
    let mut pixmap = canvas();
    assert_eq!(
        handle_request(&mut pixmap, &Request::GetSize),
        Ok(Some(Response::Size { width: 4, height: 4 }))
    );
    assert_eq!(
        handle_request(&mut pixmap, &Request::SetPixel { x: 3, y: 3, color: Color(1, 2, 3) }),
        Ok(None)
    );
    assert_eq!(
        handle_request(&mut pixmap, &Request::GetPixel { x: 3, y: 3 }),
        Ok(Some(Response::Pixel { x: 3, y: 3, color: Color(1, 2, 3) }))
    );
    assert_eq!(
        handle_request(&mut pixmap, &Request::GetPixel { x: 3, y: 4 }),
        Err(GenericError::InvalidCoordinates { target: (3, 4), size: (4, 4) })
    );
    assert_eq!(
        handle_request(&mut pixmap, &Request::SetPixel { x: 9, y: 0, color: Color(1, 2, 3) }),
        Err(GenericError::InvalidCoordinates { target: (9, 0), size: (4, 4) })
    );
}

#[test]
fn help_is_canned_text() {
    let mut pixmap = canvas();
    let topics: [(&[u8], &str); 4] = [
        (b"HELP\n", HELP_GENERAL),
        (b"HELP size\n", HELP_SIZE),
        (b"HELP px\n", HELP_PX),
        (b"HELP state\n", HELP_STATE),
    ];
    for (line, text) in topics {
        let mut expected = text.as_bytes().to_vec();
        expected.push(b'\n');
        assert_eq!(handle_line(&mut pixmap, line), expected);
    }
    assert_eq!(
        handle_request(&mut pixmap, &Request::Help { topic: Some(HelpTopic::Px) }),
        Ok(Some(Response::Help { text: HELP_PX.as_bytes().to_vec() }))
    );
}

#[test]
fn state_is_the_encoded_canvas() {
    let mut pixmap = Pixmap::new(2, 1).unwrap();
    pixmap.set_pixel(0, 0, Color(1, 2, 3)).unwrap();
    pixmap.set_pixel(1, 0, Color(255, 255, 255)).unwrap();
    assert_eq!(
        handle_request(&mut pixmap, &Request::GetState { encoding: StateEncoding::Rgb64 }),
        Ok(Some(Response::State { encoding: StateEncoding::Rgb64, bytes: b"AQID////".to_vec() }))
    );
    assert_eq!(handle_line(&mut pixmap, b"STATE rgb64\n"), b"STATE rgb64 AQID////\n".to_vec());
}

#[test]
fn every_response_is_read_back_by_a_client() {
    let mut pixmap = canvas();
    pixmap.set_pixel(1, 1, Color(0xDE, 0xAD, 0x42)).unwrap();
    let requests = [
        Request::GetSize,
        Request::GetPixel { x: 1, y: 1 },
        Request::GetState { encoding: StateEncoding::Rgb64 },
        Request::Help { topic: None },
        Request::Help { topic: Some(HelpTopic::State) },
    ];
    for request in requests {
        let response = handle_request(&mut pixmap, &request).unwrap().unwrap();
        let message = pixelflut::protocol::format_response(&response);
        assert_eq!(parse_response(&message), Ok(response));
    }
}
