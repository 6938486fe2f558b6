use pixelflut::color::Color;
use pixelflut::i18n::{HELP_GENERAL, HELP_PX, HELP_SIZE, HELP_STATE};
use pixelflut::protocol::{
    format_request, format_response, help_bytes, parse_request, parse_response, HelpTopic,
    ParseError, Request, Response, StateEncoding,
};

fn all_requests() -> Vec<Request> {
    vec![
        Request::GetSize,
        Request::GetPixel { x: 0, y: 0 },
        Request::GetPixel { x: 1920, y: 1079 },
        Request::GetPixel { x: usize::MAX, y: usize::MAX },
        Request::SetPixel { x: 3, y: 4, color: Color(0, 0, 0) },
        Request::SetPixel { x: 1, y: 2, color: Color(0xFF, 0x88, 0x00) },
        Request::SetPixel { x: 100, y: 0, color: Color(0xAB, 0xCD, 0xEF) },
        Request::GetState { encoding: StateEncoding::Rgb64 },
        Request::Help { topic: None },
        Request::Help { topic: Some(HelpTopic::Size) },
        Request::Help { topic: Some(HelpTopic::Px) },
        Request::Help { topic: Some(HelpTopic::State) },
    ]
}

#[test]
fn requests_are_read() {
    assert_eq!(parse_request(b"SIZE\n"), Ok(Request::GetSize));
    assert_eq!(parse_request(b"PX 1 2\n"), Ok(Request::GetPixel { x: 1, y: 2 }));
    assert_eq!(
        parse_request(b"PX 1 2 FF8800\n"),
        Ok(Request::SetPixel { x: 1, y: 2, color: Color(0xFF, 0x88, 0x00) })
    );
    assert_eq!(
        parse_request(b"PX 0 0 11223344\n"),
        Ok(Request::SetPixel { x: 0, y: 0, color: Color(0x11, 0x22, 0x33) })
    );
    assert_eq!(
        parse_request(b"STATE rgb64\n"),
        Ok(Request::GetState { encoding: StateEncoding::Rgb64 })
    );
    assert_eq!(parse_request(b"HELP\n"), Ok(Request::Help { topic: None }));
    assert_eq!(parse_request(b"HELP size\n"), Ok(Request::Help { topic: Some(HelpTopic::Size) }));
    assert_eq!(parse_request(b"HELP px\n"), Ok(Request::Help { topic: Some(HelpTopic::Px) }));
    assert_eq!(
        parse_request(b"HELP state\n"),
        Ok(Request::Help { topic: Some(HelpTopic::State) })
    );
}

#[test]
fn keywords_topics_and_colors_ignore_case() {
    assert_eq!(parse_request(b"size\n"), Ok(Request::GetSize));
    assert_eq!(parse_request(b"Size\n"), Ok(Request::GetSize));
    assert_eq!(parse_request(b"px 1 2\n"), Ok(Request::GetPixel { x: 1, y: 2 }));
    assert_eq!(
        parse_request(b"pX 1 2 aBcDeF\n"),
        Ok(Request::SetPixel { x: 1, y: 2, color: Color(0xAB, 0xCD, 0xEF) })
    );
    assert_eq!(parse_request(b"help PX\n"), Ok(Request::Help { topic: Some(HelpTopic::Px) }));
    assert_eq!(
        parse_request(b"state rgb64\n"),
        Ok(Request::GetState { encoding: StateEncoding::Rgb64 })
    );
}

#[test]
fn encoding_names_are_matched_exactly() {
    assert_eq!(parse_request(b"STATE RGB64\n"), Err(ParseError::Syntax { position: 6 }));
    assert_eq!(parse_request(b"STATE rgb\n"), Err(ParseError::Syntax { position: 6 }));
}

#[test]
fn final_newline_may_be_missing() {
    assert_eq!(parse_request(b"SIZE"), Ok(Request::GetSize));
    assert_eq!(parse_request(b"PX 1 2"), Ok(Request::GetPixel { x: 1, y: 2 }));
    for request in all_requests() {
        let mut line = format_request(&request);
        assert_eq!(line.pop(), Some(b'\n'));
        assert_eq!(parse_request(&line), Ok(request));
    }
}

#[test]
fn carriage_return_before_the_newline_is_tolerated() {
    assert_eq!(parse_request(b"SIZE\r\n"), Ok(Request::GetSize));
    assert_eq!(parse_request(b"PX 1 2\r\n"), Ok(Request::GetPixel { x: 1, y: 2 }));
    assert_eq!(parse_request(b"SIZE\r"), Err(ParseError::Syntax { position: 0 }));
    assert_eq!(parse_request(b"SIZE\r\r\n"), Err(ParseError::Syntax { position: 0 }));
}

#[test]
fn trailing_blank_space_is_a_syntax_error() {
    assert_eq!(parse_request(b"SIZE \n"), Err(ParseError::Syntax { position: 5 }));
    assert_eq!(parse_request(b"SIZE\t\n"), Err(ParseError::Syntax { position: 0 }));
    assert_eq!(parse_request(b"SIZE\n\n"), Err(ParseError::Syntax { position: 0 }));
    assert_eq!(parse_request(b"PX 1 2 \n"), Err(ParseError::Syntax { position: 7 }));
    assert_eq!(parse_request(b"PX 1 2\t\n"), Err(ParseError::Syntax { position: 5 }));
    assert_eq!(parse_request(b"PX 1 2 ffffff \n"), Err(ParseError::Syntax { position: 14 }));
    assert_eq!(parse_request(b"HELP \n"), Err(ParseError::Syntax { position: 5 }));
    assert_eq!(parse_request(b"HELP px \n"), Err(ParseError::Syntax { position: 8 }));
    assert_eq!(parse_request(b"STATE rgb64 \n"), Err(ParseError::Syntax { position: 12 }));
}

#[test]
fn extra_blank_space_between_fields_is_a_syntax_error() {
    assert_eq!(parse_request(b"PX  1 2\n"), Err(ParseError::Syntax { position: 3 }));
    assert_eq!(parse_request(b"PX 1  2\n"), Err(ParseError::Syntax { position: 5 }));
    assert_eq!(parse_request(b" SIZE\n"), Err(ParseError::Syntax { position: 0 }));
    assert_eq!(parse_request(b"PX\t1 2\n"), Err(ParseError::Syntax { position: 0 }));
}

#[test]
fn syntax_errors_name_the_offending_field() {
    // unknown keyword
    assert_eq!(parse_request(b"FOO\n"), Err(ParseError::Syntax { position: 0 }));
    assert_eq!(parse_request(b"\n"), Err(ParseError::Syntax { position: 0 }));
    assert_eq!(parse_request(b""), Err(ParseError::Syntax { position: 0 }));
    assert_eq!(parse_request(b"PXX 1 2\n"), Err(ParseError::Syntax { position: 0 }));
    assert_eq!(parse_request(b"SIZES\n"), Err(ParseError::Syntax { position: 0 }));
    // wrong arity
    assert_eq!(parse_request(b"SIZE 1\n"), Err(ParseError::Syntax { position: 5 }));
    assert_eq!(parse_request(b"PX\n"), Err(ParseError::Syntax { position: 2 }));
    assert_eq!(parse_request(b"PX 4\n"), Err(ParseError::Syntax { position: 4 }));
    assert_eq!(parse_request(b"PX 1 2 ffffff 9\n"), Err(ParseError::Syntax { position: 14 }));
    assert_eq!(parse_request(b"STATE\n"), Err(ParseError::Syntax { position: 5 }));
    assert_eq!(parse_request(b"STATE rgb64 x\n"), Err(ParseError::Syntax { position: 12 }));
    assert_eq!(parse_request(b"HELP px size\n"), Err(ParseError::Syntax { position: 8 }));
    // non-digit where a digit is expected
    assert_eq!(parse_request(b"PX a 1\n"), Err(ParseError::Syntax { position: 3 }));
    assert_eq!(parse_request(b"PX 1 b\n"), Err(ParseError::Syntax { position: 5 }));
    assert_eq!(parse_request(b"PX -1 2\n"), Err(ParseError::Syntax { position: 3 }));
    assert_eq!(parse_request(b"PX +1 2\n"), Err(ParseError::Syntax { position: 3 }));
    assert_eq!(parse_request(b"PX 10 2x\n"), Err(ParseError::Syntax { position: 6 }));
    // wrong hex length
    assert_eq!(parse_request(b"PX 1 2 fffff\n"), Err(ParseError::Syntax { position: 7 }));
    assert_eq!(parse_request(b"PX 1 2 fffffff\n"), Err(ParseError::Syntax { position: 7 }));
    assert_eq!(parse_request(b"PX 1 2 fffffffff\n"), Err(ParseError::Syntax { position: 7 }));
    // non-hex character
    assert_eq!(parse_request(b"PX 1 2 GGGGGG\n"), Err(ParseError::Syntax { position: 7 }));
    assert_eq!(parse_request(b"PX 12 345 #fffff\n"), Err(ParseError::Syntax { position: 10 }));
    // unknown topic
    assert_eq!(parse_request(b"HELP me\n"), Err(ParseError::Syntax { position: 5 }));
    assert_eq!(parse_request(b"HELP help\n"), Err(ParseError::Syntax { position: 5 }));
}

#[test]
fn coordinates_beyond_the_machine_word_are_a_syntax_error() {
    let line = format!("PX {}0 1\n", usize::MAX);
    assert_eq!(parse_request(line.as_bytes()), Err(ParseError::Syntax { position: 3 }));
}

#[test]
fn requests_are_written() {
    assert_eq!(format_request(&Request::GetSize), b"SIZE\n".to_vec());
    assert_eq!(format_request(&Request::GetPixel { x: 10, y: 200 }), b"PX 10 200\n".to_vec());
    assert_eq!(
        format_request(&Request::SetPixel { x: 1, y: 2, color: Color(0xFF, 0x88, 0x00) }),
        b"PX 1 2 FF8800\n".to_vec()
    );
    assert_eq!(
        format_request(&Request::GetState { encoding: StateEncoding::Rgb64 }),
        b"STATE rgb64\n".to_vec()
    );
    assert_eq!(format_request(&Request::Help { topic: None }), b"HELP\n".to_vec());
    assert_eq!(
        format_request(&Request::Help { topic: Some(HelpTopic::Size) }),
        b"HELP SIZE\n".to_vec()
    );
    assert_eq!(
        format_request(&Request::Help { topic: Some(HelpTopic::Px) }),
        b"HELP PX\n".to_vec()
    );
    assert_eq!(
        format_request(&Request::Help { topic: Some(HelpTopic::State) }),
        b"HELP STATE\n".to_vec()
    );
}

#[test]
fn request_round_trip() {
    for request in all_requests() {
        assert_eq!(parse_request(&format_request(&request)), Ok(request));
    }
}

#[test]
fn responses_are_written() {
    assert_eq!(
        format_response(&Response::Size { width: 4, height: 4 }),
        b"SIZE 4 4\n".to_vec()
    );
    assert_eq!(
        format_response(&Response::Pixel { x: 1, y: 2, color: Color(0xff, 0x88, 0x0a) }),
        b"PX 1 2 FF880A\n".to_vec()
    );
    assert_eq!(
        format_response(
            &Response::State { encoding: StateEncoding::Rgb64, bytes: b"AQID".to_vec() }
        ),
        b"STATE rgb64 AQID\n".to_vec()
    );
    assert_eq!(
        format_response(&Response::Help { text: b"some text".to_vec() }),
        b"some text\n".to_vec()
    );
    assert_eq!(
        format_response(&Response::Help { text: b"some text\n".to_vec() }),
        b"some text\n".to_vec()
    );
    assert_eq!(format_response(&Response::Help { text: Vec::new() }), b"\n".to_vec());
}

#[test]
fn responses_are_read() {
    assert_eq!(parse_response(b"SIZE 4 4\n"), Ok(Response::Size { width: 4, height: 4 }));
    assert_eq!(parse_response(b"SIZE 800 600"), Ok(Response::Size { width: 800, height: 600 }));
    assert_eq!(
        parse_response(b"PX 1 2 ff8800\r\n"),
        Ok(Response::Pixel { x: 1, y: 2, color: Color(0xFF, 0x88, 0x00) })
    );
    assert_eq!(
        parse_response(b"STATE rgb64 AQID/+==\n"),
        Ok(Response::State { encoding: StateEncoding::Rgb64, bytes: b"AQID/+==".to_vec() })
    );
    assert_eq!(
        parse_response(b"STATE rgb64 \n"),
        Ok(Response::State { encoding: StateEncoding::Rgb64, bytes: Vec::new() })
    );
}

#[test]
fn malformed_responses_are_refused() {
    assert_eq!(parse_response(b"SIZE\n"), Err(ParseError::Syntax { position: 4 }));
    assert_eq!(parse_response(b"SIZE 4\n"), Err(ParseError::Syntax { position: 6 }));
    assert_eq!(parse_response(b"SIZE 4 x\n"), Err(ParseError::Syntax { position: 7 }));
    assert_eq!(parse_response(b"SIZE 4 4 4\n"), Err(ParseError::Syntax { position: 9 }));
    assert_eq!(parse_response(b"PX 1 2\n"), Err(ParseError::Syntax { position: 6 }));
    assert_eq!(parse_response(b"PX 1 2 fffff\n"), Err(ParseError::Syntax { position: 7 }));
    assert_eq!(parse_response(b"PX 1 2 ffffff 1\n"), Err(ParseError::Syntax { position: 14 }));
    assert_eq!(parse_response(b"STATE rgb64\n"), Err(ParseError::Syntax { position: 11 }));
    assert_eq!(parse_response(b"STATE png AAAA\n"), Err(ParseError::Syntax { position: 6 }));
    assert_eq!(parse_response(b"STATE rgb64 A*A\n"), Err(ParseError::Syntax { position: 12 }));
    assert_eq!(parse_response(b"STATE rgb64 AA A\n"), Err(ParseError::Syntax { position: 15 }));
    assert_eq!(parse_response(b"HELP\n"), Err(ParseError::Syntax { position: 0 }));
    assert_eq!(parse_response(b"hello there\n"), Err(ParseError::Syntax { position: 0 }));
    assert_eq!(parse_response(b""), Err(ParseError::Syntax { position: 0 }));
}

#[test]
fn help_texts_are_the_canned_ones() {
    assert_eq!(help_bytes(None), HELP_GENERAL.as_bytes());
    assert_eq!(help_bytes(Some(HelpTopic::Size)), HELP_SIZE.as_bytes());
    assert_eq!(help_bytes(Some(HelpTopic::Px)), HELP_PX.as_bytes());
    assert_eq!(help_bytes(Some(HelpTopic::State)), HELP_STATE.as_bytes());
    assert!(HELP_GENERAL.starts_with("pixelflut"));
    assert!(HELP_SIZE.starts_with("Syntax:\t\tSIZE\n"));
    assert!(HELP_PX.starts_with("Syntax:\t\tPX <x> <y>"));
    assert!(HELP_STATE.starts_with("Syntax:\t\tSTATE <encoding>\n"));
    for text in [HELP_GENERAL, HELP_SIZE, HELP_PX, HELP_STATE] {
        assert!(text.is_ascii());
        assert!(!text.ends_with('\n'));
    }
}

#[test]
fn help_responses_are_recognised_as_a_whole() {
    for topic in [None, Some(HelpTopic::Size), Some(HelpTopic::Px), Some(HelpTopic::State)] {
        let text = help_bytes(topic).to_vec();
        let response = Response::Help { text: text.clone() };
        let message = format_response(&response);
        assert_eq!(message.last(), Some(&b'\n'));
        assert_eq!(message[..message.len() - 1], text[..]);
        assert_eq!(parse_response(&message), Ok(Response::Help { text: text.clone() }));
        assert_eq!(parse_response(&text), Ok(Response::Help { text }));
    }
}

#[test]
fn response_round_trip() {
    let responses = vec![
        Response::Size { width: 1, height: 1 },
        Response::Size { width: 1920, height: 1080 },
        Response::Size { width: usize::MAX, height: 0 },
        Response::Pixel { x: 0, y: 0, color: Color(0, 0, 0) },
        Response::Pixel { x: 17, y: 4, color: Color(0x12, 0xAB, 0xFF) },
        Response::State { encoding: StateEncoding::Rgb64, bytes: b"AAAA////".to_vec() },
        Response::State { encoding: StateEncoding::Rgb64, bytes: Vec::new() },
        Response::Help { text: HELP_PX.as_bytes().to_vec() },
    ];
    for response in responses {
        assert_eq!(parse_response(&format_response(&response)), Ok(response));
    }
}
