use pixelflut::color::Color;
use pixelflut::command_handler::{cmd_px, cmd_size, parse_message, Command};
use pixelflut::pixmap::{GenericError, Pixmap};
use pixelflut::handler::handle_request;
use pixelflut::protocol::{HelpTopic, ParseError, Request, Response, StateEncoding};

#[test]
fn parse_message_reads_size() {
    assert_eq!(parse_message(String::from("SIZE")), Ok(Command::SIZE));
    assert_eq!(parse_message(String::from("size\n")), Ok(Command::SIZE));
}

#[test]
fn parse_message_reads_px() {
    assert_eq!(
        parse_message(String::from("PX 10 20 ff8800")),
        Ok(Command::PX(10, 20, Color(0xFF, 0x88, 0x00)))
    );
}

#[test]
fn parse_message_keeps_six_digit_colors_as_they_are() {
    assert_eq!(
        parse_message(String::from("PX 0 0 112233")),
        parse_message(String::from("PX 0 0 112233AB"))
    );
}

#[test]
fn parse_message_does_not_match_px_as_a_prefix() {
    assert_eq!(
        parse_message(String::from("PXX 1 2 ffffff")),
        Err(ParseError::Syntax { position: 0 })
    );
}

#[test]
fn parse_message_reads_a_px_without_color_as_a_read() {
    assert_eq!(parse_message(String::from("PX 1 2")), Ok(Command::GET(1, 2)));
    assert_eq!(parse_message(String::from("px 1 2\n")), Ok(Command::GET(1, 2)));
}

#[test]
fn parse_message_reads_every_request() {
    assert_eq!(parse_message(String::from("HELP")), Ok(Command::HELP(None)));
    assert_eq!(
        parse_message(String::from("HELP size")),
        Ok(Command::HELP(Some(HelpTopic::Size)))
    );
    assert_eq!(parse_message(String::from("help PX")), Ok(Command::HELP(Some(HelpTopic::Px))));
    assert_eq!(
        parse_message(String::from("HELP state\r\n")),
        Ok(Command::HELP(Some(HelpTopic::State)))
    );
    assert_eq!(
        parse_message(String::from("STATE rgb64")),
        Ok(Command::STATE(StateEncoding::Rgb64))
    );
}

#[test]
fn parse_message_refuses_what_is_no_request() {
    assert_eq!(
        parse_message(String::from("nonsense")),
        Err(ParseError::Syntax { position: 0 })
    );
    assert_eq!(parse_message(String::from("PX 1")), Err(ParseError::Syntax { position: 4 }));
    assert_eq!(
        parse_message(String::from("PX 1 2 fff")),
        Err(ParseError::Syntax { position: 7 })
    );
    assert_eq!(parse_message(String::from("HELP me")), Err(ParseError::Syntax { position: 5 }));
    assert_eq!(parse_message(String::from("SIZE ")), Err(ParseError::Syntax { position: 5 }));
    assert_eq!(parse_message(String::from("Größe")), Err(ParseError::Syntax { position: 0 }));
    assert_eq!(parse_message(String::new()), Err(ParseError::Syntax { position: 0 }));
}

#[test]
fn commands_are_requests() {
    let pairs = [
        (Command::SIZE, Request::GetSize),
        (Command::GET(3, 4), Request::GetPixel { x: 3, y: 4 }),
        (
            Command::PX(3, 4, Color(1, 2, 3)),
            Request::SetPixel { x: 3, y: 4, color: Color(1, 2, 3) },
        ),
        (Command::STATE(StateEncoding::Rgb64), Request::GetState { encoding: StateEncoding::Rgb64 }),
        (Command::HELP(None), Request::Help { topic: None }),
        (Command::HELP(Some(HelpTopic::Px)), Request::Help { topic: Some(HelpTopic::Px) }),
    ];
    for (command, request) in pairs {
        assert_eq!(command.request(), request);
    }
}

#[test]
fn set_then_get_through_commands() {
    let mut map = Pixmap::new(4, 4).unwrap();
    let set = parse_message(String::from("PX 1 2 FF8800\n")).unwrap();
    assert_eq!(handle_request(&mut map, &set.request()), Ok(None));
    let get = parse_message(String::from("PX 1 2\n")).unwrap();
    assert_eq!(
        handle_request(&mut map, &get.request()),
        Ok(Some(Response::Pixel { x: 1, y: 2, color: Color(0xFF, 0x88, 0x00) }))
    );
}

#[test]
fn cmd_size_states_the_dimensions() {
    let map = Pixmap::new(800, 600).unwrap();
    assert_eq!(cmd_size(&map), b"SIZE 800 600\n".to_vec());
}

#[test]
fn cmd_px_writes_the_cell() {
    let mut map = Pixmap::new(4, 4).unwrap();
    assert_eq!(cmd_px(&mut map, 1, 2, Color(1, 2, 3)), Ok(Vec::new()));
    assert_eq!(map.get_pixel(1, 2), Ok(Color(1, 2, 3)));
}

#[test]
fn cmd_px_refuses_coordinates_outside() {
    let mut map = Pixmap::new(4, 4).unwrap();
    assert_eq!(
        cmd_px(&mut map, 4, 0, Color(1, 2, 3)),
        Err(GenericError::InvalidCoordinates { target: (4, 0), size: (4, 4) })
    );
    assert_eq!(map.get_raw_data(), vec![Color(0, 0, 0); 16]);
}
