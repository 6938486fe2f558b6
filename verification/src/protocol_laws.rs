//! What holds of the protocol as a whole: text that the library writes is
//! read back as the value written, the final newline may be missing, and
//! blank space at the end of a line is refused.

use vstd::prelude::*;
use crate::color::{color_of_text, color_text, hex_value, is_hex, law_color_text_round_trip, Color};
use crate::i18n::{
    begins_like_help, help_shaped, lemma_help_general_shaped, lemma_help_px_shaped,
    lemma_help_size_shaped, lemma_help_state_shaped,
};
use crate::protocol::{
    encoding_of, encoding_word, help_line, help_of_message, help_text, is_help_message,
    request_of_fields, request_of_line, request_text, response_of_fields, response_of_message,
    response_text, topic_of, topic_word, valid_response, HelpTopic, ParseError, Request,
    ResponseView, StateEncoding, HELP_WORD, PX_WORD, RGB64_WORD, SIZE_WORD, STATE_WORD,
};
use crate::state_encoding::{is_payload, is_payload_byte};
use crate::text::{
    is_digit, is_number, law_field_position_in_line, law_number_round_trip, lemma_split_append,
    lemma_split_nonempty,
    lemma_split_single,
    line_body, matches_word, no_space, number_of, number_text, split_fields, upper,
    CARRIAGE_RETURN, NEWLINE, SPACE,
};

verus! {

/// Whether a byte is a letter or a digit.
pub open spec fn is_alphanumeric(b: u8) -> bool {
    (0x30 <= b <= 0x39) || (0x41 <= b <= 0x5A) || (0x61 <= b <= 0x7A)
}

/// Whether a byte string is a word: not empty, letters and digits only.
pub open spec fn is_token(s: Seq<u8>) -> bool {
    s.len() > 0 && forall|i: int| 0 <= i < s.len() ==> is_alphanumeric(#[trigger] s[i])
}

/// The bytes of the protocol's words.
pub proof fn lemma_words()
    ensures
        SIZE_WORD@ =~= seq![0x53u8, 0x49u8, 0x5Au8, 0x45u8],
        PX_WORD@ =~= seq![0x50u8, 0x58u8],
        STATE_WORD@ =~= seq![0x53u8, 0x54u8, 0x41u8, 0x54u8, 0x45u8],
        HELP_WORD@ =~= seq![0x48u8, 0x45u8, 0x4Cu8, 0x50u8],
        RGB64_WORD@ =~= seq![0x72u8, 0x67u8, 0x62u8, 0x36u8, 0x34u8],
        is_token(SIZE_WORD@),
        is_token(PX_WORD@),
        is_token(STATE_WORD@),
        is_token(HELP_WORD@),
        is_token(RGB64_WORD@),
{
}

/// A word holds no space and ends in a letter or a digit.
pub proof fn lemma_token(s: Seq<u8>)
    requires
        is_token(s),
    ensures
        no_space(s),
        s.len() > 0,
        is_alphanumeric(s.last()),
{
}

/// The decimal text of a number is a word that denotes the number.
pub proof fn lemma_number_token(n: usize)
    ensures
        is_token(number_text(n as nat)),
        number_of(number_text(n as nat)) == Some(n),
{
    law_number_round_trip(n as nat);
    let s = number_text(n as nat);
    assert forall|i: int| 0 <= i < s.len() implies is_alphanumeric(#[trigger] s[i]) by {
        assert(is_digit(s[i]));
    }
}

/// The text of a color is a word that denotes the color.
pub proof fn lemma_color_token(c: Color)
    ensures
        is_token(color_text(c)),
        color_of_text(color_text(c)) == Some(c),
{
    law_color_text_round_trip(c);
    let s = color_text(c);
    assert forall|i: int| 0 <= i < s.len() implies is_alphanumeric(#[trigger] s[i]) by {
        assert(hex_value(s[i]) is Some);
    }
}

/// The word for a topic names that topic.
pub proof fn lemma_topic_token(topic: HelpTopic)
    ensures
        is_token(topic_word(topic)),
        topic_of(topic_word(topic)) == Some(topic),
{
    lemma_words();
}

/// The name of an encoding names that encoding.
pub proof fn lemma_encoding_token(encoding: StateEncoding)
    ensures
        is_token(encoding_word(encoding)),
        encoding_of(encoding_word(encoding)) == Some(encoding),
{
    lemma_words();
}

/// A line that ends in a letter, a digit or a space is its own body, with or
/// without a newline after it.
pub proof fn lemma_body_of_line(body: Seq<u8>)
    requires
        body.len() > 0,
        body.last() != NEWLINE,
        body.last() != CARRIAGE_RETURN,
    ensures
        line_body(body.push(NEWLINE)) == body,
        line_body(body) == body,
        body.push(NEWLINE).drop_last() == body,
{
    let line = body.push(NEWLINE);
    assert(line.take(line.len() - 1) =~= body);
    assert(line.drop_last() =~= body);
}

/// Two words and a space between them are two fields.
pub proof fn lemma_fields_2(a: Seq<u8>, b: Seq<u8>)
    requires
        no_space(a),
        no_space(b),
    ensures
        split_fields(a + seq![SPACE] + b) == seq![a, b],
{
    lemma_split_single(a);
    lemma_split_append(a, b);
    assert(seq![a].push(b) =~= seq![a, b]);
}

/// Three words with single spaces between them are three fields.
pub proof fn lemma_fields_3(a: Seq<u8>, b: Seq<u8>, c: Seq<u8>)
    requires
        no_space(a),
        no_space(b),
        no_space(c),
    ensures
        split_fields(a + seq![SPACE] + b + seq![SPACE] + c) == seq![a, b, c],
{
    lemma_fields_2(a, b);
    lemma_split_append(a + seq![SPACE] + b, c);
    assert(seq![a, b].push(c) =~= seq![a, b, c]);
}

/// Four words with single spaces between them are four fields.
pub proof fn lemma_fields_4(a: Seq<u8>, b: Seq<u8>, c: Seq<u8>, d: Seq<u8>)
    requires
        no_space(a),
        no_space(b),
        no_space(c),
        no_space(d),
    ensures
        split_fields(a + seq![SPACE] + b + seq![SPACE] + c + seq![SPACE] + d) == seq![a, b, c, d],
{
    lemma_fields_3(a, b, c);
    lemma_split_append(a + seq![SPACE] + b + seq![SPACE] + c, d);
    assert(seq![a, b, c].push(d) =~= seq![a, b, c, d]);
}

/// No keyword is mistaken for another.
pub proof fn lemma_keywords_differ()
    ensures
        matches_word(SIZE_WORD@, SIZE_WORD@),
        matches_word(PX_WORD@, PX_WORD@),
        matches_word(STATE_WORD@, STATE_WORD@),
        matches_word(HELP_WORD@, HELP_WORD@),
        !matches_word(HELP_WORD@, SIZE_WORD@),
        !matches_word(PX_WORD@, SIZE_WORD@),
        !matches_word(PX_WORD@, HELP_WORD@),
        !matches_word(STATE_WORD@, SIZE_WORD@),
        !matches_word(STATE_WORD@, HELP_WORD@),
        !matches_word(STATE_WORD@, PX_WORD@),
{
    lemma_words();
    assert(upper(HELP_WORD@[0]) != upper(SIZE_WORD@[0]));
}

/// Every request that is written as a line is read back as the same
/// request, whether or not the final newline is still there.
pub proof fn law_request_round_trip(request: Request)
    ensures
        request_of_line(request_text(request)) == Ok::<Request, ParseError>(request),
        request_of_line(request_text(request).drop_last()) == Ok::<Request, ParseError>(request),
{
    lemma_words();
    lemma_keywords_differ();
    lemma_token(SIZE_WORD@);
    lemma_token(PX_WORD@);
    lemma_token(STATE_WORD@);
    lemma_token(HELP_WORD@);
    match request {
        Request::GetSize => {
            let body = SIZE_WORD@;
            lemma_body_of_line(body);
            lemma_split_single(body);
            assert(request_of_fields(seq![body]) == Ok::<Request, int>(request));
        },
        Request::GetPixel { x, y } => {
            let a = number_text(x as nat);
            let b = number_text(y as nat);
            lemma_number_token(x);
            lemma_number_token(y);
            lemma_token(a);
            lemma_token(b);
            let body = PX_WORD@ + seq![SPACE] + a + seq![SPACE] + b;
            assert(body.last() == b.last());
            lemma_body_of_line(body);
            lemma_fields_3(PX_WORD@, a, b);
            assert(request_of_fields(seq![PX_WORD@, a, b]) == Ok::<Request, int>(request));
        },
        Request::SetPixel { x, y, color } => {
            let a = number_text(x as nat);
            let b = number_text(y as nat);
            let c = color_text(color);
            lemma_number_token(x);
            lemma_number_token(y);
            lemma_color_token(color);
            lemma_token(a);
            lemma_token(b);
            lemma_token(c);
            let body = PX_WORD@ + seq![SPACE] + a + seq![SPACE] + b + seq![SPACE] + c;
            assert(body.last() == c.last());
            lemma_body_of_line(body);
            lemma_fields_4(PX_WORD@, a, b, c);
            assert(request_of_fields(seq![PX_WORD@, a, b, c]) == Ok::<Request, int>(request));
        },
        Request::GetState { encoding } => {
            let a = encoding_word(encoding);
            lemma_encoding_token(encoding);
            lemma_token(a);
            let body = STATE_WORD@ + seq![SPACE] + a;
            assert(body.last() == a.last());
            lemma_body_of_line(body);
            lemma_fields_2(STATE_WORD@, a);
            assert(request_of_fields(seq![STATE_WORD@, a]) == Ok::<Request, int>(request));
        },
        Request::Help { topic: None } => {
            let body = HELP_WORD@;
            lemma_body_of_line(body);
            lemma_split_single(body);
            assert(request_of_fields(seq![body]) == Ok::<Request, int>(request));
        },
        Request::Help { topic: Some(topic) } => {
            let a = topic_word(topic);
            lemma_topic_token(topic);
            lemma_token(a);
            let body = HELP_WORD@ + seq![SPACE] + a;
            assert(body.last() == a.last());
            lemma_body_of_line(body);
            lemma_fields_2(HELP_WORD@, a);
            assert(request_of_fields(seq![HELP_WORD@, a]) == Ok::<Request, int>(request));
        },
    }
}

/// Every help text begins as a help text does and does not end in a newline.
pub proof fn lemma_help_text_shaped(topic: Option<HelpTopic>)
    ensures
        help_shaped(help_text(topic)),
{
    lemma_help_general_shaped();
    lemma_help_size_shaped();
    lemma_help_px_shaped();
    lemma_help_state_shaped();
}

/// A message that does not begin as a help text does is no help text.
pub proof fn lemma_not_help(message: Seq<u8>)
    requires
        !begins_like_help(message),
    ensures
        help_of_message(message) is None,
{
    assert forall|topic: Option<HelpTopic>| !is_help_message(message, help_text(topic)) by {
        lemma_help_text_shaped(topic);
        let text = help_text(topic);
        if message == help_line(text) {
            assert(message[0] == text[0]);
            assert(message[1] == text[1]);
        }
    }
}

/// A payload holds no space and no line terminator.
pub proof fn lemma_payload_token(bytes: Seq<u8>)
    requires
        is_payload(bytes),
    ensures
        no_space(bytes),
        bytes.len() > 0 ==> bytes.last() != NEWLINE && bytes.last() != CARRIAGE_RETURN,
{
    assert forall|i: int| 0 <= i < bytes.len() implies #[trigger] bytes[i] != SPACE by {
        assert(is_payload_byte(bytes[i]));
    }
    if bytes.len() > 0 {
        assert(is_payload_byte(bytes[bytes.len() - 1]));
    }
}

/// Every response that the server sends is read back as the same response.
pub proof fn law_response_round_trip(response: ResponseView)
    requires
        valid_response(response),
    ensures
        response_of_message(response_text(response)) == Ok::<ResponseView, ParseError>(response),
{
    lemma_words();
    lemma_keywords_differ();
    lemma_token(SIZE_WORD@);
    lemma_token(PX_WORD@);
    lemma_token(STATE_WORD@);
    match response {
        ResponseView::Size { width, height } => {
            let a = number_text(width as nat);
            let b = number_text(height as nat);
            lemma_number_token(width);
            lemma_number_token(height);
            lemma_token(a);
            lemma_token(b);
            let body = SIZE_WORD@ + seq![SPACE] + a + seq![SPACE] + b;
            assert(body.last() == b.last());
            assert(body[0] == SIZE_WORD@[0] && body[1] == SIZE_WORD@[1]);
            lemma_body_of_line(body);
            lemma_not_help(body.push(NEWLINE));
            lemma_fields_3(SIZE_WORD@, a, b);
            assert(response_of_fields(seq![SIZE_WORD@, a, b]) == Ok::<ResponseView, int>(
                response,
            ));
        },
        ResponseView::Pixel { x, y, color } => {
            let a = number_text(x as nat);
            let b = number_text(y as nat);
            let c = color_text(color);
            lemma_number_token(x);
            lemma_number_token(y);
            lemma_color_token(color);
            lemma_token(a);
            lemma_token(b);
            lemma_token(c);
            let body = PX_WORD@ + seq![SPACE] + a + seq![SPACE] + b + seq![SPACE] + c;
            assert(body.last() == c.last());
            assert(body[0] == PX_WORD@[0] && body[1] == PX_WORD@[1]);
            lemma_body_of_line(body);
            lemma_not_help(body.push(NEWLINE));
            lemma_fields_4(PX_WORD@, a, b, c);
            assert(response_of_fields(seq![PX_WORD@, a, b, c]) == Ok::<ResponseView, int>(
                response,
            ));
        },
        ResponseView::State { encoding, bytes } => {
            let a = encoding_word(encoding);
            lemma_encoding_token(encoding);
            lemma_token(a);
            lemma_payload_token(bytes);
            let body = STATE_WORD@ + seq![SPACE] + a + seq![SPACE] + bytes;
            if bytes.len() > 0 {
                assert(body.last() == bytes.last());
            } else {
                assert(body.last() == SPACE);
            }
            assert(body[0] == STATE_WORD@[0] && body[1] == STATE_WORD@[1]);
            lemma_body_of_line(body);
            lemma_not_help(body.push(NEWLINE));
            lemma_fields_3(STATE_WORD@, a, bytes);
            assert(response_of_fields(seq![STATE_WORD@, a, bytes]) == Ok::<ResponseView, int>(
                response,
            ));
        },
        ResponseView::Help { text } => {
            let topic = choose|topic: Option<HelpTopic>| text == help_text(topic);
            lemma_help_text_shaped(topic);
            let message = response_text(response);
            assert(message == text.push(NEWLINE));
            assert(is_help_message(message, help_text(topic)));
            assert forall|other: Option<HelpTopic>|
                is_help_message(message, help_text(other)) implies help_text(other) == text by {
                lemma_help_text_shaped(other);
                let t = help_text(other);
                assert(message.last() == NEWLINE);
                assert(message == t.push(NEWLINE));
                assert(t =~= message.drop_last());
                assert(text =~= message.drop_last());
            }
            assert(help_of_message(message) == Some(text));
        },
    }
}

/// Whether a byte is blank: a space, a tab, a carriage return or a newline.
pub open spec fn is_blank(b: u8) -> bool {
    b == SPACE || b == 0x09 || b == CARRIAGE_RETURN || b == NEWLINE
}

/// The last field of a line ends as the line does, or is empty where the
/// line ends in a space.
pub proof fn lemma_last_field(body: Seq<u8>)
    requires
        body.len() > 0,
    ensures
        split_fields(body).len() >= 1,
        body.last() == SPACE ==> split_fields(body).last().len() == 0,
        body.last() != SPACE ==> split_fields(body).last().len() > 0 && split_fields(
            body,
        ).last().last() == body.last(),
{
    lemma_split_nonempty(body.drop_last());
}

/// A field that is empty or ends in a blank is no keyword, number, color,
/// topic or encoding name.
pub proof fn lemma_blank_field(field: Seq<u8>)
    requires
        field.len() == 0 || is_blank(field.last()),
    ensures
        !matches_word(field, SIZE_WORD@),
        !matches_word(field, PX_WORD@),
        !matches_word(field, STATE_WORD@),
        !matches_word(field, HELP_WORD@),
        number_of(field) is None,
        color_of_text(field) is None,
        topic_of(field) is None,
        encoding_of(field) is None,
{
    lemma_words();
    if field.len() > 0 {
        let last = field.len() - 1;
        let b = field[last];
        assert(upper(b) == b);
        if matches_word(field, SIZE_WORD@) {
            assert(upper(field[last]) == upper(SIZE_WORD@[last]));
        }
        if matches_word(field, PX_WORD@) {
            assert(upper(field[last]) == upper(PX_WORD@[last]));
        }
        if matches_word(field, STATE_WORD@) {
            assert(upper(field[last]) == upper(STATE_WORD@[last]));
        }
        if matches_word(field, HELP_WORD@) {
            assert(upper(field[last]) == upper(HELP_WORD@[last]));
        }
        if is_number(field) {
            assert(is_digit(field[last]));
        }
        if is_hex(field) {
            assert(hex_value(field[last]) is Some);
        }
        if field == RGB64_WORD@ {
            assert(field[last] == RGB64_WORD@[last]);
        }
    }
}

/// A request line whose body ends in blank space is refused: nothing may
/// follow the last field but the line terminator.
pub proof fn law_trailing_blank_refused(line: Seq<u8>)
    requires
        line_body(line).len() > 0,
        is_blank(line_body(line).last()),
    ensures
        request_of_line(line) is Err,
{
    let body = line_body(line);
    let fields = split_fields(body);
    lemma_last_field(body);
    lemma_blank_field(fields.last());
    let n = fields.len();
    if n == 1 {
        assert(fields[0] == fields.last());
    } else if n == 2 {
        assert(fields[1] == fields.last());
    } else if n == 3 {
        assert(fields[2] == fields.last());
    } else if n == 4 {
        assert(fields[3] == fields.last());
    }
}

/// The final newline of a request line may be missing: a line that does not
/// end in a line terminator means the same with a newline after it.
pub proof fn law_newline_optional(line: Seq<u8>)
    requires
        line.len() > 0,
        line.last() != NEWLINE,
        line.last() != CARRIAGE_RETURN,
    ensures
        request_of_line(line.push(NEWLINE)) == request_of_line(line),
{
    lemma_body_of_line(line);
}

/// A carriage return before the final newline is ignored.
pub proof fn law_carriage_return_tolerated(line: Seq<u8>)
    requires
        line.len() == 0 || line.last() != CARRIAGE_RETURN,
    ensures
        request_of_line(line.push(CARRIAGE_RETURN).push(NEWLINE)) == request_of_line(
            line.push(NEWLINE),
        ),
{
    let a = line.push(CARRIAGE_RETURN).push(NEWLINE);
    let b = line.push(NEWLINE);
    assert(a.take(a.len() - 2) =~= line);
    assert(b.take(b.len() - 1) =~= line);
}

/// The position that a syntax error carries lies in the line: at the start
/// of one of its fields, or at its end.
pub proof fn law_error_position_in_line(line: Seq<u8>)
    requires
        line.len() <= usize::MAX,
    ensures
        request_of_line(line) matches Err(ParseError::Syntax { position }) ==> position
            <= line_body(line).len(),
        response_of_message(line) matches Err(ParseError::Syntax { position }) ==> position
            <= line_body(line).len(),
{
    let body = line_body(line);
    let fields = split_fields(body);
    match request_of_fields(fields) {
        Err(k) => {
            law_field_position_in_line(body, k);
        },
        Ok(_) => {},
    }
    match response_of_fields(fields) {
        Err(k) => {
            law_field_position_in_line(body, k);
        },
        Ok(_) => {},
    }
}

} // verus!
