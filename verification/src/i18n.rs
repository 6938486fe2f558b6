//! The help texts that the server sends.

use vstd::prelude::*;
use vstd::string::*;
use vstd::utf8::*;
use crate::text::NEWLINE;

verus! {

/// The overview of all commands.
pub const HELP_GENERAL: &'static str = "pixelflut - a pixel drawing game for programmers inspired by reddits r/place.\n\
\n\
Available subcommands are:\n\
HELP\t- This help message\n\
SIZE\t- Get the current canvas size\n\
PX\t- Get or set one specific pixel color\n\
STATE\t- Get the whole canvas in a specifically encoded format\n\
\n\
All commands end with a newline character (\\n) and need to be sent as UTF-8 encoded strings.\n\
Responses are also always newline terminated.\n\
\n\
More help is available with 'HELP <subcommand>'";

/// Help on the `SIZE` command.
pub const HELP_SIZE: &'static str = "Syntax:\t\tSIZE\n\
Response:\tSIZE <width> <height>\n\
\n\
Returns the current canvas size.\n\
This server does not support changing the canvas size at runtime so the result can safely be cached";

/// Help on the `PX` command.
pub const HELP_PX: &'static str = "Syntax:\t\tPX <x> <y> [<rgb>]\n\
Response:\t[PX <x> <y> <rgb>]\n\
\n\
Gets or sets the pixel color addressed by the coordinates <x> and <y>.\n\
The mode of operation is determined by the third argument (<rgb>) being present or not.\n\
If it is present, the pixel will be set to that color and no response will be sent.\n\
If it is not present, the current color will be returned.\n\
\n\
<x>\t- X position on the canvas counted from the left side\n\
<y>\t- Y position on the canvas counted from the top\n\
<rgb>\t- HEX encoded rgb color (000000 - FFFFFF)";

/// Help on the `STATE` command.
pub const HELP_STATE: &'static str = "Syntax:\t\tSTATE <encoding>\n\
Response:\tSTATE <encoding> <data>\n\
\n\
Gets the whole canvas as one payload in the given encoding.\n\
\n\
<encoding>\t- rgb64: red, green and blue of every pixel in row-major order, base64 encoded";

/// Whether a message begins as a help text does: with a lower-case `p`, or
/// with `Sy`. No other response begins so.
pub open spec fn begins_like_help(s: Seq<u8>) -> bool {
    s.len() >= 2 && (s[0] == 0x70 || (s[0] == 0x53 && s[1] == 0x79))
}

/// What the protocol needs to know of a help text: how it begins, and that
/// it does not end in a newline.
pub open spec fn help_shaped(s: Seq<u8>) -> bool {
    begins_like_help(s) && s.last() != NEWLINE
}

proof fn lemma_ascii_byte(c: u32)
    by (bit_vector)
    requires
        c < 128,
    ensures
        has_width_1_encoding(c),
        leading_byte_width_1(c) as u32 == c,
{
}

proof fn lemma_first_bytes(chars: Seq<char>)
    requires
        chars.len() >= 2,
        (chars[0] as u32) < 128,
        (chars[1] as u32) < 128,
    ensures
        encode_utf8(chars).len() >= 2,
        encode_utf8(chars)[0] as u32 == chars[0] as u32,
        encode_utf8(chars)[1] as u32 == chars[1] as u32,
{
    let rest = chars.drop_first();
    lemma_ascii_byte(chars[0] as u32);
    lemma_ascii_byte(rest[0] as u32);
    assert(encode_utf8(chars) == encode_scalar(chars[0] as u32) + encode_utf8(rest));
    assert(encode_utf8(rest) == encode_scalar(rest[0] as u32) + encode_utf8(rest.drop_first()));
}

proof fn lemma_last_byte(chars: Seq<char>)
    requires
        chars.len() > 0,
        (chars.last() as u32) < 128,
    ensures
        encode_utf8(chars).len() > 0,
        encode_utf8(chars).last() as u32 == chars.last() as u32,
    decreases chars.len(),
{
    let c = chars[0] as u32;
    let rest = encode_utf8(chars.drop_first());
    assert(encode_utf8(chars) == encode_scalar(c) + rest);
    if chars.len() == 1 {
        assert(rest =~= Seq::<u8>::empty());
        lemma_ascii_byte(c);
        assert(encode_utf8(chars) =~= seq![leading_byte_width_1(c)]);
    } else {
        lemma_last_byte(chars.drop_first());
        assert(chars.drop_first().last() == chars.last());
        assert((encode_scalar(c) + rest).last() == rest.last());
    }
}

/// The general help text has the shape of a help text.
pub proof fn lemma_help_general_shaped()
    ensures
        help_shaped(HELP_GENERAL.spec_bytes()),
{
    reveal_strlit("pixelflut - a pixel drawing game for programmers inspired by reddits r/place.\n\
\n\
Available subcommands are:\n\
HELP\t- This help message\n\
SIZE\t- Get the current canvas size\n\
PX\t- Get or set one specific pixel color\n\
STATE\t- Get the whole canvas in a specifically encoded format\n\
\n\
All commands end with a newline character (\\n) and need to be sent as UTF-8 encoded strings.\n\
Responses are also always newline terminated.\n\
\n\
More help is available with 'HELP <subcommand>'");
    lemma_first_bytes(HELP_GENERAL@);
    lemma_last_byte(HELP_GENERAL@);
}

/// The size help text has the shape of a help text.
pub proof fn lemma_help_size_shaped()
    ensures
        help_shaped(HELP_SIZE.spec_bytes()),
{
    reveal_strlit("Syntax:\t\tSIZE\n\
Response:\tSIZE <width> <height>\n\
\n\
Returns the current canvas size.\n\
This server does not support changing the canvas size at runtime so the result can safely be cached");
    lemma_first_bytes(HELP_SIZE@);
    lemma_last_byte(HELP_SIZE@);
}

/// The px help text has the shape of a help text.
pub proof fn lemma_help_px_shaped()
    ensures
        help_shaped(HELP_PX.spec_bytes()),
{
    reveal_strlit("Syntax:\t\tPX <x> <y> [<rgb>]\n\
Response:\t[PX <x> <y> <rgb>]\n\
\n\
Gets or sets the pixel color addressed by the coordinates <x> and <y>.\n\
The mode of operation is determined by the third argument (<rgb>) being present or not.\n\
If it is present, the pixel will be set to that color and no response will be sent.\n\
If it is not present, the current color will be returned.\n\
\n\
<x>\t- X position on the canvas counted from the left side\n\
<y>\t- Y position on the canvas counted from the top\n\
<rgb>\t- HEX encoded rgb color (000000 - FFFFFF)");
    lemma_first_bytes(HELP_PX@);
    lemma_last_byte(HELP_PX@);
}

/// The state help text has the shape of a help text.
pub proof fn lemma_help_state_shaped()
    ensures
        help_shaped(HELP_STATE.spec_bytes()),
{
    reveal_strlit("Syntax:\t\tSTATE <encoding>\n\
Response:\tSTATE <encoding> <data>\n\
\n\
Gets the whole canvas as one payload in the given encoding.\n\
\n\
<encoding>\t- rgb64: red, green and blue of every pixel in row-major order, base64 encoded");
    lemma_first_bytes(HELP_STATE@);
    lemma_last_byte(HELP_STATE@);
}

} // verus!
