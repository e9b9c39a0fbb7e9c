//! Terminal styling: each tone of message has a fixed colour, rendered with
//! ANSI escape sequences when colours are enabled and as plain text otherwise.
use vstd::prelude::*;

verus! {

/// What a message means to the reader; each tone has its own style.
#[derive(Clone, Copy, Debug, PartialEq, Eq, Structural)]
pub enum Tone {
    Heading,
    Accent,
    Success,
    Warning,
    Error,
    Info,
}

/// The ANSI colour number of a tone's foreground (red 1, green 2, yellow 3,
/// blue 4, cyan 6).
pub open spec fn tone_color(t: Tone) -> int {
    match t {
        Tone::Heading => 6,
        Tone::Accent => 4,
        Tone::Success => 2,
        Tone::Warning => 3,
        Tone::Error => 1,
        Tone::Info => 6,
    }
}

/// Whether a tone is drawn bold.
pub open spec fn tone_bold(t: Tone) -> bool {
    match t {
        Tone::Heading | Tone::Accent | Tone::Error => true,
        _ => false,
    }
}

/// The name of one of the eight basic ANSI colours.
pub open spec fn color_word(n: int) -> Seq<char> {
    if n == 0 {
        "black"@
    } else if n == 1 {
        "red"@
    } else if n == 2 {
        "green"@
    } else if n == 3 {
        "yellow"@
    } else if n == 4 {
        "blue"@
    } else if n == 5 {
        "magenta"@
    } else if n == 6 {
        "cyan"@
    } else {
        "white"@
    }
}

/// A dotted style description: a colour name, then `.bold` where bold.
pub open spec fn dotted_style(n: int, bold: bool) -> Seq<char> {
    color_word(n) + if bold {
        ".bold"@
    } else {
        Seq::empty()
    }
}

/// The escape sequence `ESC [ code m`.
pub open spec fn sgr(code: Seq<char>) -> Seq<char> {
    seq!['\u{1b}', '['] + code + seq!['m']
}

/// `message` drawn in basic colour `n`, bold where asked, then reset.
pub open spec fn ansi_styled(n: int, bold: bool, message: Seq<char>) -> Seq<char> {
    sgr(seq!['3', seq!['0', '1', '2', '3', '4', '5', '6', '7'][n]]) + (if bold {
        sgr(seq!['1'])
    } else {
        Seq::empty()
    }) + message + sgr(seq!['0'])
}

/// What a message in a tone looks like, with colours enabled or not.
pub open spec fn painted(message: Seq<char>, tone: Tone, enabled: bool) -> Seq<char> {
    if enabled {
        ansi_styled(tone_color(tone), tone_bold(tone), message)
    } else {
        message
    }
}

/// The style description of a tone.
fn style_name(tone: Tone) -> (r: &'static str)
    ensures
        r@ == dotted_style(tone_color(tone), tone_bold(tone)),
{
    proof {
        reveal_strlit("cyan");
        reveal_strlit("blue");
        reveal_strlit("green");
        reveal_strlit("yellow");
        reveal_strlit("red");
        reveal_strlit(".bold");
        reveal_strlit("cyan.bold");
        reveal_strlit("blue.bold");
        reveal_strlit("red.bold");
    }
    match tone {
        Tone::Heading => {
            assert("cyan.bold"@ =~= "cyan"@ + ".bold"@);
            "cyan.bold"
        },
        Tone::Accent => {
            assert("blue.bold"@ =~= "blue"@ + ".bold"@);
            "blue.bold"
        },
        Tone::Success => {
            assert("green"@ =~= "green"@ + Seq::<char>::empty());
            "green"
        },
        Tone::Warning => {
            assert("yellow"@ =~= "yellow"@ + Seq::<char>::empty());
            "yellow"
        },
        Tone::Error => {
            assert("red.bold"@ =~= "red"@ + ".bold"@);
            "red.bold"
        },
        Tone::Info => {
            assert("cyan"@ =~= "cyan"@ + Seq::<char>::empty());
            "cyan"
        },
    }
}

/// Renders `message` with `console`'s `Style::from_dotted_str(style)`, meant
/// for standard output, styling forced on or off by `enabled`. Claimed, as
/// console's `Display` for a styled object writes it: with styling off the
/// message alone; with it on and a style made of a basic colour name and at
/// most `.bold`, the colour's escape (30 plus its number), the bold escape,
/// the message and the reset escape. Other styles are left unsaid.
#[verifier::external_body]
fn console_render_stdout(style: &str, message: &str, enabled: bool) -> (r: String)
    ensures
        !enabled ==> r@ == message@,
        forall|n: int, bold: bool|
            enabled && 0 <= n < 8 && style@ == #[trigger] dotted_style(n, bold) ==> r@
                == ansi_styled(n, bold, message@),
{
    console::Style::from_dotted_str(style).for_stdout().force_styling(enabled).apply_to(
        message,
    ).to_string()
}

/// As `console_render_stdout`, with the style meant for standard error
/// (`for_stderr`); forcing styling on or off makes the stream irrelevant to
/// the text, so the claim is the same.
#[verifier::external_body]
fn console_render_stderr(style: &str, message: &str, enabled: bool) -> (r: String)
    ensures
        !enabled ==> r@ == message@,
        forall|n: int, bold: bool|
            enabled && 0 <= n < 8 && style@ == #[trigger] dotted_style(n, bold) ==> r@
                == ansi_styled(n, bold, message@),
{
    console::Style::from_dotted_str(style).for_stderr().force_styling(enabled).apply_to(
        message,
    ).to_string()
}

/// `console::colors_enabled`: whether standard output takes colours; it reads
/// the environment and the terminal, so nothing is claimed of it.
pub assume_specification[ console::colors_enabled ]() -> bool;

/// `console::colors_enabled_stderr`: as above, for standard error.
pub assume_specification[ console::colors_enabled_stderr ]() -> bool;

/// A message in a tone for standard output, colours on or off as asked.
pub fn paint_with_colors(message: &str, tone: Tone, enabled: bool) -> (r: String)
    ensures
        r@ == painted(message@, tone, enabled),
{
    let style = style_name(tone);
    console_render_stdout(style, message, enabled)
}

/// A message in a tone for standard error, colours on or off as asked.
pub fn paint_with_colors_for_stderr(message: &str, tone: Tone, enabled: bool) -> (r: String)
    ensures
        r@ == painted(message@, tone, enabled),
{
    let style = style_name(tone);
    console_render_stderr(style, message, enabled)
}

/// A message in a tone for standard output, coloured when the terminal takes
/// colours.
pub fn paint(message: &str, tone: Tone) -> (r: String)
    ensures
        r@ == painted(message@, tone, true) || r@ == painted(message@, tone, false),
{
    let enabled = console::colors_enabled();
    paint_with_colors(message, tone, enabled)
}

/// A message in a tone for standard error, coloured when that terminal takes
/// colours.
pub fn paint_stderr(message: &str, tone: Tone) -> (r: String)
    ensures
        r@ == painted(message@, tone, true) || r@ == painted(message@, tone, false),
{
    let enabled = console::colors_enabled_stderr();
    paint_with_colors_for_stderr(message, tone, enabled)
}

} // verus!
