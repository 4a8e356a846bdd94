//! The lines of the application log: the level in brackets, painted in the
//! colour of the level, then the message.

use vstd::prelude::*;

verus! {

/// How serious a log record is.
#[derive(Clone, Copy, Debug, PartialEq, Eq, Structural)]
pub enum LogLevel {
    Error,
    Warn,
    Info,
    Debug,
    Trace,
}

/// A colour of the terminal.
#[derive(Clone, Copy, Debug, PartialEq, Eq, Structural)]
pub enum LevelColor {
    Red,
    Yellow,
    Green,
    Blue,
    Purple,
}

/// How the level of a record is painted.
#[derive(Clone, Copy, Debug, PartialEq, Eq, Structural)]
pub struct LevelStyle {
    pub color: LevelColor,
    pub bold: bool,
}

/// The style of `level`: errors in bold red, warnings in yellow, information
/// in green, debugging in blue and traces in purple.
pub open spec fn style_of(level: LogLevel) -> LevelStyle {
    match level {
        LogLevel::Error => LevelStyle { color: LevelColor::Red, bold: true },
        LogLevel::Warn => LevelStyle { color: LevelColor::Yellow, bold: false },
        LogLevel::Info => LevelStyle { color: LevelColor::Green, bold: false },
        LogLevel::Debug => LevelStyle { color: LevelColor::Blue, bold: false },
        LogLevel::Trace => LevelStyle { color: LevelColor::Purple, bold: false },
    }
}

/// The name of `level` in a log line.
pub open spec fn name_of(level: LogLevel) -> Seq<char> {
    match level {
        LogLevel::Error => "ERROR"@,
        LogLevel::Warn => "WARN"@,
        LogLevel::Info => "INFO"@,
        LogLevel::Debug => "DEBUG"@,
        LogLevel::Trace => "TRACE"@,
    }
}

/// The last digit of the code that selects `color` as the foreground.
pub open spec fn color_digit(color: LevelColor) -> char {
    match color {
        LevelColor::Red => '1',
        LevelColor::Green => '2',
        LevelColor::Yellow => '3',
        LevelColor::Blue => '4',
        LevelColor::Purple => '5',
    }
}

/// The escape sequence that switches the terminal to `style`.
pub open spec fn style_prefix(style: LevelStyle) -> Seq<char> {
    if style.bold {
        seq!['\x1b', '[', '1', ';', '3', color_digit(style.color), 'm']
    } else {
        seq!['\x1b', '[', '3', color_digit(style.color), 'm']
    }
}

/// The escape sequence that switches the terminal back.
pub open spec fn style_reset() -> Seq<char> {
    seq!['\x1b', '[', '0', 'm']
}

/// The text `text` painted in `style`.
pub open spec fn painted(style: LevelStyle, text: Seq<char>) -> Seq<char> {
    style_prefix(style) + text + style_reset()
}

/// The log line for a record of `level` with `message`.
pub open spec fn log_line(level: LogLevel, message: Seq<char>) -> Seq<char> {
    let style = style_of(level);
    painted(style, seq!['[']) + painted(style, name_of(level)) + painted(style, seq![']'])
        + seq![' '] + message
}

/// Paints `text` in bold `color` with `ansi_term`: `Colour::bold`, then
/// `Style::paint`, written out as a string. What comes back is the text
/// between the escape sequence of the bold colour and the reset sequence.
#[verifier::external_body]
fn paint_bold(color: LevelColor, text: &str) -> (out: String)
    ensures
        out@ == painted(LevelStyle { color, bold: true }, text@),
{
    let colour = match color {
        LevelColor::Red => ansi_term::Colour::Red,
        LevelColor::Yellow => ansi_term::Colour::Yellow,
        LevelColor::Green => ansi_term::Colour::Green,
        LevelColor::Blue => ansi_term::Colour::Blue,
        LevelColor::Purple => ansi_term::Colour::Purple,
    };
    colour.bold().paint(text).to_string()
}

/// Paints `text` in plain `color` with `ansi_term`: `Colour::normal`, then
/// `Style::paint`, written out as a string. What comes back is the text
/// between the escape sequence of the colour and the reset sequence.
#[verifier::external_body]
fn paint_normal(color: LevelColor, text: &str) -> (out: String)
    ensures
        out@ == painted(LevelStyle { color, bold: false }, text@),
{
    let colour = match color {
        LevelColor::Red => ansi_term::Colour::Red,
        LevelColor::Yellow => ansi_term::Colour::Yellow,
        LevelColor::Green => ansi_term::Colour::Green,
        LevelColor::Blue => ansi_term::Colour::Blue,
        LevelColor::Purple => ansi_term::Colour::Purple,
    };
    colour.normal().paint(text).to_string()
}

/// The name that `log` gives to `level`, from `log::Level::as_str`: the
/// level in capital letters.
#[verifier::external_body]
fn level_name(level: LogLevel) -> (name: &'static str)
    ensures
        name@ == name_of(level),
{
    let outside = match level {
        LogLevel::Error => log::Level::Error,
        LogLevel::Warn => log::Level::Warn,
        LogLevel::Info => log::Level::Info,
        LogLevel::Debug => log::Level::Debug,
        LogLevel::Trace => log::Level::Trace,
    };
    outside.as_str()
}

/// The style in which `level` is painted.
pub fn level_style(level: LogLevel) -> (style: LevelStyle)
    ensures
        style == style_of(level),
{
    match level {
        LogLevel::Error => LevelStyle { color: LevelColor::Red, bold: true },
        LogLevel::Warn => LevelStyle { color: LevelColor::Yellow, bold: false },
        LogLevel::Info => LevelStyle { color: LevelColor::Green, bold: false },
        LogLevel::Debug => LevelStyle { color: LevelColor::Blue, bold: false },
        LogLevel::Trace => LevelStyle { color: LevelColor::Purple, bold: false },
    }
}

/// Paints `text` in `style`.
pub fn paint(style: LevelStyle, text: &str) -> (out: String)
    ensures
        out@ == painted(style, text@),
{
    if style.bold {
        paint_bold(style.color, text)
    } else {
        paint_normal(style.color, text)
    }
}

/// The log line for a record of `level` with `message`: the name of the
/// level between brackets, each of the three painted in the style of the
/// level, then a space and the message.
pub fn format_log_line(level: LogLevel, message: &str) -> (line: String)
    ensures
        line@ == log_line(level, message@),
{
    let style = level_style(level);
    proof {
        reveal_strlit("[");
        reveal_strlit("]");
        reveal_strlit(" ");
        assert("["@ =~= seq!['[']);
        assert("]"@ =~= seq![']']);
        assert(" "@ =~= seq![' ']);
    }
    let mut line = paint(style, "[");
    let name = paint(style, level_name(level));
    line.append(name.as_str());
    let closing = paint(style, "]");
    line.append(closing.as_str());
    line.append(" ");
    line.append(message);
    line
}

} // verus!
