use zmk_battery_center::logfmt::{
    format_log_line, level_style, paint, LevelColor, LevelStyle, LogLevel,
};

#[test]
fn levels_have_their_styles() {
    assert_eq!(level_style(LogLevel::Error), LevelStyle { color: LevelColor::Red, bold: true });
    assert_eq!(level_style(LogLevel::Warn), LevelStyle { color: LevelColor::Yellow, bold: false });
    assert_eq!(level_style(LogLevel::Info), LevelStyle { color: LevelColor::Green, bold: false });
    assert_eq!(level_style(LogLevel::Debug), LevelStyle { color: LevelColor::Blue, bold: false });
    assert_eq!(level_style(LogLevel::Trace), LevelStyle { color: LevelColor::Purple, bold: false });
}

#[test]
fn paint_wraps_text_in_escape_sequences() {
    assert_eq!(paint(LevelStyle { color: LevelColor::Red, bold: true }, "x"), "\x1b[1;31mx\x1b[0m");
    assert_eq!(paint(LevelStyle { color: LevelColor::Red, bold: false }, "x"), "\x1b[31mx\x1b[0m");
    assert_eq!(paint(LevelStyle { color: LevelColor::Green, bold: false }, "ok"), "\x1b[32mok\x1b[0m");
    assert_eq!(paint(LevelStyle { color: LevelColor::Yellow, bold: false }, ""), "\x1b[33m\x1b[0m");
    assert_eq!(paint(LevelStyle { color: LevelColor::Blue, bold: true }, "b"), "\x1b[1;34mb\x1b[0m");
    assert_eq!(paint(LevelStyle { color: LevelColor::Purple, bold: false }, "p"), "\x1b[35mp\x1b[0m");
}

#[test]
fn error_line_is_bold_red() {
    assert_eq!(
        format_log_line(LogLevel::Error, "boom"),
        "\x1b[1;31m[\x1b[0m\x1b[1;31mERROR\x1b[0m\x1b[1;31m]\x1b[0m boom"
    );
}

#[test]
fn other_lines_are_plainly_coloured() {
    assert_eq!(
        format_log_line(LogLevel::Warn, "careful"),
        "\x1b[33m[\x1b[0m\x1b[33mWARN\x1b[0m\x1b[33m]\x1b[0m careful"
    );
    assert_eq!(
        format_log_line(LogLevel::Info, ""),
        "\x1b[32m[\x1b[0m\x1b[32mINFO\x1b[0m\x1b[32m]\x1b[0m "
    );
    assert_eq!(
        format_log_line(LogLevel::Debug, "d"),
        "\x1b[34m[\x1b[0m\x1b[34mDEBUG\x1b[0m\x1b[34m]\x1b[0m d"
    );
    assert_eq!(
        format_log_line(LogLevel::Trace, "t"),
        "\x1b[35m[\x1b[0m\x1b[35mTRACE\x1b[0m\x1b[35m]\x1b[0m t"
    );
}
