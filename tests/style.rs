use snova::fmt_text;
use termion::style;

#[test]
fn fmt_text_ok() {
    assert_eq!(
        format!(
            "Hello {}UNDERLINE{} and {}bold{}",
            style::Underline,
            style::NoUnderline,
            style::Bold,
            style::Reset
        ),
        fmt_text("Hello _UNDERLINE_ and *bold*")
    );

    assert_eq!(
        format!("inline={}underline{}", style::Underline, style::NoUnderline),
        fmt_text("inline=_underline_")
    );
}

#[test]
fn unclosed_styles_are_closed_at_the_end() {
    assert_eq!(format!("{}-A", style::Bold) + "\x1b[m", fmt_text("*-A"));
    assert_eq!("\x1b[4mNUM\x1b[24m", fmt_text("_NUM"));
    assert_eq!("plain", fmt_text("plain"));
}
