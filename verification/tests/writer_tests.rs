use bunyan_view::{Style, StyledWriter};

#[test]
fn style_codes_are_ansi_pairs() {
    assert_eq!(Style::Plain.codes(), ("", ""));
    assert_eq!(Style::Bold.codes(), ("\x1b[1m", "\x1b[22m"));
    assert_eq!(Style::Inverse.codes(), ("\x1b[7m", "\x1b[27m"));
    assert_eq!(Style::White.codes(), ("\x1b[37m", "\x1b[39m"));
    assert_eq!(Style::Cyan.codes(), ("\x1b[36m", "\x1b[39m"));
    assert_eq!(Style::Magenta.codes(), ("\x1b[35m", "\x1b[39m"));
    assert_eq!(Style::Red.codes(), ("\x1b[31m", "\x1b[39m"));
    assert_eq!(Style::Yellow.codes(), ("\x1b[33m", "\x1b[39m"));
}

#[test]
fn writes_append_in_call_order() {
    let mut writer = StyledWriter::new(false);
    writer.write("one");
    writer.write(" ");
    writer.write("two");
    assert_eq!(writer.flush().as_str(), "one two");
}

#[test]
fn styled_write_wraps_only_when_enabled() {
    let mut writer = StyledWriter::new(true);
    writer.write_styled("hot", Style::Red);
    assert_eq!(writer.flush().as_str(), "\x1b[31mhot\x1b[39m");

    let mut writer = StyledWriter::new(false);
    writer.write_styled("hot", Style::Red);
    assert_eq!(writer.flush().as_str(), "hot");
}

#[test]
fn flush_drains_the_buffer() {
    let mut writer = StyledWriter::new(false);
    writer.write("line");
    assert_eq!(writer.flush().as_str(), "line");
    assert_eq!(writer.flush().as_str(), "");
}

#[test]
fn passthrough_text_is_unchanged() {
    // a line that is not a structured record goes out exactly as it came in,
    // with the terminator appended by the caller
    let raw = "not valid json {";
    let mut writer = StyledWriter::new(true);
    writer.write(raw);
    writer.write("\n");
    assert_eq!(writer.flush(), format!("{raw}\n"));
}
