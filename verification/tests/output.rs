use devzat_forth::output::NO_INPUT;
use devzat_forth::OutputStream;

#[test]
fn bytes_are_collected_in_order() {
    let mut out = OutputStream::new();
    for b in "2 ok\n".bytes() {
        out.output_byte(b);
    }
    assert_eq!(out.get_output(), "2 ok\n");
}

#[test]
fn collecting_empties_the_stream() {
    let mut out = OutputStream::new();
    out.output_byte(b'x');
    assert_eq!(out.get_output(), "x");
    assert_eq!(out.get_output(), "");
}

#[test]
fn print_string_stops_at_the_first_nul() {
    let mut out = OutputStream::new();
    out.print_string(b"Hello\0World\0");
    assert_eq!(out.get_output(), "Hello");
}

#[test]
fn print_string_of_an_empty_c_string() {
    let mut out = OutputStream::new();
    out.print_string(b"\0");
    assert_eq!(out.get_output(), "");
}

#[test]
fn printed_and_sent_strings_follow_earlier_output() {
    let mut out = OutputStream::new();
    out.output_byte(b'>');
    out.print_string("Hello Devzat! ".as_bytes().iter().copied().chain([0u8, 7u8]).collect::<Vec<u8>>().as_slice());
    out.send_string("\u{1F955}\n");
    assert_eq!(out.get_output(), ">Hello Devzat! \u{1F955}\n");
}

#[test]
fn timeout_notice_text() {
    let mut out = OutputStream::new();
    out.report_timeout();
    assert_eq!(out.get_output(), "[ERROR] Timeout while executing forth. Resetting state\n");
}

#[test]
fn invalid_utf8_is_dropped() {
    let mut out = OutputStream::new();
    out.output_byte(0xff);
    out.output_byte(b'a');
    assert_eq!(out.take_output(), None);
    assert_eq!(out.take_output(), Some(String::new()));
}

#[test]
fn a_split_character_is_decoded_once_complete() {
    let mut out = OutputStream::new();
    for b in "é".bytes() {
        out.output_byte(b);
    }
    assert_eq!(out.take_output(), Some("é".to_string()));
}

#[test]
fn the_interpreter_gets_no_input() {
    assert_eq!(NO_INPUT, 0);
}
