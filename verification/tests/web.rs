use novelagent::web::{chat_guard, concept_guard, hms_of, message_guard, note_line, reply_line, utc_hms};

#[test]
fn hms_pads_each_field() {
    assert_eq!(hms_of(0), "00:00:00");
    assert_eq!(hms_of(3_661), "01:01:01");
    assert_eq!(hms_of(86_399), "23:59:59");
    assert_eq!(hms_of(86_400 + 45_296), "12:34:56");
}

#[test]
fn utc_hms_has_clock_shape() {
    let s = utc_hms();
    assert_eq!(s.len(), 8);
    assert_eq!(&s[2..3], ":");
    assert_eq!(&s[5..6], ":");
}

#[test]
fn reply_lines_are_stamped() {
    assert_eq!(reply_line("01:02:03", Ok("hi".to_owned())), "[01:02:03] hi");
    assert_eq!(reply_line("01:02:03", Err("boom".to_owned())), "[01:02:03] (error: boom)");
    assert_eq!(note_line("01:02:03", "empty message"), "[01:02:03] (empty message)");
}

#[test]
fn blank_inputs_get_a_note() {
    assert_eq!(chat_guard("  ", "hi"), Some("empty slug"));
    assert_eq!(chat_guard("", "  "), Some("empty slug"));
    assert_eq!(chat_guard("lin", " \t "), Some("empty message"));
    assert_eq!(chat_guard("lin", "hi"), None);
    assert_eq!(concept_guard("   "), Some("empty concept"));
    assert_eq!(concept_guard(" 雨夜 "), None);
    assert_eq!(message_guard(""), Some("empty message"));
    assert_eq!(message_guard(" x "), None);
}
