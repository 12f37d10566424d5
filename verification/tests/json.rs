use webhook_sender::json::{
    to_json_string, write_escaped, write_escaped_char, write_key, write_string,
    write_string_member,
};

fn escaped(c: char) -> String {
    let mut out = String::new();
    write_escaped_char(&mut out, c);
    out
}

#[test]
fn hex_digits_are_lower_case() {
    let low: String = (0x10u8..0x20).map(|code| escaped(char::from(code))).collect();
    assert_eq!(
        low,
        "\\u0010\\u0011\\u0012\\u0013\\u0014\\u0015\\u0016\\u0017\\u0018\\u0019\\u001a\\u001b\\u001c\\u001d\\u001e\\u001f"
    );
}

#[test]
fn quote_and_backslash_get_a_backslash() {
    assert_eq!(escaped('"'), "\\\"");
    assert_eq!(escaped('\\'), "\\\\");
}

#[test]
fn short_escapes_are_used_where_json_has_them() {
    assert_eq!(escaped('\u{08}'), "\\b");
    assert_eq!(escaped('\u{0c}'), "\\f");
    assert_eq!(escaped('\n'), "\\n");
    assert_eq!(escaped('\r'), "\\r");
    assert_eq!(escaped('\t'), "\\t");
}

#[test]
fn other_control_characters_are_written_in_hex() {
    assert_eq!(escaped('\u{00}'), "\\u0000");
    assert_eq!(escaped('\u{01}'), "\\u0001");
    assert_eq!(escaped('\u{07}'), "\\u0007");
    assert_eq!(escaped('\u{0b}'), "\\u000b");
    assert_eq!(escaped('\u{0e}'), "\\u000e");
    assert_eq!(escaped('\u{10}'), "\\u0010");
    assert_eq!(escaped('\u{1a}'), "\\u001a");
    assert_eq!(escaped('\u{1f}'), "\\u001f");
}

#[test]
fn everything_else_stands_for_itself() {
    for c in [' ', '!', '#', '/', '0', 'A', 'z', '~', '\u{7f}', '\u{80}', '\u{e9}', '\u{2028}',
        '\u{ffff}', '\u{1f600}', '\u{10ffff}']
    {
        assert_eq!(escaped(c), c.to_string());
    }
}

#[test]
fn every_character_is_escaped_as_serde_json_does() {
    let mut code: u32 = 0;
    while code <= 0x10ffff {
        if let Some(c) = char::from_u32(code) {
            let text = c.to_string();
            let expected = serde_json::to_string(text.as_str()).unwrap();
            assert_eq!(to_json_string(&text), expected, "U+{:04X}", code);
        }
        code += if code < 0x3000 { 1 } else { 0x101 };
    }
}

#[test]
fn strings_are_written_as_serde_json_writes_them() {
    for text in [
        "",
        "hello world",
        "say \"hi\"",
        "back\\slash and / slash",
        "\u{0}\u{1}\u{2}\u{1e}\u{1f} \u{7f}",
        "tab\there\nnew\rline\u{08}\u{0c}",
        "gr\u{fc}\u{df}e \u{4e16}\u{754c} \u{1f600}",
        "\\u0041 is not an escape here",
        "\"\"\"\\\\\\",
    ] {
        assert_eq!(to_json_string(text), serde_json::to_string(text).unwrap());
    }
}

#[test]
fn strings_read_back_as_they_were_given() {
    for text in [
        "",
        "plain",
        "\"quoted\" and \\ and \u{0}\u{1f}\n\r\t\u{08}\u{0c}",
        "\u{1f600}\u{2028}\u{7f}",
    ] {
        let read: String = serde_json::from_str(&to_json_string(text)).unwrap();
        assert_eq!(read, text);
    }
}

#[test]
fn a_long_string_is_written_whole() {
    let text = "\"\n\u{1}x".repeat(50000);
    let written = to_json_string(&text);
    assert_eq!(written.len(), 2 + 50000 * (2 + 2 + 6 + 1));
    assert_eq!(written, serde_json::to_string(text.as_str()).unwrap());
}

#[test]
fn write_escaped_leaves_the_quotes_out() {
    let mut out = String::from(">");
    write_escaped(&mut out, "a\"b");
    assert_eq!(out, ">a\\\"b");
    write_escaped(&mut out, "");
    assert_eq!(out, ">a\\\"b");
}

#[test]
fn write_string_puts_quotes_around() {
    let mut out = String::from(">");
    write_string(&mut out, "a\nb");
    assert_eq!(out, ">\"a\\nb\"");
    write_string(&mut out, "");
    assert_eq!(out, ">\"a\\nb\"\"\"");
}

#[test]
fn write_key_ends_with_a_colon() {
    let mut out = String::from("{");
    write_key(&mut out, "$schema");
    assert_eq!(out, "{\"$schema\":");
}

#[test]
fn write_string_member_writes_key_and_value() {
    let mut out = String::from("{");
    write_string_member(&mut out, "type", "TextBlock");
    assert_eq!(out, "{\"type\":\"TextBlock\"");
    out.push(',');
    write_string_member(&mut out, "te\"xt", "a\\b");
    assert_eq!(out, "{\"type\":\"TextBlock\",\"te\\\"xt\":\"a\\\\b\"");
}
