use luna_rs::xml::{
    escape_unicode, find_safe_delimiter, fix_cdata_end_seq, text_to_lua_script, utf8_to_unicode,
    wrap_lua_script, wrap_plain_text, wrap_python_script, XMLError, LUA_FOOTER, LUA_HEADER,
    PY_FOOTER, PY_HEADER,
};

#[test]
fn test_wrap_lua_script() {
    let script = "print('Hello, World!')";
    let result = wrap_lua_script(script, "test").unwrap();
    let result_str = String::from_utf8_lossy(&result);
    assert!(result_str.contains(script));
    assert!(result_str.contains("<![CDATA["));
    assert!(result_str.contains("]]>"));
}

#[test]
fn test_wrap_lua_with_cdata_end() {
    let script = "local x = [[some text]]>more text";
    let result = wrap_lua_script(script, "test").unwrap();
    let result_str = String::from_utf8_lossy(&result);
    assert!(result_str.contains("]]><![CDATA["));
}

#[test]
fn test_wrap_python_script() {
    let filename = "test.py";
    let result = wrap_python_script(filename, "test").unwrap();
    let result_str = String::from_utf8_lossy(&result);
    assert!(result_str.contains(filename));
    assert!(result_str.contains("TI.PythonEditor"));
}

#[test]
fn test_python_filename_too_long() {
    let long_filename = "a".repeat(250);
    let result = wrap_python_script(&long_filename, "test");
    assert!(result.is_err());
}

#[test]
fn test_fix_cdata_end_seq() {
    let input = "test]]>more";
    let result = fix_cdata_end_seq(input).unwrap();
    assert_eq!(result, "test]]]]><![CDATA[>more");
}

#[test]
fn test_utf8_to_unicode_ascii() {
    let bytes = b"Hello";
    let (c, next) = utf8_to_unicode(bytes, 0).unwrap();
    assert_eq!(c, b'H' as u32);
    assert_eq!(next, 1);
}

#[test]
fn test_escape_unicode_ascii() {
    let input = "Hello";
    let result = escape_unicode(input).unwrap();
    assert_eq!(result, b"Hello");
}

#[test]
fn test_escape_unicode_with_bom() {
    let input = "\u{FEFF}Hello";
    let result = escape_unicode(input).unwrap();
    assert_eq!(result, b"Hello");
}

#[test]
fn test_text_to_lua_script() {
    let text = "Hello, TI-Nspire!\nThis is a plain text note.";
    let lua_script = text_to_lua_script(text);
    assert!(lua_script.contains("Hello, TI-Nspire!"));
    assert!(lua_script.contains("This is a plain text note."));
    assert!(lua_script.contains("function on.paint(gc)"));
    assert!(lua_script.contains("gc:drawString"));
    assert!(lua_script.contains("platform.window:invalidate()"));
}

#[test]
fn test_text_to_lua_script_with_special_chars() {
    let text = "Test with ]] brackets";
    let lua_script = text_to_lua_script(text);
    assert!(lua_script.contains("[=["));
    assert!(lua_script.contains("]=]"));
}

#[test]
fn test_find_safe_delimiter() {
    assert_eq!(find_safe_delimiter("hello world"), "");
    assert_eq!(find_safe_delimiter("test ]] more"), "=");
    assert_eq!(find_safe_delimiter("test ]=] more"), "");
    assert_eq!(find_safe_delimiter("test ]==] more"), "");
    assert_eq!(find_safe_delimiter("test ]] and ]=] here"), "==");
}

#[test]
fn test_wrap_plain_text() {
    let text = "Hello, TI-Nspire!\nThis is a plain text note.";
    let result = wrap_plain_text(text, "MyNote").unwrap();
    let result_str = String::from_utf8_lossy(&result);
    assert!(result_str.contains("Hello"));
    assert!(result_str.contains("<![CDATA["));
    assert!(result_str.contains("function on.paint"));
}

#[test]
fn test_wrap_plain_text_unicode() {
    let text = "Hello ä¸–ç•Œ! ðŸŒ";
    let result = wrap_plain_text(text, "UnicodeNote").unwrap();
    assert!(!result.is_empty());
    let result_str = String::from_utf8_lossy(&result);
    assert!(result_str.contains("Hello"));
}

#[test]
fn lua_problem_is_header_script_footer() {
    let result = wrap_lua_script("x = 1", "").unwrap();
    let mut expected = LUA_HEADER.to_vec();
    expected.extend_from_slice(b"x = 1");
    expected.extend_from_slice(&LUA_FOOTER);
    assert_eq!(result, expected);
}

#[test]
fn python_problem_is_header_name_footer() {
    let result = wrap_python_script("s.py", "").unwrap();
    let mut expected = PY_HEADER.to_vec();
    expected.extend_from_slice(b"s.py");
    expected.extend_from_slice(&PY_FOOTER);
    assert_eq!(result, expected);
}

#[test]
fn python_filename_limit_is_240_bytes() {
    assert!(wrap_python_script(&"a".repeat(240), "").is_ok());
    assert!(matches!(
        wrap_python_script(&"a".repeat(241), ""),
        Err(XMLError::InvalidContent(_))
    ));
}

#[test]
fn cdata_fix_handles_repeats_and_edges() {
    assert_eq!(fix_cdata_end_seq("").unwrap(), "");
    assert_eq!(fix_cdata_end_seq("]]").unwrap(), "]]");
    assert_eq!(fix_cdata_end_seq("]]>").unwrap(), "]]]]><![CDATA[>");
    assert_eq!(
        fix_cdata_end_seq("a]]>b]]>").unwrap(),
        "a]]]]><![CDATA[>b]]]]><![CDATA[>"
    );
}

#[test]
fn delimiter_gives_up_after_ten() {
    let mut text = String::new();
    for k in 0..=10 {
        text.push(']');
        text.push_str(&"=".repeat(k));
        text.push(']');
    }
    assert_eq!(find_safe_delimiter(&text), "=".repeat(11));
}

#[test]
fn note_script_converts_notation() {
    let lua_script = text_to_lua_script("x^2");
    assert!(lua_script.contains("local text = [[x²]]"));
}

#[test]
fn utf8_decoding_edges() {
    assert_eq!(utf8_to_unicode("é".as_bytes(), 0).unwrap(), (0xE9, 2));
    assert_eq!(utf8_to_unicode("€".as_bytes(), 0).unwrap(), (0x20AC, 3));
    assert_eq!(utf8_to_unicode("😀".as_bytes(), 0).unwrap(), (0x1F600, 4));
    assert_eq!(utf8_to_unicode(b"ab", 5).unwrap(), (0, 5));
    assert_eq!(utf8_to_unicode(&[0x80, 0x41], 0).unwrap(), (0, 1));
    assert_eq!(utf8_to_unicode(&[0xC3], 0).unwrap(), (0xC0, 1));
}

#[test]
fn escape_unicode_widths() {
    assert_eq!(escape_unicode("é").unwrap(), vec![0x00, 0xE9]);
    assert_eq!(escape_unicode("€").unwrap(), vec![0x80, 0x20, 0xAC]);
    assert_eq!(escape_unicode("😀").unwrap(), vec![0x08, 0x01, 0xF6, 0x00]);
    assert_eq!(escape_unicode("").unwrap(), Vec::<u8>::new());
}

#[test]
fn note_script_first_line() {
    let lua_script = text_to_lua_script("hi");
    assert!(lua_script.starts_with("-- Text Note (generated by Luna-RS)\nlocal text = [[hi]]"));
}
