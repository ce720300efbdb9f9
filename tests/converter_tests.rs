use luna_rs::converter::{pad_to_8_bytes, ConversionError, Converter};
use luna_rs::xml::text_to_lua_script;

fn has_tipd_marker(bytes: &[u8]) -> bool {
    let len = bytes.len();
    let mut found_tipd = false;
    for i in (0..len.saturating_sub(4)).rev() {
        if &bytes[i..i + 4] == b"TIPD" {
            found_tipd = true;
            break;
        }
    }
    found_tipd
}

#[test]
fn test_pad_to_8_bytes() {
    let data = vec![1, 2, 3];
    let padded = pad_to_8_bytes(data);
    assert_eq!(padded.len(), 8);
    assert_eq!(padded, vec![1, 2, 3, 0, 0, 0, 0, 0]);

    let data = vec![1, 2, 3, 4, 5, 6, 7, 8];
    let padded = pad_to_8_bytes(data);
    assert_eq!(padded.len(), 8);

    let data = vec![1, 2, 3, 4, 5, 6, 7, 8, 9];
    let padded = pad_to_8_bytes(data);
    assert_eq!(padded.len(), 16);
}

#[test]
fn test_convert_lua_to_tns() {
    let converter = Converter::new();
    let lua_script = "-- Simple test\nprint(\"Hello World!\")";
    let result = converter.convert_lua_to_tns(lua_script, "");
    if let Err(e) = &result {
        println!("Error: {:?}", e);
    }
    assert!(result.is_ok());
    let bytes = result.unwrap();
    assert_eq!(&bytes[0..6], b"*TIMLP", "Should start with TI magic");
    assert_eq!(&bytes[6..10], b"0500", "Should have version 0500");
    assert!(has_tipd_marker(&bytes), "Should have TIPD end marker");
}

#[test]
fn test_convert_python_to_tns() {
    let converter = Converter::new();
    let python_script = "print('Hello from Python!')";
    let result = converter.convert_python_to_tns(python_script, "test.py", "");
    if let Err(e) = &result {
        println!("Error: {:?}", e);
    }
    assert!(result.is_ok());
    let bytes = result.unwrap();
    assert_eq!(&bytes[0..6], b"*TIMLP", "Should start with TI magic");
}

#[test]
fn test_tns_has_tipd_end_marker() {
    let converter = Converter::new();
    let lua_script = "print('Testing TIPD marker')";
    let bytes = converter.convert_lua_to_tns(lua_script, "").unwrap();
    assert!(has_tipd_marker(&bytes), "Should have TIPD end marker");
}

#[test]
fn test_convert_text_to_tns() {
    let converter = Converter::new();
    let plain_text = "Hello, World!\nThis is a plain text note.\nIt supports multiple lines.\n\nUse UP/DOWN arrows to scroll.\nPress ENTER to reset scroll position.\n\nLine 7\nLine 8\nLine 9\nLine 10\nLine 11\nLine 12\nLine 13\nLine 14\nLine 15\nLine 16\nLine 17\nLine 18\nLine 19\nLine 20";
    let result = converter.convert_text_to_tns(plain_text, "");
    if let Err(e) = &result {
        println!("Error: {:?}", e);
    }
    assert!(result.is_ok());
    assert!(!result.unwrap().is_empty());
}

#[test]
fn test_convert_text_with_latex_to_tns() {
    let converter = Converter::new();
    let math_text = "Quadratic formula: x = (-b \\pm \\sqrt{b^2 - 4ac}) / 2a
Einstein: E = mc^2
Greek: \\alpha, \\beta, \\gamma, \\delta
Operators: a \\times b = c, x \\leq y, a \\neq b
Symbols: \\infty, \\sum, \\int, \\partial, \\nabla
Subscripts: H_2O, x_1, a_n
Superscripts: x^2 + y^2 = z^2";
    let result = converter.convert_text_to_tns(math_text, "");
    if let Err(e) = &result {
        println!("Error: {:?}", e);
    }
    assert!(result.is_ok());
    assert!(!result.unwrap().is_empty());
}

#[test]
fn converting_twice_gives_identical_bytes() {
    let converter = Converter::new();
    let a = converter.convert_lua_to_tns("print(1)", "").unwrap();
    let b = converter.convert_lua_to_tns("print(1)", "").unwrap();
    assert_eq!(a, b);
}

#[test]
fn long_python_filename_is_invalid_input() {
    let converter = Converter::new();
    let name = format!("{}.py", "a".repeat(238));
    let result = converter.convert_python_to_tns("print(1)", &name, "");
    assert!(matches!(result, Err(ConversionError::InvalidInput(_))));
    let ok_name = format!("{}.py", "a".repeat(237));
    assert!(converter.convert_python_to_tns("print(1)", &ok_name, "").is_ok());
}

#[test]
fn python_archive_has_three_entries() {
    let converter = Converter::new();
    let bytes = converter.convert_python_to_tns("print(1)", "s.py", "").unwrap();
    let n = bytes.len();
    assert_eq!(&bytes[n - 22..n - 18], b"TIPD");
    assert_eq!(&bytes[n - 14..n - 12], &[3, 0]);
    assert_eq!(&bytes[n - 12..n - 10], &[3, 0]);
}

#[test]
fn lua_archive_has_two_entries_with_document_first() {
    let converter = Converter::new();
    let bytes = converter.convert_lua_to_tns("print(1)", "").unwrap();
    let n = bytes.len();
    assert_eq!(&bytes[n - 14..n - 12], &[2, 0]);
    assert_eq!(&bytes[36..48], b"Document.xml");
}

#[test]
fn extraction_is_refused() {
    let converter = Converter::new();
    assert!(matches!(
        converter.extract_from_tns(b"*TIMLP"),
        Err(ConversionError::InvalidInput(_))
    ));
}

#[test]
fn text_conversion_is_lua_conversion_of_its_script() {
    let converter = Converter::new();
    let text = "E = mc^2";
    let a = converter.convert_text_to_tns(text, "").unwrap();
    let b = converter.convert_lua_to_tns(&text_to_lua_script(text), "").unwrap();
    assert_eq!(a, b);
}
