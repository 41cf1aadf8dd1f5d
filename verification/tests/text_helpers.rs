use code_upload::text::{decode_text, push_decimal, same_text};

fn decimal(n: u16) -> String {
    let mut out = String::new();
    push_decimal(&mut out, n);
    out
}

#[test]
fn same_text_of_equal_strings() {
    assert!(same_text("", ""));
    assert!(same_text("js", "js"));
    assert!(same_text("h\u{e9}llo", "h\u{e9}llo"));
}

#[test]
fn same_text_of_different_strings() {
    assert!(!same_text("js", "jS"));
    assert!(!same_text("js", "jsx"));
    assert!(!same_text("jsx", "js"));
    assert!(!same_text("", "a"));
    assert!(!same_text("e\u{301}", "\u{e9}"));
}

#[test]
fn decimal_of_small_numbers() {
    assert_eq!(decimal(0), "0");
    assert_eq!(decimal(7), "7");
    assert_eq!(decimal(9), "9");
    assert_eq!(decimal(10), "10");
}

#[test]
fn decimal_of_ports() {
    assert_eq!(decimal(80), "80");
    assert_eq!(decimal(443), "443");
    assert_eq!(decimal(8080), "8080");
    assert_eq!(decimal(21025), "21025");
    assert_eq!(decimal(65535), "65535");
    assert_eq!(decimal(10000), "10000");
}

#[test]
fn decimal_agrees_with_std_for_every_number() {
    let mut n: u16 = 0;
    loop {
        assert_eq!(decimal(n), n.to_string());
        if n == u16::MAX {
            break;
        }
        n += 1;
    }
}

#[test]
fn push_decimal_appends() {
    let mut out = String::from("port ");
    push_decimal(&mut out, 443);
    assert_eq!(out, "port 443");
}

#[test]
fn decode_text_of_valid_utf8() {
    assert_eq!(decode_text(b""), Some(String::new()));
    assert_eq!(decode_text(b"module.exports = 1;\n"), Some("module.exports = 1;\n".to_string()));
    assert_eq!(decode_text("gr\u{fc}\u{df}e \u{1F600}".as_bytes()), Some("gr\u{fc}\u{df}e \u{1F600}".to_string()));
}

#[test]
fn decode_text_keeps_a_byte_order_mark() {
    assert_eq!(decode_text(&[0xef, 0xbb, 0xbf, b'a']), Some("\u{feff}a".to_string()));
}

#[test]
fn decode_text_of_invalid_utf8() {
    assert_eq!(decode_text(&[0xff]), None);
    assert_eq!(decode_text(&[b'a', 0xc3]), None);
    assert_eq!(decode_text(&[0xed, 0xa0, 0x80]), None);
    assert_eq!(decode_text(&[0xc0, 0x80]), None);
}
