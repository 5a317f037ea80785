use barf::Barfer;
use barf::CharBarferExt;
use barf::ByteBarferExt;
use barf::StringBarfExt;
use barf::Utf8Error;

#[test]
fn string_bytes_round_trip_ascii_and_multibyte() {
    for s in ["", "test", "h\u{e9}llo", "\u{65e5}\u{672c}\u{8a9e} \u{1f600}"] {
        let mut buf: Vec<u8> = Vec::new();
        ByteBarferExt::string(&mut buf, s).unwrap();
        assert_eq!(buf.as_slice(), s.as_bytes());
        assert_eq!(std::str::from_utf8(&buf).unwrap(), s);
    }
}

#[test]
fn char_appends_its_utf8_bytes() {
    let mut buf: Vec<u8> = Vec::new();
    buf.char('a').unwrap();
    assert_eq!(buf, vec![b'a']);

    let mut buf: Vec<u8> = Vec::new();
    buf.char('\u{e9}').unwrap();
    assert_eq!(buf, vec![0xc3, 0xa9]);
    let mut s = String::new();
    s.bytes(&buf).unwrap();
    assert_eq!(s, "\u{e9}");
}

#[test]
fn char_store_takes_a_string_as_characters() {
    let mut buf: Vec<char> = Vec::new();
    buf.string("test").unwrap();
    assert_eq!(buf.as_slice(), &['t', 'e', 's', 't']);
}

#[test]
fn string_store_implements_the_capability() {
    let mut buf = String::new();
    buf.single('a').unwrap();
    buf.many(vec!['b', 'c']).unwrap();
    buf.slice(&['d', '\u{e9}']).unwrap();
    assert_eq!(buf, "abcd\u{e9}");
}

#[test]
fn string_extension_appends_strings() {
    let mut buf = String::new();
    StringBarfExt::string(&mut buf, "test");
    StringBarfExt::string(&mut buf, " more");
    assert_eq!(buf, "test more");
}

#[test]
fn string_extension_validates_bytes() {
    let mut buf = String::new();
    buf.bytes(b"test").unwrap();
    assert_eq!(buf, "test");
    assert_eq!(buf.bytes(&[0xff, 0x00]), Err(Utf8Error {}));
    assert_eq!(buf, "test");
    buf.bytes(&[0xc3, 0xa9]).unwrap();
    assert_eq!(buf, "test\u{e9}");
}
