use scanner_rust::{OwnedBytes, Scanner, ScannerStr, ScannerAscii, ScannerError, ScannerU8Slice, ScannerU8SliceAscii};

fn collect_chars(data: &[u8], capacity: usize) -> String {
    let mut sc = Scanner::with_capacity(data, capacity);
    let mut out = String::new();
    while let Some(c) = sc.next_char().unwrap() {
        out.push(c);
    }
    out
}

#[test]
fn chars_reencode_with_replacements() {
    let data: &[u8] = &[0x41, 0xE4, 0xB8, 0xAD, 0xFF, 0xC3, 0x28, 0xE4, 0xB8];
    for capacity in [4, 5, 7, 64] {
        assert_eq!("A中\u{FFFD}\u{FFFD}(\u{FFFD}\u{FFFD}", collect_chars(data, capacity));
    }
}

#[test]
fn chars_reencode_valid_input_exactly() {
    let text = "Hello, 123 中文好難。寝る 😀 é\u{3000}x";
    for capacity in [4, 5, 13, 64] {
        let s = collect_chars(text.as_bytes(), capacity);
        assert_eq!(text.as_bytes(), s.as_bytes());
    }
}

#[test]
fn overlong_and_surrogate_bytes_are_replaced() {
    // C0 80 is an overlong NUL; ED A0 80 is a surrogate; F4 90 80 80 is past U+10FFFF
    let data: &[u8] = &[0xC0, 0x80, 0xED, 0xA0, 0x80, 0xF4, 0x90, 0x80, 0x80, b'z'];
    let s = collect_chars(data, 4);
    assert_eq!(9, s.chars().filter(|c| *c == '\u{FFFD}').count());
    assert!(s.ends_with('z'));
}

#[test]
fn lines_agree_across_capacities() {
    let data = "A\r\nB\n\nC";
    for capacity in [4, 5, 13, 64] {
        let mut sc = Scanner::with_capacity(data.as_bytes(), capacity);
        assert_eq!(Some("A".to_string()), sc.next_line().unwrap());
        assert_eq!(Some("B".to_string()), sc.next_line().unwrap());
        assert_eq!(Some("".to_string()), sc.next_line().unwrap());
        assert_eq!(Some("C".to_string()), sc.next_line().unwrap());
        assert_eq!(None, sc.next_line().unwrap());

        let mut sc = ScannerAscii::new2(data.as_bytes(), capacity);
        assert_eq!(Some("A".to_string()), sc.next_line().unwrap());
        assert_eq!(Some("B".to_string()), sc.next_line().unwrap());
        assert_eq!(Some("".to_string()), sc.next_line().unwrap());
        assert_eq!(Some("C".to_string()), sc.next_line().unwrap());
        assert_eq!(None, sc.next_line().unwrap());
    }
    let mut sc = ScannerU8SliceAscii::new(data.as_bytes());
    assert_eq!(Some("A".as_bytes()), sc.next_line().unwrap());
    assert_eq!(Some("B".as_bytes()), sc.next_line().unwrap());
    assert_eq!(Some("".as_bytes()), sc.next_line().unwrap());
    assert_eq!(Some("C".as_bytes()), sc.next_line().unwrap());
    assert_eq!(None, sc.next_line().unwrap());
}

#[test]
fn terminator_pair_split_by_refill_is_one_boundary() {
    for data in ["abc\r\nd", "abc\n\rd"] {
        for capacity in [4, 5] {
            let mut sc = Scanner::with_capacity(data.as_bytes(), capacity);
            assert_eq!(Some("abc".to_string()), sc.next_line().unwrap());
            assert_eq!(Some("d".to_string()), sc.next_line().unwrap());
            assert_eq!(None, sc.next_line().unwrap());

            let mut sc = ScannerAscii::new2(data.as_bytes(), capacity);
            assert_eq!(Some("abc".to_string()), sc.next_line().unwrap());
            assert_eq!(Some('d'), sc.next_char().unwrap());
            assert_eq!(None, sc.next_line().unwrap());
        }
    }
    // a lone terminator at a refill is still one line end
    let mut sc = ScannerAscii::new2("abc\rxy".as_bytes(), 4);
    assert_eq!(Some("abc".to_string()), sc.next_line().unwrap());
    assert_eq!(Some("xy".to_string()), sc.next_line().unwrap());
    // two equal terminators are two line ends
    let mut sc = ScannerAscii::new2("abc\r\rxy".as_bytes(), 4);
    assert_eq!(Some("abc".to_string()), sc.next_line().unwrap());
    assert_eq!(Some("".to_string()), sc.next_line().unwrap());
    assert_eq!(Some("xy".to_string()), sc.next_line().unwrap());
}

#[test]
fn tokens_skip_unicode_whitespace() {
    let data = "123 456\r\n789 \n\n  text ";
    let mut sc = Scanner::new(data.as_bytes());
    assert_eq!(Some("123".to_string()), sc.next().unwrap());
    assert_eq!(Some("456".to_string()), sc.next().unwrap());
    assert_eq!(Some("789".to_string()), sc.next().unwrap());
    assert_eq!(Some("text".to_string()), sc.next().unwrap());
    assert_eq!(None, sc.next().unwrap());

    let data = "a\u{3000}b\u{2028}\u{1680}c\u{00A0}d e\u{202F}f";
    for capacity in [4, 5, 64] {
        let mut sc = Scanner::with_capacity(data.as_bytes(), capacity);
        assert_eq!(Some("a".to_string()), sc.next().unwrap());
        assert_eq!(Some("b".to_string()), sc.next().unwrap());
        assert_eq!(Some("c\u{00A0}d".to_string()), sc.next().unwrap());
        assert_eq!(Some("e".to_string()), sc.next().unwrap());
        assert_eq!(Some("f".to_string()), sc.next().unwrap());
        assert_eq!(None, sc.next().unwrap());
    }
    let mut sc = ScannerU8Slice::new(data.as_bytes());
    assert_eq!(Some("a".as_bytes()), sc.next().unwrap());
    assert_eq!(Some("b".as_bytes()), sc.next().unwrap());
    assert_eq!(Some("c\u{00A0}d".as_bytes()), sc.next().unwrap());
    // the single-byte scanner does not split on three-byte spaces
    let mut sc = ScannerAscii::new("x\u{3000}y z".as_bytes());
    assert_eq!(Some("x\u{FFFD}\u{FFFD}\u{FFFD}y".to_string()), sc.next().unwrap());
    assert_eq!(Some("z".to_string()), sc.next().unwrap());
}

#[test]
fn next_until_then_next() {
    let mut sc = Scanner::new("abc def".as_bytes());
    assert_eq!(Some("abc".to_string()), sc.next_until(" ").unwrap());
    assert_eq!(Some("def".to_string()), sc.next().unwrap());
    assert_eq!(None, sc.next().unwrap());

    let mut sc = ScannerAscii::new("abc def".as_bytes());
    assert_eq!(Some("abc".to_string()), sc.next_until(" ").unwrap());
    assert_eq!(Some("def".to_string()), sc.next().unwrap());

    let mut sc = ScannerU8SliceAscii::new("abc def".as_bytes());
    assert_eq!(Some("abc".as_bytes()), sc.next_until(b" ").unwrap());
    assert_eq!(Some("def".as_bytes()), sc.next().unwrap());

    let mut sc = ScannerU8Slice::new("abc def".as_bytes());
    assert_eq!(Some("abc".as_bytes()), sc.next_until(b" ").unwrap());
    assert_eq!(Some("def".as_bytes()), sc.next().unwrap());
}

#[test]
fn next_until_finds_first_occurrence_across_refills() {
    // a failed partial match ("aa" before "aab") must not hide the real one
    for capacity in [4, 5, 64] {
        let mut sc = Scanner::with_capacity("xaaaby".as_bytes(), capacity);
        assert_eq!(Some(b"xa".to_vec()), sc.next_until_raw(b"aab").unwrap());
        assert_eq!(Some(b"y".to_vec()), sc.next_until_raw(b"aab").unwrap());
        assert_eq!(None, sc.next_until_raw(b"aab").unwrap());
    }
    let mut sc = ScannerU8SliceAscii::new("xaaaby".as_bytes());
    assert_eq!(Some("xa".as_bytes()), sc.next_until(b"aab").unwrap());
    let mut sc = ScannerAscii::new2("12--34--".as_bytes(), 4);
    assert_eq!(Some(2), sc.drop_next_until(b"--").unwrap());
    assert_eq!(Some(34), sc.next_u8_until(b"--").unwrap());
    assert_eq!(None, sc.next_u8_until(b"--").unwrap());
    // an empty boundary on an in-memory scanner reads everything
    let mut sc = ScannerU8Slice::new("a b".as_bytes());
    assert_eq!(Some("a b".as_bytes()), sc.next_until(b"").unwrap());
}

#[test]
fn skip_whitespaces_twice_at_end() {
    let mut sc = Scanner::new("ab  ".as_bytes());
    assert_eq!(Some("ab".to_string()), sc.next().unwrap());
    assert!(sc.skip_whitespaces().unwrap());
    assert!(!sc.skip_whitespaces().unwrap());
    assert!(!sc.skip_whitespaces().unwrap());
    assert_eq!(None, sc.next_char().unwrap());

    let mut sc = ScannerAscii::new("x".as_bytes());
    assert!(sc.skip_whitespaces().unwrap());
    assert!(sc.skip_whitespaces().unwrap());
    assert_eq!(Some('x'), sc.next_char().unwrap());
    assert!(!sc.skip_whitespaces().unwrap());
    assert!(!sc.skip_whitespaces().unwrap());

    let mut sc = ScannerU8SliceAscii::new("".as_bytes());
    assert!(!sc.skip_whitespaces().unwrap());
    assert!(!sc.skip_whitespaces().unwrap());
}

#[test]
fn numbers_and_parse_failures() {
    let mut sc = Scanner::new("255 -123".as_bytes());
    assert_eq!(Some(255), sc.next_u8().unwrap());
    assert_eq!(Some(-123), sc.next_i64().unwrap());
    assert_eq!(None, sc.next_i64().unwrap());

    let mut sc = Scanner::new("abc 7 256 +9 -0 -".as_bytes());
    assert!(matches!(sc.next_u8(), Err(ScannerError::ParseIntError(_))));
    assert_eq!(Some(7), sc.next_u8().unwrap());
    assert!(matches!(sc.next_u8(), Err(ScannerError::ParseIntError(_))));
    assert_eq!(Some(9), sc.next_u32().unwrap());
    assert!(matches!(sc.next_u16(), Err(ScannerError::ParseIntError(_))));
    assert!(matches!(sc.next_i8(), Err(ScannerError::ParseIntError(_))));
    assert_eq!(None, sc.next_i8().unwrap());

    let mut sc = ScannerU8SliceAscii::new("-0 12x".as_bytes());
    assert_eq!(Some(0), sc.next_i32().unwrap());
    assert!(matches!(sc.next_usize(), Err(ScannerError::ParseIntError(_))));
    assert_eq!(None, sc.next_usize().unwrap());

    let mut sc = ScannerU8Slice::new("中 -42".as_bytes());
    assert!(matches!(sc.next_isize(), Err(ScannerError::ParseIntError(_))));
    assert_eq!(Some(-42), sc.next_i128().unwrap());

    let mut sc = Scanner::new("18446744073709551615,-1,".as_bytes());
    assert_eq!(Some(u64::MAX), sc.next_u64_until(b",").unwrap());
    assert_eq!(Some(-1), sc.next_i16_until(b",").unwrap());
    assert_eq!(None, sc.next_i16_until(b",").unwrap());
}

#[test]
fn bytes_and_counts() {
    let mut sc = Scanner::with_capacity("abcdefghij".as_bytes(), 4);
    assert_eq!(Some(Vec::new()), sc.next_bytes(0).unwrap());
    assert_eq!(Some(b"abcdef".to_vec()), sc.next_bytes(6).unwrap());
    assert_eq!(Some(2), sc.drop_next_bytes(2).unwrap());
    assert_eq!(Some(b"ij".to_vec()), sc.next_bytes(10).unwrap());
    assert_eq!(None, sc.next_bytes(1).unwrap());
    assert_eq!(None, sc.drop_next_bytes(1).unwrap());

    let mut sc = ScannerAscii::new("one two\nthree".as_bytes());
    assert_eq!(Some(3), sc.drop_next().unwrap());
    assert_eq!(Some(4), sc.drop_next_line().unwrap());
    assert_eq!(Some(b"three".to_vec()), sc.next_line_raw().unwrap());
    assert_eq!(None, sc.drop_next_line().unwrap());

    let mut sc = ScannerU8SliceAscii::new("abcdef".as_bytes());
    assert_eq!(Some("abcd".as_bytes()), sc.next_bytes(4).unwrap());
    assert_eq!(Some(2), sc.drop_next_bytes(9).unwrap());
    assert_eq!(None, sc.drop_next_bytes(9).unwrap());
}

#[test]
fn empty_input_gives_nothing() {
    let mut sc = Scanner::new("".as_bytes());
    assert_eq!(None, sc.next_char().unwrap());
    assert_eq!(None, sc.next_line().unwrap());
    assert_eq!(None, sc.next().unwrap());
    assert_eq!(None, sc.drop_next().unwrap());
    assert_eq!(None, sc.next_until("x").unwrap());
    assert_eq!(None, sc.next_u8().unwrap());
    assert!(!sc.skip_whitespaces().unwrap());

    let mut sc = ScannerAscii::new(" \t\n ".as_bytes());
    assert_eq!(None, sc.next_raw().unwrap());
    assert_eq!(None, sc.next_char().unwrap());
}

#[test]
fn peek_and_remains_do_not_consume() {
    let mut sc = Scanner::with_capacity("hello world".as_bytes(), 8);
    assert_eq!(b"hello wo", sc.peek(true).unwrap());
    assert_eq!(b"hello wo", sc.get_remains());
    assert_eq!(Some("hello".to_string()), sc.next().unwrap());
    assert_eq!(b" wo", sc.get_remains());
    assert_eq!(b" world", sc.peek(true).unwrap());
    sc.remove_heading_bytes_from_buffer(1);
    assert_eq!(Some("world".to_string()), sc.next_line().unwrap());

    let mut sc = ScannerAscii::new2("ab\rcd".as_bytes(), 4);
    assert_eq!(b"ab\rc", sc.peek(false).unwrap());
    assert_eq!(Some("ab".to_string()), sc.next_line().unwrap());
    assert_eq!(b"cd", sc.peek(true).unwrap());

    let sc = Scanner::scan_slice("xyz".as_bytes());
    assert_eq!(b"", sc.get_remains());
    let mut sc = Scanner::scan_stream("q r".as_bytes());
    assert_eq!(Some("q".to_string()), sc.next().unwrap());
    assert_eq!(Some(b"r".to_vec()), sc.next_raw().unwrap());
}

#[test]
fn classification_tables() {
    for c in 0u8..=255 {
        let expected = (9..=13).contains(&c) || (28..=32).contains(&c);
        assert_eq!(expected, scanner_rust::is_whitespace_1(c));
    }
    assert!(scanner_rust::is_whitespace_3(0xE3, 0x80, 0x80));
    assert!(scanner_rust::is_whitespace_3(0xE2, 0x80, 0x8A));
    assert!(scanner_rust::is_whitespace_3(0xE2, 0x80, 0xAF));
    assert!(!scanner_rust::is_whitespace_3(0xE2, 0x80, 0x8B));
    assert!(!scanner_rust::is_whitespace_3(0xE4, 0xB8, 0xAD));
}

#[test]
fn owned_bytes_source() {
    let mut sc = Scanner::with_capacity(OwnedBytes::new(b"12 ab\ncd".to_vec()), 4);
    assert_eq!(Some(12), sc.next_u8().unwrap());
    assert_eq!(Some("ab".to_string()), sc.next().unwrap());
    assert_eq!(Some("".to_string()), sc.next_line().unwrap());
    assert_eq!(Some("cd".to_string()), sc.next_line().unwrap());
    assert_eq!(None, sc.next_line().unwrap());
}

#[test]
fn str_scanner_reads_borrowed_text() {
    let text = "5 12 中文\u{3000}x\r\n\nlast";
    let mut sc = ScannerStr::new(text);
    assert_eq!(Some(5), sc.next_u8().unwrap());
    assert_eq!(Some(' '), sc.next_char().unwrap());
    assert_eq!(Some(12), sc.next_i32().unwrap());
    assert_eq!(Some("中文"), sc.next().unwrap());
    assert_eq!(Some('\u{3000}'), sc.next_char().unwrap());
    assert_eq!(Some("x"), sc.next_line().unwrap());
    assert_eq!(Some(""), sc.next_line().unwrap());
    assert!(sc.skip_whitespaces().unwrap());
    assert_eq!(Some("la"), sc.next_until("st").unwrap());
    assert_eq!(None, sc.next_line().unwrap());
    assert!(!sc.skip_whitespaces().unwrap());

    let mut sc = ScannerStr::new("7::-8::x::");
    assert_eq!(Some(7), sc.next_u64_until("::").unwrap());
    assert_eq!(Some(-8), sc.next_isize_until("::").unwrap());
    assert!(matches!(sc.next_u16_until("::"), Err(ScannerError::ParseIntError(_))));
    assert_eq!(None, sc.next_u16_until("::").unwrap());

    let mut sc = ScannerStr::new("a\n\rb");
    assert_eq!(Some("a"), sc.next_line().unwrap());
    assert_eq!(Some("b"), sc.next_line().unwrap());
    let mut sc = ScannerStr::new("ab");
    assert_eq!(Some("ab"), sc.next_until("").unwrap());
}

#[test]
fn str_scanner_counts_characters() {
    let mut sc = ScannerStr::new("中文好 ab");
    assert_eq!(Some("中文"), sc.next_str(2).unwrap());
    assert_eq!(Some(""), sc.next_str(0).unwrap());
    assert_eq!(Some("好 ab"), sc.next_str(100).unwrap());
    assert_eq!(None, sc.next_str(1).unwrap());
}

#[test]
fn compaction_keeps_whole_capacity_usable() {
    let data: Vec<u8> = (0..100u8).map(|i| b'a' + i % 26).collect();
    let mut sc = Scanner::with_capacity(data.as_slice(), 40);
    assert_eq!(Some(data[..10].to_vec()), sc.next_bytes(10).unwrap());
    // fewer than 32 bytes were left after the live range, so it moved to the front
    assert_eq!(&data[10..50], sc.peek(false).unwrap());
    assert_eq!(Some(data[10..].to_vec()), sc.next_bytes(1000).unwrap());
    assert_eq!(None, sc.next_bytes(1).unwrap());
}

#[test]
fn empty_boundary_reads_everything() {
    let mut sc = Scanner::with_capacity("ab cd".as_bytes(), 4);
    assert_eq!(Some(b"ab cd".to_vec()), sc.next_until_raw(b"").unwrap());
    assert_eq!(None, sc.drop_next_until(b"").unwrap());
    let mut sc = ScannerAscii::new("xy".as_bytes());
    assert_eq!(Some("xy".to_string()), sc.next_until("").unwrap());
    assert_eq!(None, sc.next_until("").unwrap());
    let mut sc = Scanner::new("".as_bytes());
    assert_eq!(None, sc.drop_next_until(b"").unwrap());
}

#[test]
fn ascii_heading_bytes_removed() {
    let mut sc = ScannerAscii::new2("abcdef".as_bytes(), 4);
    assert_eq!(b"abcd", sc.peek(false).unwrap());
    sc.remove_heading_bytes_from_buffer(2);
    assert_eq!(Some("cdef".to_string()), sc.next_line().unwrap());
}
