use native_processors::search::{search_in_file, search_lines, SearchMatch};
use native_processors::tokens::{estimate_tokens, is_whitespace};
use native_processors::text::{
    count, count_lines, line_range, read_file_content, read_line_range, split_lines,
    FileError,
};

fn matched(line: usize, content: &str) -> SearchMatch {
    SearchMatch { line, content: content.to_string() }
}

#[test]
fn count_matching_bytes() {
    assert_eq!(count(b"a\nb\n\n", b'\n'), 3);
    assert_eq!(count(b"", b'x'), 0);
    assert_eq!(count(&[1, 2, 1, 1], 1), 3);
}

#[test]
fn count_lines_without_final_newline() {
    assert_eq!(count_lines(b"foo\nbar\nbaz"), 3);
}

#[test]
fn count_lines_with_final_newline() {
    assert_eq!(count_lines(b"foo\nbar\n"), 2);
    assert_eq!(count_lines(b"\n"), 1);
    assert_eq!(count_lines(b"\n\n\n"), 3);
}

#[test]
fn count_lines_empty() {
    assert_eq!(count_lines(b""), 0);
}

#[test]
fn count_lines_on_binary_bytes() {
    assert_eq!(count_lines(&[0xff, b'\n', 0xfe, 0x00]), 2);
}

#[test]
fn split_lines_keeps_inner_empty_lines() {
    assert_eq!(split_lines("a\n\nb\n"), vec!["a", "", "b"]);
    assert_eq!(split_lines(""), Vec::<&str>::new());
    assert_eq!(split_lines("\n"), vec![""]);
    assert_eq!(split_lines("é\nü"), vec!["é", "ü"]);
}

#[test]
fn read_file_content_decodes_utf8() {
    assert_eq!(read_file_content("héllo\n".as_bytes().to_vec()), Ok("héllo\n".to_string()));
}

#[test]
fn read_file_content_rejects_invalid_utf8() {
    let r = read_file_content(vec![b'a', 0xff, b'b']);
    assert!(matches!(r, Err(FileError::IoError(_))));
}

#[test]
fn line_range_single_line() {
    assert_eq!(read_line_range(b"foo\nbar\nbaz".to_vec(), 2, 2), Ok("bar".to_string()));
}

#[test]
fn line_range_clamps_end() {
    assert_eq!(read_line_range(b"foo\nbar\nbaz".to_vec(), 2, 10), Ok("bar\nbaz".to_string()));
}

#[test]
fn line_range_start_past_end_of_file() {
    assert_eq!(
        read_line_range(b"foo\nbar\nbaz".to_vec(), 4, 4),
        Err(FileError::IoError("Invalid line range".to_string()))
    );
}

#[test]
fn line_range_rejects_zero_and_reversed() {
    assert!(line_range("a\nb", 0, 1).is_err());
    assert!(line_range("a\nb", 1, 0).is_err());
    assert!(line_range("a\nb", 2, 1).is_err());
    assert!(line_range("", 1, 1).is_err());
}

#[test]
fn line_range_invalid_utf8_is_io_error() {
    assert!(matches!(read_line_range(vec![0xff], 1, 1), Err(FileError::IoError(_))));
}

#[test]
fn full_range_is_content_without_final_newline() {
    for text in ["foo\nbar\nbaz", "foo\nbar\n", "\n", "x", "a\n\nb\n\n"] {
        let data = text.as_bytes().to_vec();
        let n = count_lines(&data);
        let whole = read_file_content(data.clone()).unwrap();
        let expected = whole.strip_suffix('\n').unwrap_or(&whole).to_string();
        assert_eq!(read_line_range(data, 1, n), Ok(expected));
    }
}

#[test]
fn estimate_tokens_examples() {
    assert_eq!(estimate_tokens(""), 0);
    assert_eq!(estimate_tokens("a b c d"), 1);
    assert_eq!(estimate_tokens("Hello, world!"), 3);
    assert_eq!(estimate_tokens("héllo wörld"), 2);
}

#[test]
fn estimate_tokens_grows_with_text() {
    let text = "the quick brown fox jumps over the lazy dog";
    let mut last = 0;
    for end in 0..=text.len() {
        let e = estimate_tokens(&text[..end]);
        assert!(e >= last);
        last = e;
    }
    assert_eq!(last, 10);
}

#[test]
fn search_finds_matching_lines_in_order() {
    let r = search_lines("foo\nbar\nfoo bar\n", "foo");
    assert_eq!(r, Ok(vec![matched(1, "foo"), matched(3, "foo bar")]));
}

#[test]
fn search_uses_regex_syntax() {
    let r = search_lines("a1\nb\nc22", r"\d+$");
    assert_eq!(r, Ok(vec![matched(1, "a1"), matched(3, "c22")]));
    let r = search_lines("Foo\nfoo", "foo");
    assert_eq!(r, Ok(vec![matched(2, "foo")]));
}

#[test]
fn search_without_match_is_empty() {
    assert_eq!(search_lines("foo\nbar", "zzz"), Ok(vec![]));
    assert_eq!(search_in_file(b"foo\nbar".to_vec(), "zzz"), Ok(vec![]));
}

#[test]
fn search_bad_pattern_is_regex_error() {
    assert!(matches!(search_lines("foo", "("), Err(FileError::RegexError(_))));
}

#[test]
fn search_invalid_utf8_is_io_error_first() {
    assert!(matches!(search_in_file(vec![0xff], "("), Err(FileError::IoError(_))));
}

#[test]
fn file_error_messages() {
    assert_eq!(FileError::IoError("x".to_string()).message(), "IO error: x");
    assert_eq!(FileError::MmapError("y".to_string()).message(), "Mmap error: y");
    assert_eq!(FileError::RegexError("z".to_string()).message(), "Regex error: z");
}

#[test]
fn whitespace_agrees_with_std() {
    for code in 0u32..0x3100 {
        if let Some(c) = char::from_u32(code) {
            assert_eq!(is_whitespace(c), c.is_whitespace(), "U+{:04X}", code);
        }
    }
    assert_eq!(estimate_tokens("a\u{3000}b c\u{a0}d"), 1);
}

#[test]
fn decode_and_regex_error_messages() {
    match read_line_range(vec![b'a', 0xff], 1, 1) {
        Err(FileError::IoError(m)) => assert!(m.starts_with("Invalid UTF-8: ")),
        other => panic!("unexpected {:?}", other),
    }
    match search_lines("foo", "[a-") {
        Err(FileError::RegexError(m)) => assert!(m.starts_with("Invalid regex: ")),
        other => panic!("unexpected {:?}", other),
    }
}
