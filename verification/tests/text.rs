use node_controller::text::{
    copy_range, decimal_text, from_chars, last_segment_of, parse_i16, parse_usize, same_text,
    split_text, starts_with, to_chars,
};
use node_controller::url::Url;

fn pieces(s: &str, sep: &str) -> Vec<String> {
    split_text(s, sep).iter().map(|p| p.iter().collect()).collect()
}

fn std_pieces(s: &str, sep: &str) -> Vec<String> {
    s.split(sep).map(|p| p.to_string()).collect()
}

#[test]
fn split_agrees_with_the_standard_library() {
    let texts = [
        "",
        "a",
        "a b c",
        " a  b ",
        "GET / HTTP/1.1\r\nHost: x\r\n\r\n",
        "\r\n",
        "\r\r\n\n",
        "key: value: more",
        ": ",
        "aaa",
        "aaaa",
        "abababa",
        "/home/test?k=v&x=y",
        "héllo wörld ü",
    ];
    let separators = [" ", "\r\n", ": ", "aa", "aba", "/", "?", "&", "=", "ö"];
    for text in texts {
        for sep in separators {
            assert_eq!(pieces(text, sep), std_pieces(text, sep), "{:?} by {:?}", text, sep);
        }
    }
}

#[test]
fn split_gives_exact_pieces() {
    assert_eq!(pieces("a: b: c", ": "), vec!["a", "b", "c"]);
    assert_eq!(pieces("no separator", "\r\n"), vec!["no separator"]);
    assert_eq!(pieces("", " "), vec![""]);
    assert_eq!(pieces("x\r\n", "\r\n"), vec!["x", ""]);
}

#[test]
fn unsigned_numbers_are_read_as_the_standard_library_reads_them() {
    let texts = [
        "", "0", "7", "42", "007", "+5", "+", "-5", "-0", "+-5", "5 ", " 5", "5a", "a5", "1_000",
        "4294967295", "4294967296", "18446744073709551615", "18446744073709551616",
        "99999999999999999999999999", "0000000000000000000000000000000000012", "１２",
    ];
    for text in texts {
        assert_eq!(parse_usize(text), text.parse::<usize>().ok(), "{:?}", text);
    }
    assert_eq!(parse_usize("12"), Some(12));
    assert_eq!(parse_usize("+12"), Some(12));
    assert_eq!(parse_usize("twelve"), None);
}

#[test]
fn signed_numbers_are_read_as_the_standard_library_reads_them() {
    let texts = [
        "", "0", "-0", "+0", "200", "-200", "+404", "32767", "32768", "-32768", "-32769", "-",
        "+", "--1", "-+1", "+-1", "1-", "500 ", "0x10", "00000500", "-00000000032768", "99999",
    ];
    for text in texts {
        assert_eq!(parse_i16(text), text.parse::<i16>().ok(), "{:?}", text);
    }
    assert_eq!(parse_i16("-32768"), Some(-32768));
    assert_eq!(parse_i16("404"), Some(404));
}

#[test]
fn numbers_are_written_as_the_standard_library_writes_them() {
    for n in [0usize, 1, 9, 10, 11, 99, 100, 255, 4096, 65535, 1234567890, usize::MAX] {
        assert_eq!(decimal_text(n), n.to_string());
        assert_eq!(parse_usize(&decimal_text(n)), Some(n));
    }
    assert_eq!(decimal_text(20), "20");
}

#[test]
fn last_segment_and_prefix_agree_with_the_standard_library() {
    let paths = ["", "/", "a", "/node/get-state/node1", "/node/get-state/", "/node/get-state", "x/y/z", "//"];
    for path in paths {
        assert_eq!(last_segment_of(path, '/'), path.split('/').last().unwrap(), "{:?}", path);
        for prefix in ["", "/", "/node/get-state", "/node/get-state/node1/more", "x"] {
            assert_eq!(starts_with(path, prefix), path.starts_with(prefix), "{:?} {:?}", path, prefix);
        }
    }
    assert_eq!(last_segment_of("/node/get-state/unknown", '/'), "unknown");
}

#[test]
fn characters_convert_both_ways() {
    let text = "héllo\r\n";
    let chars = to_chars(text);
    assert_eq!(chars, text.chars().collect::<Vec<char>>());
    assert_eq!(from_chars(&chars), text);
    assert_eq!(copy_range(&chars, 1, 4), vec!['é', 'l', 'l']);
    assert!(same_text("abc", "abc"));
    assert!(!same_text("abc", "abd"));
    assert!(!same_text("abc", "ab"));
}

#[test]
fn url_without_query_has_only_parts() {
    let url = Url::parse("/".to_string());
    assert_eq!(url.parts, vec!["".to_string()]);
    assert_eq!(url.query_parameters.len(), 0);
    let url = Url::parse("/node/get-state/node1".to_string());
    assert_eq!(url.parts, vec!["node", "get-state", "node1"]);
    let url = Url::parse("no-slash".to_string());
    assert_eq!(url.parts.len(), 0);
}

#[test]
fn url_query_is_split_into_parameters() {
    let url = Url::parse("/home/test?k=v".to_string());
    assert_eq!(url.parts, vec!["home", "test"]);
    assert_eq!(url.query_parameters.len(), 1);
    assert_eq!(url.query_parameters.get("k"), Some("v".to_string()));

    let url = Url::parse("/a?x=1&y=2&x=3&broken&p=q=r&=".to_string());
    assert_eq!(url.parts, vec!["a"]);
    assert_eq!(url.query_parameters.len(), 3);
    assert_eq!(url.query_parameters.get("x"), Some("3".to_string()));
    assert_eq!(url.query_parameters.get("y"), Some("2".to_string()));
    assert_eq!(url.query_parameters.get(""), Some("".to_string()));
    assert_eq!(url.query_parameters.get("p"), None);
    assert_eq!(url.query_parameters.key_at(0), "x");

    let url = Url::parse("/a?ignored?k=v/b".to_string());
    assert_eq!(url.parts, vec!["a", "b"]);
    assert_eq!(url.query_parameters.get("k"), Some("v".to_string()));
    assert_eq!(url.query_parameters.len(), 1);
}
