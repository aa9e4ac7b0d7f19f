//! The library's string handling compared with what the standard library
//! does on the same inputs.

use std::path::Path;
use yasr::encode::{container_for, is_whitespace, parse_encoders};
use yasr::classify;
use yasr::LogLevel;

fn std_container(output: &str) -> &'static str {
    let ext = Path::new(output).extension().and_then(|e| e.to_str()).unwrap_or("webm");
    if ext == "webm" {
        "webm"
    } else {
        "mp4"
    }
}

#[test]
fn container_matches_path_extension() {
    let cases = [
        "", ".", "..", "/", "//", "./", "../", "a", "a.", ".a", "..a", "a..", "a.b", "a.b.c",
        "out.webm", "out.mp4", "dir/out.webm", "dir/out", "dir.webm/out", "dir/.webm",
        "dir/..", "dir/../", "dir/.", "dir/./", "out.webm/", "out.webm//./", "/abs/x.mkv",
        "x.webm.mp4", "x.mp4.webm", "...", "a/...", "./x.webm", ".../y", "a/b/", "é.webm",
        "tab\t.mp4", "x.WebM",
    ];
    for c in cases {
        assert_eq!(container_for(c), std_container(c), "input {:?}", c);
    }
}

#[test]
fn whitespace_matches_char_is_whitespace() {
    for u in 0u32..=0x10ffff {
        if let Some(c) = char::from_u32(u) {
            assert_eq!(is_whitespace(c), c.is_whitespace(), "char {:?}", c);
        }
    }
}

fn std_encoders(text: &str) -> Vec<String> {
    text.lines()
        .filter(|l| l.starts_with(" V"))
        .filter_map(|l| l.split_whitespace().nth(1))
        .map(String::from)
        .collect()
}

// On text without a rule line (no legend to skip) the encoder list is what
// the plain iterator chain over all lines gives.
#[test]
fn encoder_parsing_matches_iterator_chain() {
    let cases = [
        "",
        "\n",
        "\r\n",
        " V a b\n",
        " V a b",
        " V a b\r",
        " V a b\r\r\n V c d\n\n V e f",
        " V\r\n V x\n V  x  y  z",
        "V a b\n  V c d\n V\te\tf\n",
        " Va b c\n A a b\n V....D libsvtav1 SVT-AV1\n",
        " V x\u{2028}y z\n V \u{85}p q",
        "\r",
        " V a b\n\r\n V c d\r",
    ];
    for c in cases {
        assert_eq!(parse_encoders(c), std_encoders(c), "input {:?}", c);
    }
}

fn std_classify(text: &str) -> LogLevel {
    let lower = text.to_lowercase();
    if lower.contains("error") {
        LogLevel::Error
    } else if lower.contains("warning") {
        LogLevel::Warning
    } else {
        LogLevel::Info
    }
}

#[test]
fn classify_matches_lowercase_search() {
    for c in ["ERROR", "Warning", "WARNİNG", "errors and warnings", "info", "", "ErRoR", "wArNiNg x"] {
        assert_eq!(classify(c), std_classify(c), "input {:?}", c);
    }
}
