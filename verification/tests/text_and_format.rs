use mini_pi::chat_app::export_html_file_name;
use mini_pi::file_size::format_file_size;
use mini_pi::text::{
    parse_u64, sanitize_prompt_filename, text_contains, text_ends_with, text_starts_with,
    to_single_line, trim_whitespace,
};

fn float_reference(size: u64) -> String {
    if size < 1024 {
        format!("{} B", size)
    } else if size < 1024 * 1024 {
        format!("{:.1} KB", size as f64 / 1024.0)
    } else if size < 1024 * 1024 * 1024 {
        format!("{:.1} MB", size as f64 / (1024.0 * 1024.0))
    } else {
        format!("{:.1} GB", size as f64 / (1024.0 * 1024.0 * 1024.0))
    }
}

#[test]
fn file_size_exact_values() {
    assert_eq!(format_file_size(0), "0 B");
    assert_eq!(format_file_size(1023), "1023 B");
    assert_eq!(format_file_size(1024), "1.0 KB");
    assert_eq!(format_file_size(1536), "1.5 KB");
    assert_eq!(format_file_size(1024 * 1024), "1.0 MB");
    assert_eq!(format_file_size(5 * 1024 * 1024 * 1024), "5.0 GB");
}

#[test]
fn file_size_ties_round_to_even() {
    // 1.25 KB and 1.75 KB are exact binary fractions: the tie goes to the
    // even digit, as float formatting does.
    assert_eq!(format_file_size(1280), "1.2 KB");
    assert_eq!(format_file_size(1792), "1.8 KB");
    assert_eq!(format_file_size(1280), float_reference(1280));
}

#[test]
fn file_size_matches_float_formatting_small() {
    for size in 0u64..20_000 {
        assert_eq!(format_file_size(size), float_reference(size), "size {}", size);
    }
}

#[test]
fn file_size_matches_float_formatting_large() {
    let mut samples: Vec<u64> = Vec::new();
    for k in 0u32..64 {
        let p = 1u64 << k;
        samples.push(p);
        samples.push(p.wrapping_sub(1));
        samples.push(p.wrapping_add(1));
        samples.push(p.wrapping_mul(3) / 2);
    }
    let mut x: u64 = 0x9E37_79B9_7F4A_7C15;
    for _ in 0..20_000 {
        x ^= x << 13;
        x ^= x >> 7;
        x ^= x << 17;
        samples.push(x);
        samples.push(x >> 20);
        samples.push(x >> 35);
    }
    samples.push(u64::MAX);
    samples.push((1u64 << 53) + 1);
    for size in samples {
        assert_eq!(format_file_size(size), float_reference(size), "size {}", size);
    }
}

#[test]
fn single_line_collapses_whitespace() {
    assert_eq!(to_single_line("  hello \n\t world  "), "hello world");
    assert_eq!(to_single_line(""), "");
    assert_eq!(to_single_line(" \n "), "");
    assert_eq!(to_single_line("a\u{3000}b"), "a b");
}

#[test]
fn trim_matches_std() {
    for s in ["  x  ", "\n\tab c\u{2003}", "", "   "] {
        assert_eq!(trim_whitespace(s), s.trim());
    }
}

#[test]
fn prompt_filename_sanitized() {
    assert_eq!(sanitize_prompt_filename("My Prompt_name!"), "My-Prompt-name");
    assert_eq!(sanitize_prompt_filename("  --a  -- b--  "), "a-b");
    assert_eq!(sanitize_prompt_filename("!!!"), "prompt");
    assert_eq!(sanitize_prompt_filename(""), "prompt");
    assert_eq!(sanitize_prompt_filename("Café au lait"), "Café-au-lait");
    assert_eq!(sanitize_prompt_filename("a\u{3000}b\u{a0}c"), "a-b-c");
}

#[test]
fn parse_u64_like_std() {
    for s in ["0", "42", "+7", "18446744073709551615", "18446744073709551616", "", "+", "-1", "1a", " 1"] {
        assert_eq!(parse_u64(s), s.parse::<u64>().ok(), "{:?}", s);
    }
}

#[test]
fn prefix_suffix_and_infix() {
    assert!(text_starts_with("application/json; charset=utf-8", "application/json"));
    assert!(!text_starts_with("text/json", "application/json"));
    assert!(text_ends_with("archive.zip", ".zip"));
    assert!(!text_ends_with("zip", ".zip"));
    assert!(text_contains("application/x-zip-compressed", "zip"));
    assert!(text_contains("anything", ""));
    assert!(!text_contains("application/gzip-ish", "zipx"));
}

#[test]
fn export_file_name_replaces_last_extension() {
    assert_eq!(export_html_file_name("session_17.jsonl"), "session_17.html");
    assert_eq!(export_html_file_name("a.b.c"), "a.b.html");
    assert_eq!(export_html_file_name("noext"), "session.html");
    assert_eq!(export_html_file_name(".hidden"), ".html");
}

#[test]
fn whitespace_is_exactly_the_white_space_property() {
    for u in 0u32..=0x10ffff {
        if let Some(c) = char::from_u32(u) {
            let text = c.to_string();
            assert_eq!(trim_whitespace(&text).is_empty(), c.is_whitespace(), "U+{:04X}", u);
        }
    }
}
