use things_sak::text::{trim, trim_end};
use things_sak::applescript::{opt, parse_records, quote, tell_things, FIELD_SEP, RECORD_SEP, SEP_PREAMBLE};

#[test]
fn quote_escapes_quotes_and_backslashes() {
    assert_eq!(quote("plain"), "\"plain\"");
    assert_eq!(quote(r#"say "hi""#), r#""say \"hi\"""#);
    assert_eq!(quote(r"a\b"), r#""a\\b""#);
    // Injection attempt: quotes cannot break out of the string literal.
    assert_eq!(
        quote(r#"" & (do shell script "true") & ""#),
        r#""\" & (do shell script \"true\") & \"""#
    );
}

#[test]
fn parse_records_splits_fields_and_records() {
    let output = format!(
        "id1{f}name one{f}open{r}id2{f}name\ntwo{f}completed{r}",
        f = FIELD_SEP,
        r = RECORD_SEP
    );
    let records = parse_records(&output);
    assert_eq!(records.len(), 2);
    assert_eq!(records[0], vec!["id1", "name one", "open"]);
    // Newlines inside fields survive.
    assert_eq!(records[1][1], "name\ntwo");
}

#[test]
fn parse_records_handles_empty_output() {
    assert!(parse_records("").is_empty());
    assert!(parse_records("\n").is_empty());
}

#[test]
fn tell_things_wraps_body() {
    assert_eq!(tell_things("return 1"), "tell application \"Things3\"\nreturn 1\nend tell");
}

#[test]
fn quote_handles_empty_and_unicode() {
    assert_eq!(quote(""), "\"\"");
    assert_eq!(quote("Café \\ \"ü\""), "\"Café \\\\ \\\"ü\\\"\"");
}

/// Reads an AppleScript string literal the way AppleScript does.
fn read_literal(t: &str) -> Option<(String, usize)> {
    let chars: Vec<char> = t.chars().collect();
    if chars.first() != Some(&'"') {
        return None;
    }
    let mut value = String::new();
    let mut i = 1;
    while i < chars.len() {
        match chars[i] {
            '"' => return Some((value, i + 1)),
            '\\' if i + 1 < chars.len() => {
                value.push(chars[i + 1]);
                i += 2;
            }
            '\\' => return None,
            c => {
                value.push(c);
                i += 1;
            }
        }
    }
    None
}

#[test]
fn quoted_literal_reads_back_whole() {
    for s in ["plain", "", "\"", "\\", "a\\\"b", "\" & (do shell script \"rm\") & \"", "x\\"] {
        let q = quote(s);
        let script = format!("{q} & \"tail\"");
        assert_eq!(read_literal(&script), Some((s.to_string(), q.chars().count())));
    }
}

#[test]
fn records_round_trip_through_the_format() {
    let records = vec![
        vec!["id1", "Buy milk", "open", "line one\nline two\ttabbed", "", "errand", "", "Home"],
        vec!["id2", "x"],
        vec!["single"],
    ];
    let mut output = String::new();
    for r in &records {
        output.push_str(&r.join(&FIELD_SEP.to_string()));
        output.push(RECORD_SEP);
    }
    let parsed = parse_records(&output);
    assert_eq!(parsed, records);
}

#[test]
fn parse_records_trims_newlines_and_drops_empty_records() {
    let output = format!("\r\na{f}b\n{r}\n{r}{r}c", f = FIELD_SEP, r = RECORD_SEP);
    let parsed = parse_records(&output);
    assert_eq!(parsed, vec![vec!["a", "b"], vec!["c"]]);
}

#[test]
fn parse_records_keeps_empty_fields() {
    let output = format!("{f}x{f}{r}", f = FIELD_SEP, r = RECORD_SEP);
    assert_eq!(parse_records(&output), vec![vec!["", "x", ""]]);
}

#[test]
fn opt_maps_empty_to_none() {
    assert_eq!(opt(""), None);
    assert_eq!(opt("x"), Some("x".to_string()));
}

#[test]
fn separators_are_control_characters() {
    assert_eq!(FIELD_SEP as u32, 31);
    assert_eq!(RECORD_SEP as u32, 30);
    assert_eq!(SEP_PREAMBLE, "set fs to character id 31\nset rs to character id 30");
}

#[test]
fn trimming_uses_unicode_whitespace() {
    assert_eq!(trim_end("id1 \n\t\u{3000}"), "id1");
    assert_eq!(trim_end("  x  y \r\n"), "  x  y");
    assert_eq!(trim("\u{A0} error: boom \n"), "error: boom");
    assert_eq!(trim("\u{200B}x"), "\u{200B}x");
    assert_eq!(trim(""), "");
    assert_eq!(trim(" \n "), "");
    for s in ["a\u{85}", "\u{2028}b\u{2029}", "\u{1680}\u{202F}c\u{205F}", "\u{2000}\u{200A}d\u{0B}\u{0C}"] {
        assert_eq!(trim(s), s.trim());
        assert_eq!(trim_end(s), s.trim_end());
    }
}
