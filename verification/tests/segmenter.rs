use logscan::parser::delimiters::{detect_delimiter_type, DelimiterType, Delimiters};
use logscan::parser::parser::Parser;

fn lines(v: &[&str]) -> Vec<String> {
    v.iter().map(|s| s.to_string()).collect()
}

#[test]
fn multi_line_absorption() {
    let parser = Parser::new(
        lines(&["INFO]: start", "  at foo", "  at bar", "WARN]: next"]),
        Vec::new(),
    );
    let chunks = parser.get_chunks();
    assert_eq!(chunks.len(), 2);
    assert!(chunks[0].contains("  at foo"));
    assert!(chunks[0].contains("  at bar"));
    assert_eq!(chunks[0], "INFO]: start\n  at foo\n  at bar");
    assert_eq!(chunks[1], "WARN]: next");
}

#[test]
fn round_trip_covers_every_line() {
    let input = vec![
        "INFO]: a".to_string(),
        "trace one".to_string(),
        "ERROR]: b".to_string(),
        "WARN]: c".to_string(),
        "tail".to_string(),
    ];
    let parser = Parser::new(input.clone(), Vec::new());
    let chunks = parser.get_chunks();
    let rebuilt = chunks.join("\n");
    assert_eq!(rebuilt, input.join("\n"));
}

#[test]
fn single_line_log() {
    let parser = Parser::new(lines(&["WARN]: lonely"]), Vec::new());
    let chunks = parser.get_chunks();
    assert_eq!(chunks, vec!["WARN]: lonely".to_string()]);
}

#[test]
fn unknown_leading_lines_form_their_own_entry() {
    let parser = Parser::new(
        lines(&["no marker here", "INFO]: real start", "INFO]: second"]),
        Vec::new(),
    );
    let chunks = parser.get_chunks();
    assert_eq!(chunks.len(), 3);
    assert_eq!(chunks[0], "no marker here");
    assert_eq!(chunks[1], "INFO]: real start");
    assert_eq!(chunks[2], "INFO]: second");
}

#[test]
fn custom_markers_classify_lines() {
    let parser = Parser::new(
        lines(&["CHAT]: hello there", "CHAT]: bye"]),
        lines(&["CHAT"]),
    );
    let chunks = parser.get_chunks();
    assert_eq!(chunks.len(), 2);
    assert_eq!(chunks[0], "CHAT]: hello there");
}

#[test]
fn html_renders_one_span_per_entry() {
    let parser = Parser::new(
        lines(&["INFO]: start", "  at foo", "WARN]: next"]),
        Vec::new(),
    );
    let html = parser.html();
    assert_eq!(html.len(), 2);
    assert_eq!(
        html[0],
        "<span class=\"p\" id=\"L1\"><span class=i>INFO]:</span> start\n  at foo</span>"
    );
    assert_eq!(
        html[1],
        "<span class=\"p\" id=\"L2\"><span class=\"w\">WARN]: next</span></span>"
    );
}

#[test]
fn final_chunk_is_split_like_any_other() {
    let parser = Parser::new(lines(&["WARN]: first", "INFO]: last words", "  absorbed"]), Vec::new());
    let html = parser.html();
    assert_eq!(html.len(), 2);
    assert_eq!(
        html[1],
        "<span class=\"p\" id=\"L2\"><span class=i>INFO]:</span> last words\n  absorbed</span>"
    );
}

#[test]
fn html_escapes_markup_characters() {
    let parser = Parser::new(lines(&["INFO]: a <tag> & more"]), Vec::new());
    let html = parser.html();
    assert_eq!(
        html[0],
        "<span class=\"p\" id=\"L1\"><span class=i>INFO]:</span> a &lt;tag&gt; &amp; more</span>"
    );
}

#[test]
fn bracket_colon_wins_when_all_marked_lines_use_it() {
    let input = lines(&["WARN]: a", "INFO]: b", "plain line", "ERROR]: c"]);
    assert!(matches!(
        detect_delimiter_type(&input),
        DelimiterType::BracketColon
    ));
}

#[test]
fn colon_style_detected_when_dominant() {
    let input = lines(&["WARN: a", "INFO: b", "ERROR: c", "plain"]);
    assert!(matches!(detect_delimiter_type(&input), DelimiterType::Colon));
}

#[test]
fn markerless_log_defaults_to_bare() {
    let input = lines(&["just text", "more text"]);
    assert!(matches!(
        detect_delimiter_type(&input),
        DelimiterType::NoColonNoBracket
    ));
}

#[test]
fn delimiters_marker_sets_append_suffix() {
    let d = Delimiters::new(lines(&["CHAT"]), DelimiterType::BracketColon);
    assert_eq!(d.info, vec!["INFO]:".to_string()]);
    assert_eq!(d.warn, vec!["WARN]:".to_string(), "WARNING]:".to_string()]);
    assert_eq!(
        d.error,
        vec![
            "ERROR]:".to_string(),
            "SEVERE]:".to_string(),
            "FATAL]:".to_string()
        ]
    );
    assert_eq!(d.custom, vec!["CHAT]:".to_string()]);
}

#[test]
fn segmentation_is_idempotent() {
    let input = lines(&["INFO]: one", "  detail", "WARN]: two"]);
    let first = Parser::new(input.clone(), Vec::new()).get_chunks();
    let second = Parser::new(input, Vec::new()).get_chunks();
    assert_eq!(first, second);
}
