use partiql_bridge::{query_report, report_line, trim_query, PROMPT};

#[test]
fn prompt_text() {
    assert_eq!(PROMPT, "Please enter your PartiQL query: ");
}

#[test]
fn select_one_reports_success() {
    let line = query_report("SELECT 1");
    assert!(line.starts_with("Parsed Query: Ok(Parsed"));
    assert!(line.ends_with(')'));
}

#[test]
fn malformed_query_reports_error() {
    let line = query_report("SELECT (");
    assert!(line.starts_with("Parsed Query: Err(ParserError"));
    assert!(line.ends_with(')'));
}

#[test]
fn surrounding_whitespace_is_ignored() {
    assert_eq!(query_report("  SELECT 1  \n"), query_report("SELECT 1"));
}

#[test]
fn trim_query_strips_both_ends() {
    assert_eq!(trim_query("  SELECT 1  \n"), "SELECT 1");
    assert_eq!(trim_query("\t\r\nSELECT 1\r\n"), "SELECT 1");
    assert_eq!(trim_query("\u{3000}SELECT\u{a0}1\u{85}"), "SELECT\u{a0}1");
}

#[test]
fn trim_query_all_whitespace() {
    assert_eq!(trim_query(" \n\t "), "");
    assert_eq!(trim_query(""), "");
}

#[test]
fn trim_query_twice_is_once() {
    let once = trim_query("\n  a  b \t");
    assert_eq!(trim_query(once), once);
    assert_eq!(once, "a  b");
}

#[test]
fn report_line_success_shape() {
    assert_eq!(report_line(Ok(String::from("T"))), "Parsed Query: Ok(T)");
}

#[test]
fn report_line_error_shape() {
    assert_eq!(report_line(Err(String::from("E"))), "Parsed Query: Err(E)");
}

#[test]
fn report_matches_debug_of_parser_result() {
    let parser = partiql_parser::Parser::default();
    let expected = format!("Parsed Query: {:?}", parser.parse("SELECT x FROM y"));
    assert_eq!(query_report("  SELECT x FROM y \n"), expected);
    let expected_err = format!("Parsed Query: {:?}", parser.parse("SELECT ("));
    assert_eq!(query_report("SELECT ("), expected_err);
}
