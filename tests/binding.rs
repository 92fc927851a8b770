use partiql_bridge::{binding_result, parse_partiql, QueryError};

#[test]
fn accepted_query_gives_nonempty_tree_text() {
    let r = parse_partiql("SELECT 1");
    match r {
        Ok(tree) => {
            assert!(!tree.is_empty());
            assert_ne!(tree, "SELECT 1");
            assert!(tree.starts_with("Parsed"));
        }
        Err(e) => panic!("rejected: {}", e.message),
    }
}

#[test]
fn accepted_query_with_from_clause() {
    let r = parse_partiql("SELECT g FROM data GROUP BY a");
    assert!(matches!(r, Ok(ref t) if !t.is_empty()));
}

#[test]
fn rejected_query_names_the_failure() {
    match parse_partiql("SELECT (") {
        Ok(_) => panic!("accepted a malformed query"),
        Err(QueryError { message }) => {
            assert!(message.contains("Failed to parse query"));
            assert!(message.starts_with("Failed to parse query: "));
            assert!(message.contains("ParserError"));
        }
    }
}

#[test]
fn rejected_bare_keyword() {
    let r = parse_partiql("SELECT");
    assert!(matches!(r, Err(ref e) if e.message.contains("Failed to parse query")));
}

#[test]
fn empty_query_is_rejected() {
    assert!(parse_partiql("").is_err());
}

#[test]
fn same_query_same_result() {
    let a = parse_partiql("SELECT a FROM t WHERE a > 2");
    let b = parse_partiql("SELECT a FROM t WHERE a > 2");
    match (a, b) {
        (Ok(x), Ok(y)) => assert_eq!(x, y),
        _ => panic!("expected two successes"),
    }
}

#[test]
fn binding_result_keeps_tree_text() {
    let r = binding_result(Ok(String::from("Parsed { x }")));
    assert!(matches!(r, Ok(ref t) if t == "Parsed { x }"));
}

#[test]
fn binding_result_formats_failure() {
    let r = binding_result(Err(String::from("ParserError { errors: [] }")));
    match r {
        Ok(_) => panic!("expected an error"),
        Err(e) => assert_eq!(e.message, "Failed to parse query: ParserError { errors: [] }"),
    }
}

#[test]
fn binding_result_empty_detail() {
    let r = binding_result(Err(String::new()));
    match r {
        Ok(_) => panic!("expected an error"),
        Err(e) => assert_eq!(e.message, "Failed to parse query: "),
    }
}
