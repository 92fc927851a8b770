use partiql_bridge::{counts_usable_in, parse_partiql};

#[test]
fn plain_queries_are_usable() {
    assert!(counts_usable_in("SELECT 1"));
    assert!(counts_usable_in("SELECT 0"));
    assert!(counts_usable_in("SELECT 1, 0 FROM t"));
    assert!(counts_usable_in("SELECT * FROM t LIMIT 0"));
    assert!(counts_usable_in(""));
}

#[test]
fn zero_quantifier_is_refused() {
    assert!(!counts_usable_in("SELECT a FROM (g MATCH (a)(-[e]->){0}(b))"));
    assert!(!counts_usable_in("SELECT a FROM (g MATCH (a)-[e]->{,0}(b))"));
    assert!(!counts_usable_in("SELECT a FROM (g MATCH (a)-[e]->{ 00 }(b))"));
}

#[test]
fn zero_lower_bound_is_usable() {
    assert!(counts_usable_in("SELECT a FROM (g MATCH (a)-[e]->{0,5}(b))"));
    assert!(counts_usable_in("SELECT a FROM (g MATCH (a)-[e]->{0,}(b))"));
}

#[test]
fn zero_path_count_is_refused() {
    assert!(!counts_usable_in("SELECT a FROM (g MATCH ANY 0 (a)-[e]->(b))"));
    assert!(!counts_usable_in("SELECT a FROM (g MATCH shortest 0 (a)-[e]->(b))"));
    assert!(counts_usable_in("SELECT a FROM (g MATCH ANY 2 (a)-[e]->(b))"));
}

#[test]
fn count_above_u32_is_refused() {
    assert!(!counts_usable_in("SELECT a FROM (g MATCH (a)-[e]->{4294967296}(b))"));
    assert!(!counts_usable_in("SELECT a FROM (g MATCH (a)-[e]->{99999999999999999999,}(b))"));
    assert!(counts_usable_in("SELECT a FROM (g MATCH (a)-[e]->{4294967295}(b))"));
}

#[test]
fn count_behind_comment_is_refused() {
    assert!(!counts_usable_in("SELECT a FROM (g MATCH (a)-[e]->{ /* c */ 0 }(b))"));
    assert!(!counts_usable_in("SELECT a FROM (g MATCH (a)-[e]->{ -- c\n 0 }(b))"));
    assert!(!counts_usable_in("SELECT a FROM (g MATCH (a)-[e]->{1, 0 /* c */ }(b))"));
}

#[test]
fn usable_graph_query_parses() {
    let q = "SELECT a FROM (g MATCH (a)-[e]->{1,3}(b))";
    assert!(counts_usable_in(q));
    assert!(parse_partiql(q).is_ok());
}

#[test]
fn long_s_keyword_is_refused() {
    assert!(!counts_usable_in("SELECT a FROM (g MATCH \u{17f}HORTEST 0 (a)-[e]->(b))"));
    assert!(!counts_usable_in("SELECT a FROM (g MATCH \u{17f}hortest 0 (a)-[e]->(b))"));
}

#[test]
fn zero_before_group_is_usable() {
    let q = "SELECT a FROM (g MATCH SHORTEST 0 GROUP (a)-[e]->(b))";
    assert!(counts_usable_in(q));
    assert!(counts_usable_in("SELECT a FROM (g MATCH SHORTEST 0 GROUPS (a)-[e]->(b))"));
    assert!(!counts_usable_in("SELECT a FROM (g MATCH SHORTEST 4294967296 GROUP (a)-[e]->(b))"));
    let _ = parse_partiql(q);
}

#[test]
fn strings_and_names_are_left_aside() {
    assert!(counts_usable_in("SELECT '{0}'"));
    assert!(counts_usable_in("SELECT 'ANY 0', 'it''s {0}' FROM t"));
    assert!(counts_usable_in("SELECT \"{0}\" FROM t"));
    assert!(parse_partiql("SELECT '{0}'").is_ok());
}

#[test]
fn comments_are_left_aside() {
    assert!(counts_usable_in("SELECT x FROM t -- top 0"));
    assert!(counts_usable_in("SELECT x /* {0} */ FROM t"));
    assert!(counts_usable_in("SELECT 1, 0 -- c"));
    assert!(counts_usable_in("SELECT x /* a /* {0} */ b */ FROM t"));
}

#[test]
fn count_after_closed_string_is_refused() {
    assert!(!counts_usable_in("SELECT 'x' FROM (g MATCH (a)-[e]->{0}(b))"));
    assert!(!counts_usable_in("SELECT x /* c */ FROM (g MATCH ANY 0 (a)-[e]->(b))"));
}

#[test]
fn unsure_reading_falls_back_to_whole_text() {
    assert!(!counts_usable_in("SELECT 'a\\' {0} ' FROM t"));
    assert!(!counts_usable_in("SELECT `{0}` FROM t"));
    assert!(counts_usable_in("SELECT `{1}` FROM t"));
}
