use vstd::prelude::*;

use crate::counts::counts_usable;
use crate::binding::{parse_outcome, run_parser};
use crate::text::{lemma_trim_idempotent, trim_query, trimmed};
use partiql_parser::Parser;

verus! {

/// The text shown before a query is read.
pub const PROMPT: &'static str = "Please enter your PartiQL query: ";

/// The line printed for a parse outcome: the outcome written as a `Result`
/// would be with `{:?}`, after a fixed label.
pub open spec fn report_view(outcome: Result<Seq<char>, Seq<char>>) -> Seq<char> {
    "Parsed Query: "@ + match outcome {
        Ok(tree) => "Ok("@ + tree + ")"@,
        Err(detail) => "Err("@ + detail + ")"@,
    }
}

/// The line printed for one line of input.
pub open spec fn line_report(line: Seq<char>) -> Seq<char> {
    report_view(parse_outcome(trimmed(line)))
}

/// Writes the report line for a parse outcome (tree text or parser error
/// text).
pub fn report_line(outcome: Result<String, String>) -> (r: String)
    ensures
        r@ == report_view(
            match outcome {
                Ok(tree) => Ok::<Seq<char>, Seq<char>>(tree@),
                Err(detail) => Err::<Seq<char>, Seq<char>>(detail@),
            },
        ),
{
    let mut r = String::from_str("Parsed Query: ");
    match outcome {
        Ok(tree) => {
            r.append("Ok(");
            r.append(tree.as_str());
        },
        Err(detail) => {
            r.append("Err(");
            r.append(detail.as_str());
        },
    }
    r.append(")");
    proof {
        reveal_strlit("Parsed Query: ");
        reveal_strlit("Ok(");
        reveal_strlit("Err(");
        reveal_strlit(")");
        assert(r@ =~= report_view(
            match outcome {
                Ok(tree) => Ok::<Seq<char>, Seq<char>>(tree@),
                Err(detail) => Err::<Seq<char>, Seq<char>>(detail@),
            },
        ));
    }
    r
}

/// Trims one line of input, parses it once with a fresh parser and returns
/// the line to print. A rejected query is reported, not raised. The trimmed
/// query's counts must be ones the parser can take (`counts_usable_in`).
pub fn query_report(line: &str) -> (r: String)
    requires
        counts_usable(trimmed(line@)),
    ensures
        r@ == line_report(line@),
{
    let query = trim_query(line);
    let parser = Parser::default();
    let outcome = run_parser(&parser, query);
    report_line(outcome)
}

/// A line and the same line without its surrounding whitespace give the same
/// report.
pub proof fn lemma_report_ignores_surrounding_whitespace(line: Seq<char>)
    ensures
        line_report(line) == line_report(trimmed(line)),
{
    lemma_trim_idempotent(line);
}

} // verus!
