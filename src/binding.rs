use vstd::prelude::*;

use crate::counts::counts_usable;
use partiql_parser::Parser;

verus! {

#[verifier::external_type_specification]
#[verifier::external_body]
pub struct ExParser(Parser);

/// Relies on `partiql_parser::Parser::default`: it builds a parser that holds
/// no state.
pub assume_specification[ <Parser as core::default::Default>::default ]() -> Parser;

/// What `partiql_parser::Parser::parse` gives for a query, written with `{:?}`:
/// the parsed tree on success, the parser's error on failure. The parser keeps
/// no state between calls, so this depends on the query text alone.
pub uninterp spec fn parse_outcome(query: Seq<char>) -> Result<Seq<char>, Seq<char>>;

/// Relies on `partiql_parser::Parser::parse`: the outcome is
/// `parse_outcome(query@)`; a parsed tree is written as a non-empty text
/// (the derived `Debug` of `Parsed` starts with its name). The grammar
/// unwraps graph quantifier bounds and `ANY` / `SHORTEST` counts as non-zero
/// `u32` values, so a query with any other count there is left out.
#[verifier::external_body]
pub(crate) fn run_parser(parser: &Parser, query: &str) -> (r: Result<String, String>)
    requires
        counts_usable(query@),
    ensures
        match r {
            Ok(tree) => parse_outcome(query@) == Ok::<Seq<char>, Seq<char>>(tree@) && tree@.len() > 0,
            Err(detail) => parse_outcome(query@) == Err::<Seq<char>, Seq<char>>(detail@),
        },
{
    match parser.parse(query) {
        Ok(parsed) => Ok(format!("{:?}", parsed)),
        Err(error) => Err(format!("{:?}", error)),
    }
}

/// The words that open every message of a rejected query.
pub open spec fn failure_words() -> Seq<char> {
    "Failed to parse query"@
}

/// The message handed to the host for a rejected query with the given parser
/// error text.
pub open spec fn failure_message(detail: Seq<char>) -> Seq<char> {
    failure_words() + ": "@ + detail
}

/// Whether `part` occurs in `whole` as a contiguous run of characters.
pub open spec fn occurs_in(part: Seq<char>, whole: Seq<char>) -> bool {
    exists|i: int| 0 <= i && i + part.len() <= whole.len() && #[trigger] whole.subrange(i, i + part.len()) == part
}

/// The error that the binding reports for a query the parser rejects.
pub struct QueryError {
    pub message: String,
}

/// What the binding returns for a parse outcome: the tree text on success,
/// the failure message on failure.
pub open spec fn binding_view(outcome: Result<Seq<char>, Seq<char>>) -> Result<Seq<char>, Seq<char>> {
    match outcome {
        Ok(tree) => Ok(tree),
        Err(detail) => Err(failure_message(detail)),
    }
}

/// The host-visible view of a binding result.
pub open spec fn result_view(r: Result<String, QueryError>) -> Result<Seq<char>, Seq<char>> {
    match r {
        Ok(tree) => Ok(tree@),
        Err(e) => Err(e.message@),
    }
}

/// Turns a parse outcome (tree text or parser error text) into the binding's
/// result.
pub fn binding_result(outcome: Result<String, String>) -> (r: Result<String, QueryError>)
    ensures
        result_view(r) == binding_view(
            match outcome {
                Ok(tree) => Ok::<Seq<char>, Seq<char>>(tree@),
                Err(detail) => Err::<Seq<char>, Seq<char>>(detail@),
            },
        ),
{
    match outcome {
        Ok(tree) => Ok(tree),
        Err(detail) => {
            let mut message = String::from_str("Failed to parse query: ");
            message.append(detail.as_str());
            proof {
                reveal_strlit("Failed to parse query: ");
                reveal_strlit("Failed to parse query");
                reveal_strlit(": ");
                assert(message@ =~= failure_message(detail@));
            }
            Err(QueryError { message })
        },
    }
}

/// Parses a query with a fresh parser, once, and returns the tree text on
/// success or an error whose message embeds the parser's error text. The
/// query's counts must be ones the parser can take (`counts_usable_in`).
pub fn parse_partiql(query: &str) -> (r: Result<String, QueryError>)
    requires
        counts_usable(query@),
    ensures
        result_view(r) == binding_view(parse_outcome(query@)),
        r is Ok <==> parse_outcome(query@) is Ok,
        r matches Ok(tree) ==> tree@.len() > 0,
        r matches Err(e) ==> occurs_in(failure_words(), e.message@),
{
    let parser = Parser::default();
    let outcome = run_parser(&parser, query);
    let r = binding_result(outcome);
    proof {
        if let Err(detail) = parse_outcome(query@) {
            lemma_failure_message_names_failure(detail);
        }
    }
    r
}

/// Every failure message holds the words "Failed to parse query", whatever
/// the parser's error text.
pub proof fn lemma_failure_message_names_failure(detail: Seq<char>)
    ensures
        occurs_in(failure_words(), failure_message(detail)),
{
    let m = failure_message(detail);
    let w = failure_words();
    let i: int = 0;
    assert(m.subrange(i, i + w.len()) =~= w);
}

} // verus!
