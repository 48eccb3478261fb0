use vstd::prelude::*;
use crate::server_error::ServerError;

verus! {

/// What a client is told whose solution does not solve the challenge.
pub const REJECTION: &'static str = "Trtying to cheat uh?!";

/// Whether `text` is one of `rows`.
pub open spec fn is_row(rows: Seq<String>, text: Seq<char>) -> bool {
    exists|i: int| 0 <= i < rows.len() && #[trigger] rows[i]@ == text
}

/// Whether `outcome` may answer a client: the rejection text where its
/// solution was not accepted; else a data-selection error where there are no
/// rows, and one of the rows where there are some.
pub open spec fn response_allowed(
    accepted: bool,
    rows: Seq<String>,
    outcome: Result<String, ServerError>,
) -> bool {
    if !accepted {
        outcome matches Ok(text) && text@ == REJECTION@
    } else if rows.len() == 0 {
        outcome == Err::<String, ServerError>(ServerError::DataSelectionError)
    } else {
        outcome matches Ok(text) && is_row(rows, text@)
    }
}

/// Calls `rand::seq::SliceRandom::choose` on the rows with the thread's
/// generator. Trusted: the result is `None` for no rows and else one of the
/// rows; which one is left open.
#[verifier::external_body]
fn choose_row<'a>(rows: &'a [String]) -> (chosen: Option<&'a String>)
    ensures
        chosen is None <==> rows@.len() == 0,
        chosen matches Some(row) ==> is_row(rows@, row@),
{
    rand::seq::SliceRandom::choose(rows, &mut rand::thread_rng())
}

/// The response to a client that solved its challenge, given the row that
/// was drawn for it: that row, or a data-selection error where there was no
/// row to draw.
pub fn response_from_choice(chosen: Option<&String>) -> (outcome: Result<String, ServerError>)
    ensures
        match chosen {
            Some(row) => outcome matches Ok(text) && text@ == row@,
            None => outcome == Err::<String, ServerError>(ServerError::DataSelectionError),
        },
{
    match chosen {
        Some(row) => Ok(row.clone()),
        None => Err(ServerError::DataSelectionError),
    }
}

/// The response to a client: the rejection text where its solution was not
/// accepted, else a row of the corpus drawn at random, or a data-selection
/// error where the corpus is empty.
pub fn select_response(accepted: bool, rows: &Vec<String>) -> (outcome: Result<String, ServerError>)
    ensures
        response_allowed(accepted, rows@, outcome),
{
    if accepted {
        response_from_choice(choose_row(rows.as_slice()))
    } else {
        Ok(String::from_str(REJECTION))
    }
}

} // verus!
