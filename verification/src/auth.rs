//! The slash-command shared-secret check.

use vstd::prelude::*;

use crate::dialog::form_value;

verus! {

/// The refusal a bad or missing command token earns.
#[derive(Clone, Copy, Debug, PartialEq, Eq, Structural)]
pub struct UnauthorizedError;

/// Whether the posted form carries the configured command secret; with no
/// secret configured every request passes.
pub open spec fn token_ok(form: Seq<(String, String)>, expected: Option<String>) -> bool {
    match expected {
        None => true,
        Some(t) => form_value(form, "token"@) == Some(t@),
    }
}

/// Checks the command secret of an inbound slash command.
pub fn verify_slash_command_token(
    form: &Vec<(String, String)>,
    expected_token: &Option<String>,
) -> (r: Result<(), UnauthorizedError>)
    ensures
        r is Ok <==> token_ok(form@, *expected_token),
{
    let expected = match expected_token {
        None => {
            return Ok(());
        },
        Some(t) => t,
    };
    match crate::dialog::form_get(form, "token") {
        Some(got) => {
            if crate::model::str_eq(got.as_str(), expected.as_str()) {
                Ok(())
            } else {
                Err(UnauthorizedError)
            }
        },
        None => Err(UnauthorizedError),
    }
}

} // verus!
