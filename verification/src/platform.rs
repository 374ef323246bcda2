//! Plain records of the chat platform's interactive-message protocol that
//! the engine's decisions speak of.

use vstd::prelude::*;

verus! {

/// One option of an interactive select action.
#[derive(Debug)]
pub struct ActionOption {
    pub text: String,
    pub value: String,
}

impl Clone for ActionOption {
    fn clone(&self) -> (r: Self)
        ensures
            r == *self,
    {
        ActionOption { text: self.text.clone(), value: self.value.clone() }
    }
}

/// The fields of an inbound slash command, as the platform posts them.
#[derive(Debug)]
pub struct SlashCommand {
    pub channel_id: String,
    pub team_id: String,
    pub user_id: String,
    pub command: String,
    pub text: String,
    pub trigger_id: String,
}

/// One option of a dialog select field.
#[derive(Debug)]
pub struct DialogOption {
    pub text: String,
    pub value: String,
}

impl Clone for DialogOption {
    fn clone(&self) -> (r: Self)
        ensures
            r == *self,
    {
        DialogOption { text: self.text.clone(), value: self.value.clone() }
    }
}

} // verus!
