//! The app-call protocol records: what the platform sends a bot app and
//! what the app answers.

use vstd::prelude::*;

verus! {

/// The user acting in an app call.
#[derive(Debug)]
pub struct ActingUser {
    pub id: String,
    pub username: String,
}

/// The channel an app call comes from.
#[derive(Debug)]
pub struct Channel {
    pub id: String,
    pub team_id: String,
}

/// The team an app call comes from.
#[derive(Debug)]
pub struct Team {
    pub id: String,
}

/// The context of an app call.
#[derive(Debug)]
pub struct AppContext {
    pub bot_user_id: Option<String>,
    pub bot_access_token: Option<String>,
    pub acting_user: ActingUser,
    pub channel: Channel,
    pub team: Team,
    pub mattermost_site_url: String,
    pub app_path: String,
}

/// One option of a form select field.
#[derive(Debug)]
pub struct AppFormOption {
    pub label: String,
    pub value: String,
}

/// One field of an app form.
#[derive(Debug)]
pub struct AppFormField {
    pub name: String,
    pub label: String,
    pub field_type: String,
    pub options: Option<Vec<AppFormOption>>,
    pub is_required: Option<bool>,
}

/// What expanded context a form submit asks for.
#[derive(Debug)]
pub struct AppExpand {
    pub acting_user: String,
    pub acting_user_access_token: String,
}

/// Where an app form submits to.
#[derive(Debug)]
pub struct AppFormSubmit {
    pub path: String,
    pub expand: AppExpand,
}

/// An interactive form the app answers with.
#[derive(Debug)]
pub struct AppForm {
    pub title: String,
    pub icon: String,
    pub fields: Vec<AppFormField>,
    pub submit: AppFormSubmit,
}

/// The answer to an app call: plain text, a form, or an error.
#[derive(Debug)]
pub struct AppCallResponse {
    pub response_type: String,
    pub text: Option<String>,
    pub form: Option<AppForm>,
}

impl AppCallResponse {
    /// A plain-text success answer.
    pub fn ok(text: String) -> (r: Self)
        ensures
            r.response_type@ == "ok"@,
            r.text matches Some(t) && t == text,
            r.form is None,
    {
        AppCallResponse {
            response_type: String::from_str("ok"),
            text: Some(text),
            form: None,
        }
    }

    /// An answer that opens a form.
    pub fn form(form: AppForm) -> (r: Self)
        ensures
            r.response_type@ == "form"@,
            r.text is None,
            r.form is Some,
    {
        AppCallResponse {
            response_type: String::from_str("form"),
            text: None,
            form: Some(form),
        }
    }

    /// A plain-text error answer.
    pub fn error(text: String) -> (r: Self)
        ensures
            r.response_type@ == "error"@,
            r.text matches Some(t) && t == text,
            r.form is None,
    {
        AppCallResponse {
            response_type: String::from_str("error"),
            text: Some(text),
            form: None,
        }
    }
}

} // verus!
