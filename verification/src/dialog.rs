//! The dialog and slash-command records, and the form-field access the
//! handlers build on.

use vstd::prelude::*;

verus! {

/// The first value a form holds under `key`, if any.
pub open spec fn form_value(form: Seq<(String, String)>, key: Seq<char>) -> Option<Seq<char>>
    decreases form.len(),
{
    if form.len() == 0 {
        None
    } else if form[0].0@ == key {
        Some(form[0].1@)
    } else {
        form_value(form.drop_first(), key)
    }
}

proof fn lemma_form_value_first(form: Seq<(String, String)>, key: Seq<char>, i: int)
    requires
        0 <= i < form.len(),
        form[i].0@ == key,
        forall|j: int| 0 <= j < i ==> (#[trigger] form[j]).0@ != key,
    ensures
        form_value(form, key) == Some(form[i].1@),
    decreases form.len(),
{
    if i > 0 {
        assert(forall|j: int|
            0 <= j < form.drop_first().len() ==> #[trigger] form.drop_first()[j] == form[j + 1]);
        lemma_form_value_first(form.drop_first(), key, i - 1);
    }
}

proof fn lemma_form_value_absent(form: Seq<(String, String)>, key: Seq<char>)
    requires
        forall|j: int| 0 <= j < form.len() ==> (#[trigger] form[j]).0@ != key,
    ensures
        form_value(form, key) is None,
    decreases form.len(),
{
    if form.len() > 0 {
        assert(forall|j: int|
            0 <= j < form.drop_first().len() ==> #[trigger] form.drop_first()[j] == form[j + 1]);
        lemma_form_value_absent(form.drop_first(), key);
    }
}

/// The first value a form holds under `key`, by linear scan.
pub fn form_get(form: &Vec<(String, String)>, key: &str) -> (r: Option<String>)
    ensures
        match r {
            Some(v) => form_value(form@, key@) == Some(v@),
            None => form_value(form@, key@) is None,
        },
{
    let mut i: usize = 0;
    while i < form.len()
        invariant
            0 <= i <= form@.len(),
            forall|j: int| 0 <= j < i ==> (#[trigger] form@[j]).0@ != key@,
        decreases form@.len() - i,
    {
        if crate::model::str_eq(form[i].0.as_str(), key) {
            proof {
                lemma_form_value_first(form@, key@, i as int);
            }
            return Some(form[i].1.clone());
        }
        i = i + 1;
    }
    proof {
        lemma_form_value_absent(form@, key@);
    }
    None
}

/// The value a form holds under `key`, or empty.
pub open spec fn form_value_or_empty(form: Seq<(String, String)>, key: Seq<char>) -> Seq<char> {
    match form_value(form, key) {
        Some(v) => v,
        None => Seq::empty(),
    }
}

fn form_get_or_empty(form: &Vec<(String, String)>, key: &str) -> (r: String)
    ensures
        r@ == form_value_or_empty(form@, key@),
{
    match form_get(form, key) {
        Some(v) => v,
        None => String::new(),
    }
}

/// The parsed fields of an inbound slash command.
#[derive(Debug)]
pub struct SlashCommandRequest {
    pub token: Option<String>,
    pub team_id: String,
    pub team_domain: String,
    pub channel_id: String,
    pub channel_name: String,
    pub user_id: String,
    pub user_name: String,
    pub command: String,
    pub text: String,
    pub response_url: String,
    pub trigger_id: String,
}

/// Reads the slash-command fields out of the posted form; a missing field
/// reads as empty.
pub fn parse_slash_command(form: &Vec<(String, String)>) -> (r: SlashCommandRequest)
    ensures
        (match r.token {
            Some(t) => form_value(form@, "token"@) == Some(t@),
            None => form_value(form@, "token"@) is None,
        }),
        r.team_id@ == form_value_or_empty(form@, "team_id"@),
        r.team_domain@ == form_value_or_empty(form@, "team_domain"@),
        r.channel_id@ == form_value_or_empty(form@, "channel_id"@),
        r.channel_name@ == form_value_or_empty(form@, "channel_name"@),
        r.user_id@ == form_value_or_empty(form@, "user_id"@),
        r.user_name@ == form_value_or_empty(form@, "user_name"@),
        r.command@ == form_value_or_empty(form@, "command"@),
        r.text@ == form_value_or_empty(form@, "text"@),
        r.response_url@ == form_value_or_empty(form@, "response_url"@),
        r.trigger_id@ == form_value_or_empty(form@, "trigger_id"@),
{
    SlashCommandRequest {
        token: form_get(form, "token"),
        team_id: form_get_or_empty(form, "team_id"),
        team_domain: form_get_or_empty(form, "team_domain"),
        channel_id: form_get_or_empty(form, "channel_id"),
        channel_name: form_get_or_empty(form, "channel_name"),
        user_id: form_get_or_empty(form, "user_id"),
        user_name: form_get_or_empty(form, "user_name"),
        command: form_get_or_empty(form, "command"),
        text: form_get_or_empty(form, "text"),
        response_url: form_get_or_empty(form, "response_url"),
        trigger_id: form_get_or_empty(form, "trigger_id"),
    }
}

/// The answer to a slash command.
#[derive(Debug)]
pub struct SlashCommandResponse {
    pub response_type: String,
    pub text: String,
}

/// The answer to a dialog submission: clean, a whole-dialog error, or
/// field-scoped errors that keep the dialog open.
#[derive(Debug)]
pub struct DialogSubmissionResponse {
    pub error: Option<String>,
    pub errors: Option<Vec<(String, String)>>,
    pub text: Option<String>,
}

/// An answer that flags one field and keeps the dialog open.
pub fn make_field_error_response(field: &str, message: &str) -> (r: DialogSubmissionResponse)
    ensures
        r.error is None,
        r.text is None,
        (match r.errors {
            Some(errs) => errs@.len() == 1 && errs@[0].0@ == field@ && errs@[0].1@ == message@,
            None => false,
        }),
{
    let mut errors: Vec<(String, String)> = Vec::new();
    errors.push((String::from_str(field), String::from_str(message)));
    DialogSubmissionResponse { error: None, errors: Some(errors), text: None }
}

/// The usage text of the umbrella command.
pub fn get_help_message() -> (r: String) {
    String::from_str(
        "### 📚 `/leko` 指令使用說明\n\n**可用子指令：**\n\n- `/leko help` - 顯示此說明訊息\n- `/leko group_buy` - 開啟建立團購對話框\n- `/leko sticker [關鍵字]` - 搜尋並發送貼圖\n\n**範例：**\n```\n/leko group_buy\n/leko sticker 快樂\n/leko sticker\n```\n\n💡 提示：你也可以直接使用 `/group_buy` 或 `/sticker` 指令。",
    )
}

} // verus!
