//! The service configuration and the admin identity check.

use vstd::prelude::*;

verus! {

/// The chat platform connection settings.
#[derive(Debug)]
pub struct MattermostConfig {
    pub url: String,
    pub bot_token: String,
    pub slash_command_token: Option<String>,
    pub bot_callback_url: Option<String>,
}

/// Where a sticker set is loaded from.
#[derive(Debug)]
pub enum SourceConfig {
    File { format: FileFormat, path: String },
    HttpGet { format: FileFormat, url: String, headers: Vec<(String, String)> },
}

/// The file format of a sticker source.
#[derive(Clone, Copy, Debug, PartialEq, Eq, Structural)]
pub enum FileFormat {
    Csv,
    Json,
}

/// One named sticker category and its sources.
#[derive(Debug)]
pub struct CategoryConfig {
    pub name: String,
    pub sources: Vec<SourceConfig>,
}

/// The sticker subsystem's configuration.
#[derive(Debug)]
pub struct StickersConfig {
    pub categories: Vec<CategoryConfig>,
}

/// The whole service configuration.
#[derive(Debug)]
pub struct Config {
    pub mattermost: MattermostConfig,
    pub stickers: StickersConfig,
    pub admin: Vec<String>,
}

/// Whether one admin list entry names this user: an entry starting with `@`
/// names a username, any other entry names a user id.
pub open spec fn admin_entry_matches(entry: Seq<char>, user_id: Seq<char>, username: Seq<char>) -> bool {
    if entry.len() > 0 && entry[0] == '@' {
        entry.skip(1) == username
    } else {
        entry == user_id
    }
}

impl Config {
    /// Whether the user is an administrator: some admin list entry names
    /// either the username (with an `@` prefix) or the user id.
    pub fn is_admin(&self, user_id: &str, username: &str) -> (r: bool)
        ensures
            r == exists|i: int|
                0 <= i < self.admin@.len() && admin_entry_matches(
                    (#[trigger] self.admin@[i])@,
                    user_id@,
                    username@,
                ),
    {
        let mut i: usize = 0;
        while i < self.admin.len()
            invariant
                0 <= i <= self.admin@.len(),
                forall|j: int|
                    0 <= j < i ==> !admin_entry_matches(
                        (#[trigger] self.admin@[j])@,
                        user_id@,
                        username@,
                    ),
            decreases self.admin@.len() - i,
        {
            let entry = self.admin[i].as_str();
            let n = entry.unicode_len();
            if n > 0 && entry.get_char(0) == '@' {
                let tail = entry.substring_char(1, n);
                assert(tail@ =~= entry@.skip(1));
                if crate::model::str_eq(tail, username) {
                    assert(admin_entry_matches(self.admin@[i as int]@, user_id@, username@));
                    return true;
                }
            } else {
                if crate::model::str_eq(entry, user_id) {
                    assert(admin_entry_matches(self.admin@[i as int]@, user_id@, username@));
                    return true;
                }
            }
            i = i + 1;
        }
        false
    }
}

} // verus!
