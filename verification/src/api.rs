//! The records exchanged with the desktop host: accounts, repositories, SSH
//! keys, clone tasks, remote results and connections, as plain values.

use vstd::prelude::*;
use vstd::string::*;

verus! {

/// The signed-in GitHub account.
#[derive(Debug, Clone, PartialEq, Eq)]
pub struct Account {
    pub login: String,
    pub avatar_url: Option<String>,
}

/// A repository as shown in the Repos list.
#[derive(Debug, Clone, PartialEq, Eq)]
pub struct Repo {
    pub id: i64,
    pub full_name: String,
    pub owner: String,
    pub name: String,
    pub private: bool,
    pub archived: bool,
    pub language: Option<String>,
    pub default_branch: Option<String>,
    pub html_url: String,
    pub ssh_url: String,
}

/// Count returned by a repository sync.
#[derive(Debug, Clone, Copy)]
pub struct RepoSyncResult {
    pub repositories: usize,
}

/// An SSH key as shown in the Keys list.
#[derive(Debug, Clone, PartialEq, Eq)]
pub struct SshKey {
    pub id: i64,
    pub directory: String,
    pub algorithm: String,
    pub comment: String,
    pub remark: String,
    pub created_at: String,
}

/// A persisted clone task, including terminal-style output.
#[derive(Debug, Clone, PartialEq, Eq)]
pub struct CloneTask {
    pub id: u64,
    pub repo_id: i64,
    pub repo_full_name: String,
    pub repo_name: String,
    pub local_path: String,
    pub command: String,
    pub status: String,
    pub log: String,
    pub started_at: i64,
    pub finished_at: Option<i64>,
    pub exit_code: Option<i32>,
    pub error: Option<String>,
}

/// Result returned after connecting or testing a local clone's remote.
#[derive(Debug, Clone, PartialEq, Eq)]
pub struct RepoRemoteResult {
    pub repo_id: i64,
    pub repo_full_name: String,
    pub local_path: String,
    pub remote_url: String,
    pub output: String,
}

/// A connection as the host lists it.
#[derive(Debug, Clone, PartialEq, Eq)]
pub struct ConnectionDto {
    pub id: String,
    pub alias: String,
    pub kind: String,
    pub host: Option<String>,
    pub port: Option<u16>,
    pub username: Option<String>,
    pub auth_method: Option<String>,
    pub key_base_dir: String,
}


/// A progress report from the host: an operation and how far it has got.
#[derive(Debug, Clone, PartialEq, Eq)]
pub struct ProgressEvent {
    pub operation: String,
    pub percent: u8,
}

/// The text shown for a rejected host call: the rejection itself when it is a
/// string, else its JSON form when it has one, else a generic message.
pub fn backend_error_text(as_string: Option<String>, as_json: Option<String>) -> (r: String)
    ensures
        as_string matches Some(s) ==> r == s,
        as_string is None && as_json is Some ==> r == as_json->0,
        as_string is None && as_json is None ==> r@ == "Unknown error from backend"@,
{
    match as_string {
        Some(s) => s,
        None => match as_json {
            Some(j) => j,
            None => String::from_str("Unknown error from backend"),
        },
    }
}

} // verus!
