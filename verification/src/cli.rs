//! Decisions of the command-line client: its saved settings, signing in,
//! how a folder listing is shown, and the upload command line.
use vstd::prelude::*;

use crate::put::files::string_views;
use crate::text::{concat2, owned};

verus! {

/// The saved settings: the account's token (empty when signed out).
pub struct ConfigFile {
    pub api_token: String,
}

impl Default for ConfigFile {
    /// Signed out.
    fn default() -> (res: ConfigFile)
        ensures
            res.api_token@.len() == 0,
    {
        ConfigFile { api_token: String::new() }
    }
}

impl ConfigFile {
    /// Whether a token is saved.
    pub fn has_token(&self) -> (res: bool)
        ensures
            res == (self.api_token@.len() > 0),
    {
        !self.api_token.as_str().is_empty()
    }
}

/// The saved settings can be used only when they hold a token; otherwise
/// the user is told to sign in.
pub fn token_check(config: &ConfigFile) -> (res: Result<(), String>)
    ensures
        config.api_token@.len() > 0 ==> res is Ok,
        config.api_token@.len() == 0 ==> (res matches Err(m)
            && m@ == "missing API key, please login to your Put.io account using the `login` command"@),
{
    if config.has_token() {
        Ok(())
    } else {
        Err(owned("missing API key, please login to your Put.io account using the `login` command"))
    }
}

/// The account that the token gives can be used only when it was fetched
/// (`Ok` with whether it is active) and is active. A failed fetch means the
/// token is not valid; its error follows the message.
pub fn account_check(fetched: Result<bool, String>) -> (res: Result<(), String>)
    ensures
        match fetched {
            Ok(true) => res is Ok,
            Ok(false) => res matches Err(m) && m@ == "inactive Put.io account"@,
            Err(e) => res matches Err(m)
                && m@ == "invalid OAuth token in config, login again using the `login` command: "@ + e@,
        },
{
    match fetched {
        Ok(active) => {
            if active {
                Ok(())
            } else {
                Err(owned("inactive Put.io account"))
            }
        },
        Err(e) => Err(concat2("invalid OAuth token in config, login again using the `login` command: ", e.as_str())),
    }
}

/// What to do after asking whether the one-time code has been linked.
pub enum LoginPoll {
    /// Linked: save this token and stop.
    Store(String),
    /// Too many tries without a token: give up.
    GiveUp,
    /// Ask again in a while.
    Retry,
}

/// Decides the sign-in loop's next move after try number `try_count`: a
/// failed request is retried (whatever the count); a non-empty token is
/// stored; an empty one is retried until more than ten tries were made.
pub fn login_poll_step(try_count: u32, checked: Option<String>) -> (res: LoginPoll)
    ensures
        match checked {
            None => res is Retry,
            Some(t) => if t@.len() > 0 {
                res == LoginPoll::Store(t)
            } else if try_count > 10 {
                res is GiveUp
            } else {
                res is Retry
            },
        },
{
    match checked {
        None => LoginPoll::Retry,
        Some(t) => {
            if !t.as_str().is_empty() {
                LoginPoll::Store(t)
            } else if try_count > 10 {
                LoginPoll::GiveUp
            } else {
                LoginPoll::Retry
            }
        },
    }
}

/// How `files list` shows a listing.
pub enum ListView {
    /// The folder's own record, as JSON.
    SelfJson,
    /// The entry is a file, not a folder: say so.
    NotAFolder,
    /// The entries, as JSON.
    Json,
    /// The entries, as a table under the folder's name.
    Table,
}

/// `--self` shows the folder's own record whatever it is; otherwise a file
/// is refused, and `--json` chooses JSON over a table.
pub fn files_list_view(show_self: bool, is_folder: bool, json: bool) -> (res: ListView)
    ensures
        show_self ==> res is SelfJson,
        !show_self && !is_folder ==> res is NotAFolder,
        !show_self && is_folder && json ==> res is Json,
        !show_self && is_folder && !json ==> res is Table,
{
    if show_self {
        ListView::SelfJson
    } else if !is_folder {
        ListView::NotAFolder
    } else if json {
        ListView::Json
    } else {
        ListView::Table
    }
}

/// The arguments of the `files upload` command's curl call: "-s" when
/// silent, the bearer token, the file, the name to give it (empty when not
/// overridden), the folder ("0" when none), then the upload address.
pub open spec fn upload_command_args_spec(api_token: Seq<char>, path: Seq<char>, file_name: Option<Seq<char>>, parent_id: Option<Seq<char>>, silent: bool) -> Seq<Seq<char>> {
    (if silent { seq!["-s"@] } else { seq![] }) + seq![
        "-H"@,
        "Authorization: Bearer "@ + api_token,
        "-F"@,
        "file=@"@ + path,
        "-F"@,
        "filename="@ + match file_name { Some(n) => n, None => seq![] },
        "-F"@,
        "parent_id="@ + match parent_id { Some(p) => p, None => "0"@ },
        "https://upload.put.io/v2/files/upload"@,
    ]
}

/// The arguments of the curl call that the `files upload` command makes for
/// one file.
pub fn upload_command_args(api_token: &str, path: &str, file_name: Option<&String>, parent_id: Option<&String>, silent: bool) -> (res: Vec<String>)
    ensures
        string_views(res@) == upload_command_args_spec(api_token@, path@,
            match file_name { Some(n) => Some(n@), None => None },
            match parent_id { Some(p) => Some(p@), None => None },
            silent),
{
    let mut res: Vec<String> = Vec::new();
    if silent {
        res.push(owned("-s"));
    }
    res.push(owned("-H"));
    res.push(concat2("Authorization: Bearer ", api_token));
    res.push(owned("-F"));
    res.push(concat2("file=@", path));
    res.push(owned("-F"));
    let name = match file_name {
        Some(n) => concat2("filename=", n.as_str()),
        None => owned("filename="),
    };
    res.push(name);
    res.push(owned("-F"));
    let parent = match parent_id {
        Some(p) => concat2("parent_id=", p.as_str()),
        None => owned("parent_id=0"),
    };
    res.push(parent);
    res.push(owned("https://upload.put.io/v2/files/upload"));
    proof {
        reveal_strlit("parent_id=0");
        reveal_strlit("parent_id=");
        reveal_strlit("0");
        assert("parent_id=0"@ =~= "parent_id="@ + "0"@);
        assert("filename="@ =~= "filename="@ + Seq::<char>::empty());
        assert(string_views(res@) =~= upload_command_args_spec(api_token@, path@,
            match file_name { Some(n) => Some(n@), None => None },
            match parent_id { Some(p) => Some(p@), None => None },
            silent));
    }
    res
}

} // verus!
