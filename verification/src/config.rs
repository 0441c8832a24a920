//! The user's settings and the application's directories.
use vstd::prelude::*;

verus! {

/// The settings read from the configuration file.
#[derive(Debug)]
pub struct Config {
    /// The OAuth client secret file, with `~` and `$VAR` expanded.
    pub client_file: String,
    /// The calendars to show.
    pub calendar_ids: Vec<String>,
}

/// Where the application keeps its configuration and its data.
#[derive(Debug)]
pub struct AppPaths {
    pub config_dir: String,
    pub data_dir: String,
}

/// A variable in a path that has no value (or none in Unicode).
#[derive(Debug)]
pub struct ExpandError {
    pub var_name: String,
}

/// The path needs no expansion: it names no variable and starts with no `~`.
pub open spec fn plain_path(path: Seq<char>) -> bool {
    !path.contains('$') && !(path.len() > 0 && path[0] == '~')
}

/// `s` ends with `t`.
pub open spec fn ends_with(s: Seq<char>, t: Seq<char>) -> bool {
    t.len() <= s.len() && s.subrange(s.len() - t.len(), s.len() as int) == t
}

/// A path that names no variable and starts with `~`: the text after the `~`.
pub open spec fn after_tilde(path: Seq<char>) -> Seq<char> {
    path.subrange(1, path.len() as int)
}

/// The path names no variable and starts with `~`.
pub open spec fn tilde_path(path: Seq<char>) -> bool {
    !path.contains('$') && path.len() > 0 && path[0] == '~'
}

/// `shellexpand::full`: expands a leading `~` to the home directory and each
/// `$VAR` to the variable's value. What it returns depends on the
/// environment. Claimed, from its source: a path that names no variable and
/// starts with no `~` comes back as it is; one that names no variable and
/// starts with `~` comes back ending with the text after the `~` (the home
/// directory put before it, or the path left as it is); and only a
/// variable's lookup fails.
#[verifier::external_body]
fn shell_expand(path: &str) -> (r: Result<String, ExpandError>)
    ensures
        plain_path(path@) ==> r is Ok && r->Ok_0@ == path@,
        tilde_path(path@) ==> r is Ok && ends_with(r->Ok_0@, after_tilde(path@)),
        r is Err ==> path@.contains('$'),
{
    match shellexpand::full(path) {
        Ok(expanded) => Ok(expanded.into_owned()),
        Err(e) => Err(ExpandError { var_name: e.var_name }),
    }
}

/// Expands `~` and environment variables in a path.
pub fn expand_filepath(path: &str) -> (r: Result<String, ExpandError>)
    ensures
        plain_path(path@) ==> r is Ok && r->Ok_0@ == path@,
        tilde_path(path@) ==> r is Ok && ends_with(r->Ok_0@, after_tilde(path@)),
        r is Err ==> path@.contains('$'),
{
    shell_expand(path)
}

/// The configuration file under a home directory.
pub fn config_file_path(home: &str) -> (r: String)
    ensures
        r@ == home@ + "/.config/gcal-tui/config.toml"@,
{
    let mut path = String::from_str(home);
    path.append("/.config/gcal-tui/config.toml");
    path
}

impl Config {
    /// The settings as read from the configuration file, with the client
    /// file's path expanded. An error when a variable it names has no value.
    pub fn new(client_file: String, calendar_ids: Vec<String>) -> (r: Result<Config, ExpandError>)
        ensures
            match r {
                Ok(c) => c.calendar_ids@ == calendar_ids@
                    && (plain_path(client_file@) ==> c.client_file@ == client_file@)
                    && (tilde_path(client_file@) ==> ends_with(c.client_file@, after_tilde(client_file@))),
                Err(_) => client_file@.contains('$'),
            },
    {
        match expand_filepath(client_file.as_str()) {
            Ok(expanded) => Ok(Config { client_file: expanded, calendar_ids }),
            Err(e) => Err(e),
        }
    }
}

} // verus!
