//! The two inputs a run starts from: the credentials in the configuration
//! file, and the command given on the command line.
use vstd::prelude::*;
use crate::target::{parse_target, is_number_text, json_number_of};
use crate::json::opt_text;

verus! {

/// The account's username and password.
#[derive(Clone, Debug, PartialEq, Eq)]
pub struct Credentials {
    pub username: String,
    pub password: String,
}

/// A configuration file that cannot be used.
#[derive(Clone, Copy, Debug, PartialEq, Eq, Structural)]
pub enum ConfigError {
    /// The text is not TOML.
    Malformed,
    /// `username` is absent or not a string.
    MissingUsername,
    /// `password` is absent or not a string.
    MissingPassword,
}

/// Whether the text is a TOML document.
pub uninterp spec fn toml_parses(text: Seq<char>) -> bool;

/// The string under a top-level key of a TOML document.
pub uninterp spec fn toml_member_text(text: Seq<char>, key: Seq<char>) -> Option<Seq<char>>;

/// Relies on toml's `FromStr` for `toml::Value`: whether the text parses.
#[verifier::external_body]
fn is_toml(text: &str) -> (r: bool)
    ensures
        r == toml_parses(text@),
{
    text.parse::<toml::Value>().is_ok()
}

/// Relies on toml's `FromStr` for `toml::Value`, toml::Value::get and
/// toml::Value::as_str: the string under a top-level key. A text that does not
/// parse has none.
#[verifier::external_body]
fn toml_string(text: &str, key: &str) -> (r: Option<String>)
    ensures
        opt_text(r) == toml_member_text(text@, key@),
        !toml_parses(text@) ==> r is None,
{
    let v = text.parse::<toml::Value>().ok()?;
    Some(v.get(key)?.as_str()?.to_string())
}

/// Reads the credentials from the configuration file's text: `Malformed` where
/// it is not TOML, else the first of `username` and `password` that is not a
/// string.
pub fn parse_credentials(text: &str) -> (r: Result<Credentials, ConfigError>)
    ensures
        !toml_parses(text@) ==> r == Err::<Credentials, ConfigError>(ConfigError::Malformed),
        toml_parses(text@) && toml_member_text(text@, "username"@) is None ==> r == Err::<
            Credentials,
            ConfigError,
        >(ConfigError::MissingUsername),
        toml_parses(text@) && toml_member_text(text@, "username"@) is Some && toml_member_text(
            text@,
            "password"@,
        ) is None ==> r == Err::<Credentials, ConfigError>(ConfigError::MissingPassword),
        r is Ok <==> (toml_parses(text@) && toml_member_text(text@, "username"@) is Some
            && toml_member_text(text@, "password"@) is Some),
        r matches Ok(c) ==> (Some(c.username@) == toml_member_text(text@, "username"@) && Some(
            c.password@,
        ) == toml_member_text(text@, "password"@)),
{
    if !is_toml(text) {
        return Err(ConfigError::Malformed);
    }
    let username = match toml_string(text, "username") {
        Some(u) => u,
        None => return Err(ConfigError::MissingUsername),
    };
    let password = match toml_string(text, "password") {
        Some(p) => p,
        None => return Err(ConfigError::MissingPassword),
    };
    Ok(Credentials { username, password })
}

/// What a run is asked to do.
#[derive(Clone, Debug, PartialEq, Eq)]
pub enum Command {
    /// Show the current and target temperatures.
    Status,
    /// Set the target to this number, written as JSON writes it.
    SetTarget(String),
}

pub ghost enum CommandView {
    Status,
    SetTarget(Seq<char>),
}

impl View for Command {
    type V = CommandView;

    open spec fn view(&self) -> CommandView {
        match self {
            Command::Status => CommandView::Status,
            Command::SetTarget(t) => CommandView::SetTarget(t@),
        }
    }
}

/// The temperature argument is not a number.
#[derive(Clone, Copy, Debug, PartialEq, Eq, Structural)]
pub enum InputError {
    NotANumber,
}

/// The command that the arguments after the program's name ask for: none means
/// status; otherwise the first is the target temperature.
pub fn parse_command(args: &Vec<String>) -> (r: Result<Command, InputError>)
    ensures
        args@.len() == 0 ==> r matches Ok(Command::Status),
        args@.len() > 0 ==> (r is Ok <==> is_number_text(args@[0]@)),
        args@.len() > 0 ==> (r matches Ok(Command::SetTarget(t)) ==> t@ == json_number_of(
            args@[0]@,
        )),
        r matches Err(e) ==> e == InputError::NotANumber,
{
    if args.len() == 0 {
        return Ok(Command::Status);
    }
    match parse_target(args[0].as_str()) {
        Some(t) => Ok(Command::SetTarget(t)),
        None => Err(InputError::NotANumber),
    }
}

} // verus!
