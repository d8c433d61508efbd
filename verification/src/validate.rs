//! The check of a configuration file before anything is run on it: which
//! format version it declares, and whether it can be read as that version.

use vstd::prelude::*;
use vstd::string::StringExecFns;
use crate::toml_doc::{integer_entry, parse_toml, toml_text_entries};

verus! {

/// The only format version there is.
pub const SUPPORTED_VERSION: i64 = 1;

/// What the check finds of a configuration file.
#[derive(Debug, Clone, Copy, PartialEq, Eq, Structural)]
pub enum ConfigCheck {
    /// The file declares version 1 and reads as version 1.
    Valid,
    /// The file is not TOML.
    NotToml,
    /// The file has no `version` key.
    VersionMissing,
    /// The file's `version` is not an integer.
    VersionNotInteger,
    /// The file declares a version other than 1.
    UnsupportedVersion(i64),
    /// The file declares version 1 but does not read as it.
    BadFormat,
}

/// How a part of a message is set off.
#[derive(Debug, Clone, Copy, PartialEq, Eq, Structural)]
pub enum Emphasis {
    Red,
    Bold,
}

/// A part of a message, shown with one emphasis throughout.
#[derive(Debug)]
pub struct Fragment {
    pub text: String,
    pub emphasis: Emphasis,
}

/// The finding for a file whose `version` lookup gave `version`: nothing,
/// something that is no integer, or an integer. `fits_v1` tells whether
/// the file reads as version 1, and matters only where it declares that
/// version.
pub open spec fn judged(version: Option<Option<i64>>, fits_v1: bool) -> ConfigCheck {
    match version {
        None => ConfigCheck::VersionMissing,
        Some(None) => ConfigCheck::VersionNotInteger,
        Some(Some(number)) => if number != SUPPORTED_VERSION {
            ConfigCheck::UnsupportedVersion(number)
        } else if fits_v1 {
            ConfigCheck::Valid
        } else {
            ConfigCheck::BadFormat
        },
    }
}

/// The finding for a file with the given contents.
pub open spec fn checked(contents: Seq<char>, fits_v1: bool) -> ConfigCheck {
    match toml_text_entries(contents) {
        Some(entries) => judged(entries.get("version"@), fits_v1),
        None => ConfigCheck::NotToml,
    }
}

/// Whether a fragment shows `text` with `emphasis`.
pub open spec fn shows(fragment: Fragment, text: Seq<char>, emphasis: Emphasis) -> bool {
    fragment.text@ == text && fragment.emphasis == emphasis
}

/// Whether `text` is how the number is written out.
pub open spec fn spells(text: String, number: i64) -> bool {
    vstd::string::to_string_from_display_ensures::<i64>(&number, text)
}

/// Whether `message` is the explanation of a finding. A valid file needs
/// none; every other finding has its own wording, with the key's name and
/// the offending version set in bold.
pub open spec fn explains(message: Seq<Fragment>, check: ConfigCheck) -> bool {
    match check {
        ConfigCheck::Valid => message.len() == 0,
        ConfigCheck::NotToml => {
            &&& message.len() == 1
            &&& shows(message[0], "Could not parse config file as TOML"@, Emphasis::Red)
        },
        ConfigCheck::VersionMissing => {
            &&& message.len() == 3
            &&& shows(message[0], "Could not find "@, Emphasis::Red)
            &&& shows(message[1], "\"version\""@, Emphasis::Bold)
            &&& shows(
                message[2],
                " key. Can not determine config format version."@,
                Emphasis::Red,
            )
        },
        ConfigCheck::VersionNotInteger => {
            &&& message.len() == 2
            &&& shows(message[0], "\"version\""@, Emphasis::Bold)
            &&& shows(message[1], " must be an integer"@, Emphasis::Red)
        },
        ConfigCheck::UnsupportedVersion(number) => {
            &&& message.len() == 2
            &&& shows(message[0], "Invalid config format version "@, Emphasis::Red)
            &&& spells(message[1].text, number)
            &&& message[1].emphasis == Emphasis::Bold
        },
        ConfigCheck::BadFormat => {
            &&& message.len() == 1
            &&& shows(
                message[0],
                "Could not parse config file into expected config format"@,
                Emphasis::Red,
            )
        },
    }
}

/// Judges a file by what the lookup of its `version` key gave and by
/// whether it reads as version 1.
pub fn judge(version: Option<Option<i64>>, fits_v1: bool) -> (check: ConfigCheck)
    ensures
        check == judged(version, fits_v1),
{
    match version {
        None => ConfigCheck::VersionMissing,
        Some(None) => ConfigCheck::VersionNotInteger,
        Some(Some(number)) => if number != SUPPORTED_VERSION {
            ConfigCheck::UnsupportedVersion(number)
        } else if fits_v1 {
            ConfigCheck::Valid
        } else {
            ConfigCheck::BadFormat
        },
    }
}

/// Checks the contents of a configuration file. `fits_v1` is whether the
/// contents read as a version 1 configuration.
pub fn check_config(contents: &str, fits_v1: bool) -> (check: ConfigCheck)
    ensures
        check == checked(contents@, fits_v1),
{
    match parse_toml(contents) {
        Ok(document) => judge(integer_entry(&document, "version"), fits_v1),
        Err(_) => ConfigCheck::NotToml,
    }
}

fn fragment(text: &str, emphasis: Emphasis) -> (part: Fragment)
    ensures
        shows(part, text@, emphasis),
{
    Fragment { text: String::from_str(text), emphasis }
}

/// The message that explains a finding, part by part.
pub fn explain(check: ConfigCheck) -> (message: Vec<Fragment>)
    ensures
        explains(message@, check),
{
    let mut message: Vec<Fragment> = Vec::new();
    match check {
        ConfigCheck::Valid => {},
        ConfigCheck::NotToml => {
            message.push(fragment("Could not parse config file as TOML", Emphasis::Red));
        },
        ConfigCheck::VersionMissing => {
            message.push(fragment("Could not find ", Emphasis::Red));
            message.push(fragment("\"version\"", Emphasis::Bold));
            message.push(
                fragment(" key. Can not determine config format version.", Emphasis::Red),
            );
        },
        ConfigCheck::VersionNotInteger => {
            message.push(fragment("\"version\"", Emphasis::Bold));
            message.push(fragment(" must be an integer", Emphasis::Red));
        },
        ConfigCheck::UnsupportedVersion(number) => {
            message.push(fragment("Invalid config format version ", Emphasis::Red));
            message.push(Fragment { text: number.to_string(), emphasis: Emphasis::Bold });
        },
        ConfigCheck::BadFormat => {
            message.push(
                fragment("Could not parse config file into expected config format", Emphasis::Red),
            );
        },
    }
    message
}

} // verus!
