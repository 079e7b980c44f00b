use std::collections::HashMap;

use vstd::prelude::*;
use vstd::string::*;

use crate::config::{ConfigFile, DeviceConfig};

verus! {

/// The prompt for the host name, mentioning the current one if any.
pub open spec fn host_prompt_text(current: Option<Seq<char>>) -> Seq<char> {
    match current {
        Some(host) => "Enter hostname or leave empty to keep "@ + host + ":"@,
        None => "Enter hostname:"@,
    }
}

/// The text of an optional string.
pub open spec fn opt_text(s: Option<String>) -> Option<Seq<char>> {
    match s {
        Some(t) => Some(t@),
        None => None,
    }
}

/// The prompt for the host name.
pub fn host_prompt(current: &Option<String>) -> (r: String)
    ensures
        r@ == host_prompt_text(opt_text(*current)),
{
    match current {
        Some(host) => String::from_str("Enter hostname or leave empty to keep ").concat(host.as_str()).concat(":"),
        None => String::from_str("Enter hostname:"),
    }
}

/// The prompt for the token; the current token itself is not shown.
pub fn token_prompt(current: &Option<String>) -> (r: &'static str)
    ensures
        r@ == if current is Some { "Enter token or leave empty to keep as is:"@ } else { "Enter token:"@ },
{
    match current {
        Some(_) => "Enter token or leave empty to keep as is:",
        None => "Enter token:",
    }
}

/// The value chosen from an answer: an empty answer keeps the current
/// value, any other answer replaces it.
pub fn keep_or_replace(current: Option<String>, input: String) -> (r: Option<String>)
    ensures
        input@.len() == 0 ==> r == current,
        input@.len() > 0 ==> r == Some(input),
{
    if input.as_str().is_empty() {
        current
    } else {
        Some(input)
    }
}

/// The configuration file to save after the questions: `None` when no host
/// name is known (the wizard then stops), otherwise the chosen host and
/// token with the device preferences kept.
pub fn login_config(
    host: Option<String>,
    token: Option<String>,
    devices: Option<HashMap<u32, DeviceConfig>>,
) -> (r: Option<ConfigFile>)
    ensures
        host is None ==> r is None,
        host is Some ==> (r matches Some(c) && c.host == host && c.token == token && c.devices == devices),
{
    match host {
        None => None,
        Some(h) => Some(ConfigFile { host: Some(h), token, devices }),
    }
}

} // verus!
