use std::collections::HashMap;
use std::path::PathBuf;

use vstd::prelude::*;

use crate::reporter::Landmark;

verus! {

/// Per-device preferences as the configuration file holds them.
#[derive(Debug)]
pub struct DeviceConfig {
    pub display_name: Option<String>,
    pub report_timeout_seconds: Option<u32>,
    pub predict_update_interval_seconds: Option<u32>,
}

impl Clone for DeviceConfig {
    fn clone(&self) -> (r: Self)
        ensures
            r == *self,
    {
        DeviceConfig {
            display_name: match &self.display_name {
                Some(n) => Some(n.clone()),
                None => None,
            },
            report_timeout_seconds: self.report_timeout_seconds,
            predict_update_interval_seconds: self.predict_update_interval_seconds,
        }
    }
}

/// The raw configuration file.
#[derive(Debug)]
pub struct ConfigFile {
    pub host: Option<String>,
    pub token: Option<String>,
    pub devices: Option<HashMap<u32, DeviceConfig>>,
}

/// The path that `Path::join` makes of a directory path and a file name.
pub uninterp spec fn joined_path(dir: PathBuf, name: Seq<char>) -> PathBuf;

/// Joins a file name to a directory path with `std::path::Path::join`; the
/// result is named, not described.
#[verifier::external_body]
fn join_path(dir: &PathBuf, name: &str) -> (r: PathBuf)
    ensures
        r == joined_path(*dir, name@),
{
    dir.join(name)
}

/// Where the configuration lives: a directory, its landmark file and its
/// configuration file.
#[derive(Debug)]
pub struct ConfigBase {
    dir: PathBuf,
    landmarks: PathBuf,
    config_file: PathBuf,
}

impl ConfigBase {
    /// The configuration directory.
    pub closed spec fn dir_path(&self) -> PathBuf {
        self.dir
    }

    /// The landmark file.
    pub closed spec fn landmarks_path(&self) -> PathBuf {
        self.landmarks
    }

    /// The configuration file.
    pub closed spec fn config_file_path(&self) -> PathBuf {
        self.config_file
    }

    /// The configuration of a directory, given its canonical path: its
    /// landmarks are in "landmarks.json" and its settings in "config.json".
    pub fn new(path: PathBuf) -> (c: Self)
        ensures
            c.dir_path() == path,
            c.landmarks_path() == joined_path(path, "landmarks.json"@),
            c.config_file_path() == joined_path(path, "config.json"@),
    {
        Self {
            landmarks: join_path(&path, "landmarks.json"),
            config_file: join_path(&path, "config.json"),
            dir: path,
        }
    }

    /// The configuration directory.
    pub fn dir(&self) -> (r: &PathBuf)
        ensures
            *r == self.dir_path(),
    {
        &self.dir
    }

    /// The landmark file.
    pub fn landmarks_file(&self) -> (r: &PathBuf)
        ensures
            *r == self.landmarks_path(),
    {
        &self.landmarks
    }

    /// The configuration file.
    pub fn config_file(&self) -> (r: &PathBuf)
        ensures
            *r == self.config_file_path(),
    {
        &self.config_file
    }
}

/// The configuration as most of the application needs it.
#[derive(Debug)]
pub struct AppConfig {
    landmarks: Vec<Landmark>,
    host: String,
    token: String,
    devices: HashMap<u32, DeviceConfig>,
}

/// The mathematical value of an [`AppConfig`].
pub struct AppConfigView {
    pub landmarks: Seq<Landmark>,
    pub host: Seq<char>,
    pub token: Seq<char>,
    pub devices: Map<u32, DeviceConfig>,
}

impl View for AppConfig {
    type V = AppConfigView;

    closed spec fn view(&self) -> AppConfigView {
        AppConfigView {
            landmarks: self.landmarks@,
            host: self.host@,
            token: self.token@,
            devices: self.devices@,
        }
    }
}

/// A configuration file is complete when it names a host, a token and the
/// device preferences.
pub open spec fn is_complete(file: &ConfigFile) -> bool {
    &&& file.host is Some
    &&& file.token is Some
    &&& file.devices is Some
}

/// Whether a configuration file names a host, a token and the device
/// preferences.
pub fn is_complete_file(file: &ConfigFile) -> (r: bool)
    ensures
        r == is_complete(file),
{
    file.host.is_some() && file.token.is_some() && file.devices.is_some()
}

impl AppConfig {
    /// The configuration from a complete configuration file and landmarks.
    pub fn from_config_file(file: &ConfigFile, landmarks: Vec<Landmark>) -> (c: Self)
        requires
            is_complete(file),
        ensures
            c@.landmarks == landmarks@,
            c@.host == file.host->0@,
            c@.token == file.token->0@,
            c@.devices == file.devices->0@,
    {
        let host = match &file.host {
            Some(h) => h.clone(),
            None => String::new(),
        };
        let token = match &file.token {
            Some(t) => t.clone(),
            None => String::new(),
        };
        let devices = match &file.devices {
            Some(d) => d.clone(),
            None => HashMap::new(),
        };
        Self { landmarks, host, token, devices }
    }

    /// The landmarks.
    pub fn landmarks(&self) -> (r: &[Landmark])
        ensures
            r@ == self@.landmarks,
    {
        self.landmarks.as_slice()
    }

    /// The server's address.
    pub fn host(&self) -> (r: &str)
        ensures
            r@ == self@.host,
    {
        self.host.as_str()
    }

    /// The access token.
    pub fn token(&self) -> (r: &str)
        ensures
            r@ == self@.token,
    {
        self.token.as_str()
    }

    /// The preferences of a device, if it has any.
    pub fn device_config(&self, id: u32) -> (r: Option<&DeviceConfig>)
        ensures
            match r {
                Some(c) => self@.devices.contains_key(id) && *c == self@.devices[id],
                None => !self@.devices.contains_key(id),
            },
    {
        self.devices.get(&id)
    }

    /// The preferences of all devices.
    pub fn device_config_list(&self) -> (r: &HashMap<u32, DeviceConfig>)
        ensures
            r@ == self@.devices,
    {
        &self.devices
    }
}

} // verus!
