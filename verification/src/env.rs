//! The environment document shared between the setup steps, and the
//! environment-preparation command.

use vstd::prelude::*;

use crate::strutil;
use crate::traits::Validate;
use crate::{Cmd, CmdModel};

verus! {

/// The `nixos` node of the environment document.
#[derive(Debug)]
pub struct NixOSConfig {
    /// The host name to be set up.
    pub host: String,
    /// The hardware name to be set up.
    pub hardware: String,
    /// The path of the key file used for unlocking disks.
    pub key_file: String,
    /// The file name of the key file.
    pub key_filename: String,
}

/// Mathematical model of the `nixos` node.
pub struct NixOSConfigModel {
    pub host: Seq<char>,
    pub hardware: Seq<char>,
    pub key_file: Seq<char>,
    pub key_filename: Seq<char>,
}

impl View for NixOSConfig {
    type V = NixOSConfigModel;

    open spec fn view(&self) -> NixOSConfigModel {
        NixOSConfigModel {
            host: self.host@,
            hardware: self.hardware@,
            key_file: self.key_file@,
            key_filename: self.key_filename@,
        }
    }
}

impl Validate for NixOSConfig {
    open spec fn valid_spec(&self) -> bool {
        self@.host.len() > 0 && self@.hardware.len() > 0 && self@.key_file.len() > 0
            && self@.key_filename.len() > 0
    }

    fn is_valid(&self) -> (r: bool) {
        !self.host.as_str().is_empty() && !self.hardware.as_str().is_empty()
            && !self.key_file.as_str().is_empty() && !self.key_filename.as_str().is_empty()
    }
}

/// The environment document: what the setup steps share between runs.
#[derive(Debug)]
pub struct Config {
    /// The `nixos` node.
    pub nixos: NixOSConfig,
}

impl View for Config {
    type V = NixOSConfigModel;

    open spec fn view(&self) -> NixOSConfigModel {
        self.nixos@
    }
}

impl Validate for Config {
    open spec fn valid_spec(&self) -> bool {
        self.nixos.valid_spec()
    }

    fn is_valid(&self) -> (r: bool) {
        self.nixos.is_valid()
    }
}

/// The path of the key file: the chosen directory joined with the key's
/// file name.
pub fn key_file_path(dir: &str, key_filename: &str) -> (r: String)
    ensures
        r@ == dir@ + "/"@ + key_filename@,
{
    strutil::concat3(dir, "/", key_filename)
}

/// The environment-setup command: keyboard layout and optional wireless
/// credentials around the environment document that the caller persists.
#[derive(Debug)]
pub struct Command {
    /// The SSID of the WiFi network.
    pub wpa_ssid: String,
    /// The password of the WiFi network.
    pub wpa_password: String,
    /// The configuration to persist.
    pub config: Config,
}

impl Validate for Command {
    open spec fn valid_spec(&self) -> bool {
        self.config.valid_spec()
    }

    fn is_valid(&self) -> (r: bool) {
        self.config.is_valid()
    }
}

/// The command that selects the French keyboard layout.
pub open spec fn loadkeys_cmd() -> CmdModel {
    CmdModel { program: "loadkeys"@, args: seq!["fr"@], stdin: None }
}

/// The command that renders a wireless-supplicant configuration.
pub open spec fn wpa_passphrase_cmd(ssid: Seq<char>, password: Seq<char>) -> CmdModel {
    CmdModel { program: "wpa_passphrase"@, args: seq![ssid, password], stdin: None }
}

/// The command that restarts the wireless service.
pub open spec fn wpa_restart_cmd() -> CmdModel {
    CmdModel { program: "systemctl"@, args: seq!["restart"@, "wpa_supplicant"@], stdin: None }
}

impl Command {
    /// Create an instance with everything still to fill in.
    pub fn new() -> (r: Self)
        ensures
            r.wpa_ssid@.len() == 0,
            r.wpa_password@.len() == 0,
            r.config@.host.len() == 0,
            r.config@.hardware.len() == 0,
            r.config@.key_file.len() == 0,
            r.config@.key_filename.len() == 0,
    {
        Command {
            wpa_ssid: String::new(),
            wpa_password: String::new(),
            config: Config {
                nixos: NixOSConfig {
                    host: String::new(),
                    hardware: String::new(),
                    key_file: String::new(),
                    key_filename: String::new(),
                },
            },
        }
    }

    /// The command that configures the keyboard layout.
    pub fn setup_keyboard_layout(&self) -> (r: Cmd)
        ensures
            r@ == loadkeys_cmd(),
    {
        let c = Cmd::new("loadkeys").arg("fr");
        proof {
            assert(c@.args =~= loadkeys_cmd().args);
        }
        c
    }

    /// The wireless setup: the command whose output is the supplicant
    /// configuration to persist, and the command that restarts the
    /// service afterwards. Nothing to do without both SSID and password.
    pub fn setup_wpa_supplicant(&self) -> (r: Option<(Cmd, Cmd)>)
        ensures
            (self.wpa_ssid@.len() == 0 || self.wpa_password@.len() == 0) <==> r is None,
            r matches Some(p) ==> p.0@ == wpa_passphrase_cmd(self.wpa_ssid@, self.wpa_password@)
                && p.1@ == wpa_restart_cmd(),
    {
        if self.wpa_ssid.as_str().is_empty() || self.wpa_password.as_str().is_empty() {
            return None;
        }
        let generate = Cmd::new("wpa_passphrase").arg(self.wpa_ssid.as_str()).arg(
            self.wpa_password.as_str(),
        );
        let restart = Cmd::new("systemctl").arg("restart").arg("wpa_supplicant");
        proof {
            assert(generate@.args =~= wpa_passphrase_cmd(self.wpa_ssid@, self.wpa_password@).args);
            assert(restart@.args =~= wpa_restart_cmd().args);
        }
        Some((generate, restart))
    }
}

} // verus!
