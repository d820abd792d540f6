//! Block-level encryption: the commands that format, credential, open
//! and close an encrypted device, and the key-file derivation.

use vstd::prelude::*;

use crate::env;
use crate::error::Error;
use crate::strutil;
use crate::traits::Validate;
use crate::{Cmd, CmdModel, Step, StepModel};

verus! {

/// The mapper path of an encrypted device opened under a label.
pub fn mapper_path(label: &str) -> (r: String)
    ensures
        r@ == "/dev/mapper/"@ + label@,
{
    strutil::concat2("/dev/mapper/", label)
}

/// The command that initializes block-level encryption on a device, with
/// the passphrase piped to it.
pub open spec fn luks_format_cmd(device: Seq<char>, passphrase: Seq<char>) -> CmdModel {
    CmdModel {
        program: "cryptsetup"@,
        args: seq![
            "luksFormat"@,
            "-c"@,
            "aes-xts-plain64"@,
            "-s"@,
            "256"@,
            "-h"@,
            "sha512"@,
            "--type"@,
            "luks1"@,
            "-q"@,
            device,
            "-"@,
        ],
        stdin: Some(passphrase),
    }
}

/// Build the encryption-format command for a device.
pub fn format(device: &str, passphrase: &str) -> (r: Cmd)
    ensures
        r@ == luks_format_cmd(device@, passphrase@),
{
    let c = Cmd::new("cryptsetup")
        .arg("luksFormat")
        .arg("-c")
        .arg("aes-xts-plain64")
        .arg("-s")
        .arg("256")
        .arg("-h")
        .arg("sha512")
        .arg("--type")
        .arg("luks1")
        .arg("-q")
        .arg(device)
        .arg("-")
        .with_stdin(passphrase);
    proof {
        assert(c@.args =~= luks_format_cmd(device@, passphrase@).args);
    }
    c
}

/// The command that adds a key-file credential to an encrypted device,
/// with the passphrase piped to it.
pub open spec fn luks_add_key_cmd(
    device: Seq<char>,
    passphrase: Seq<char>,
    key_file: Seq<char>,
) -> CmdModel {
    CmdModel {
        program: "cryptsetup"@,
        args: seq!["luksAddKey"@, device, key_file, "-"@],
        stdin: Some(passphrase),
    }
}

/// Build the add-key command for a device.
pub fn add_key(device: &str, passphrase: &str, key_file: &str) -> (r: Cmd)
    ensures
        r@ == luks_add_key_cmd(device@, passphrase@, key_file@),
{
    let c = Cmd::new("cryptsetup").arg("luksAddKey").arg(device).arg(key_file).arg(
        "-",
    ).with_stdin(passphrase);
    proof {
        assert(c@.args =~= luks_add_key_cmd(device@, passphrase@, key_file@).args);
    }
    c
}

/// The command that opens an encrypted device under a label, with the
/// passphrase piped to it.
pub open spec fn luks_open_cmd(
    device: Seq<char>,
    passphrase: Seq<char>,
    label: Seq<char>,
) -> CmdModel {
    CmdModel {
        program: "cryptsetup"@,
        args: seq!["luksOpen"@, device, label, "-"@],
        stdin: Some(passphrase),
    }
}

/// The step that opens an encrypted device under a label, guarded by a
/// query of the device-mapper status: a mapping that is already active is
/// left alone.
pub open spec fn luks_open_step(
    device: Seq<char>,
    passphrase: Seq<char>,
    label: Seq<char>,
) -> StepModel {
    StepModel::RunIfNotActive { label: label, cmd: luks_open_cmd(device, passphrase, label) }
}

/// Build the guarded open step for an encrypted device.
pub fn open(device: &str, passphrase: &str, label: &str) -> (r: Step)
    ensures
        r@ == luks_open_step(device@, passphrase@, label@),
{
    let c = Cmd::new("cryptsetup").arg("luksOpen").arg(device).arg(label).arg("-").with_stdin(
        passphrase,
    );
    proof {
        assert(c@.args =~= luks_open_cmd(device@, passphrase@, label@).args);
    }
    Step::RunIfNotActive { label: label.to_owned(), cmd: c }
}

/// The command that closes the mapping opened under a label.
pub open spec fn luks_close_cmd(label: Seq<char>) -> CmdModel {
    CmdModel {
        program: "cryptsetup"@,
        args: seq!["luksClose"@, "/dev/mapper/"@ + label],
        stdin: None,
    }
}

/// Build the close command for a label.
pub fn close(label: &str) -> (r: Cmd)
    ensures
        r@ == luks_close_cmd(label@),
{
    let mapper = mapper_path(label);
    let c = Cmd::new("cryptsetup").arg("luksClose").arg(mapper.as_str());
    proof {
        assert(c@.args =~= luks_close_cmd(label@).args);
    }
    c
}

/// The command that queries the device-mapper status of a label.
pub open spec fn luks_status_cmd(label: Seq<char>) -> CmdModel {
    CmdModel { program: "cryptsetup"@, args: seq!["status"@, "/dev/mapper/"@ + label], stdin: None }
}

/// Build the status-query command for a label.
pub fn status(label: &str) -> (r: Cmd)
    ensures
        r@ == luks_status_cmd(label@),
{
    let mapper = mapper_path(label);
    let c = Cmd::new("cryptsetup").arg("status").arg(mapper.as_str());
    proof {
        assert(c@.args =~= luks_status_cmd(label@).args);
    }
    c
}

/// Read a status-query output: the mapping is open exactly when the
/// report says it is active.
pub fn is_opened(status_output: &str) -> (r: bool)
    ensures
        r == strutil::contains_seq(status_output@, "is active"@),
{
    strutil::contains_sub(status_output, "is active")
}

/// The raw key derived by the Argon2id password-hashing function, version
/// 0x13, from a password, a salt, and the given memory cost (KiB), pass
/// count, lane count and output length. A function of its arguments alone.
pub uninterp spec fn argon2id_digest(
    password: Seq<char>,
    salt: Seq<u8>,
    mem_cost: u32,
    iterations: u32,
    lanes: u32,
    hash_length: u32,
) -> Seq<u8>;

/// Relies on argon2::hash_raw of the rust-argon2 crate, with the Argon2id
/// variant and version 0x13: it returns a digest of exactly `hash_length`
/// bytes, and its validation admits every input within the bounds stated
/// below: lanes in [1, 0xFFFFFF], memory between 8 KiB (and 8 KiB per
/// lane) and the crate's cap of 0x200000 KiB, at least one pass, salt of
/// 8 bytes or more, output of 4 bytes or more, lengths within 32 bits
/// (UTF-8 writes each character of the password in at most four bytes).
#[verifier::external_body]
fn argon2id_hash(
    password: &str,
    salt: &[u8],
    mem_cost: u32,
    iterations: u32,
    lanes: u32,
    hash_length: u32,
) -> (r: Option<Vec<u8>>)
    ensures
        r matches Some(h) ==> h@ == argon2id_digest(
            password@,
            salt@,
            mem_cost,
            iterations,
            lanes,
            hash_length,
        ) && h@.len() == hash_length,
        (1 <= lanes <= 0xFFFFFF && 8 <= mem_cost <= 0x20_0000 && 8 * lanes <= mem_cost && 1
            <= iterations && 8 <= salt@.len() <= 0xFFFF_FFFFu64 && password@.len() * 4
            <= 0xFFFF_FFFFu64 && 4 <= hash_length) ==> r is Some,
{
    let config = argon2::Config {
        ad: &[],
        hash_length,
        lanes,
        mem_cost,
        secret: &[],
        time_cost: iterations,
        variant: argon2::Variant::Argon2id,
        version: argon2::Version::Version13,
    };
    match argon2::hash_raw(password.as_bytes(), salt, &config) {
        Ok(h) => Some(h),
        Err(_) => None,
    }
}

/// The key-file command: derives a raw key from a password and salt data,
/// for the caller to write to the key file.
#[derive(Debug)]
pub struct Command {
    /// Number of passes of the hashing function.
    pub iterations: u32,
    /// Size in bytes of the key to be generated.
    pub key_size: u32,
    /// Output file.
    pub output: String,
    /// Password the key is derived from.
    pub password: String,
    /// Path of the file holding the salt data.
    pub salt: String,
}

impl Validate for Command {
    open spec fn valid_spec(&self) -> bool {
        self.iterations > 0 && self.key_size > 0 && self.output@.len() > 0 && self.password@.len()
            > 0 && self.salt@.len() > 0
    }

    fn is_valid(&self) -> (r: bool) {
        self.iterations > 0 && self.key_size > 0 && !self.output.as_str().is_empty()
            && !self.password.as_str().is_empty() && !self.salt.as_str().is_empty()
    }
}

impl Command {
    /// Create an instance with the default key size and everything else
    /// still to fill in.
    pub fn new() -> (r: Self)
        ensures
            r.iterations == 0,
            r.key_size == 4096,
            r.output@.len() == 0,
            r.password@.len() == 0,
            r.salt@.len() == 0,
    {
        Command {
            iterations: 0,
            key_size: 4096,
            output: String::new(),
            password: String::new(),
            salt: String::new(),
        }
    }

    /// Take the output path from the environment document.
    pub fn fill_with_env(&mut self, config: &env::Config)
        ensures
            final(self).output@ == config@.key_file,
            final(self).iterations == old(self).iterations,
            final(self).key_size == old(self).key_size,
            final(self).password == old(self).password,
            final(self).salt == old(self).salt,
    {
        self.output = config.nixos.key_file.clone();
    }

    /// Derive the raw key from the password and the given salt data with
    /// a memory cost of 65536 KiB over 4 lanes.
    pub fn derive_key(&self, salt_data: &Vec<u8>) -> (r: Result<Vec<u8>, Error>)
        ensures
            r matches Ok(h) ==> h@ == argon2id_digest(
                self.password@,
                salt_data@,
                65536,
                self.iterations,
                4,
                self.key_size,
            ) && h@.len() == self.key_size,
            (1 <= self.iterations && 8 <= salt_data@.len() <= 0xFFFF_FFFFu64
                && self.password@.len() * 4 <= 0xFFFF_FFFFu64 && 4 <= self.key_size) ==> r is Ok,
            r matches Err(e) ==> e@.kind is Generic && e@.description
                == "Error while trying to hash password"@,
    {
        match argon2id_hash(
            self.password.as_str(),
            salt_data.as_slice(),
            65536,
            self.iterations,
            4,
            self.key_size,
        ) {
            Some(h) => Ok(h),
            None => Err(Error::generic("Error while trying to hash password")),
        }
    }
}

} // verus!
