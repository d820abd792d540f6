//! The system-install command: the repository decision and the
//! installer invocation around the mounted layout.

use vstd::prelude::*;

use crate::env;
use crate::strutil;
use crate::traits::Validate;
use crate::{Cmd, CmdModel};

verus! {

/// The system-install command: mounts the finalized layout's root and
/// boot targets, installs the configuration repository, and runs the
/// system installer. The mounting goes through the Role Locator; this
/// command carries the decisions around it.
#[derive(Debug)]
pub struct Command {
    /// Host name.
    pub host: String,
    /// Password used to decrypt disks.
    pub password: String,
    /// Path of the configuration directory or repository.
    pub repo: String,
    /// Key file used to decrypt disks.
    pub key_file: String,
}

impl Validate for Command {
    open spec fn valid_spec(&self) -> bool {
        self.host@.len() > 0 && self.repo@.len() > 0 && self.key_file@.len() > 0
    }

    fn is_valid(&self) -> (r: bool) {
        !self.host.as_str().is_empty() && !self.repo.as_str().is_empty()
            && !self.key_file.as_str().is_empty()
    }
}

/// The command that clones a remote repository to the local scratch
/// checkout.
pub open spec fn clone_cmd(repo: Seq<char>) -> CmdModel {
    CmdModel { program: "git"@, args: seq!["clone"@, repo, "/tmp/repo-nixos"@], stdin: None }
}

/// The command that copies the configuration tree into place.
pub open spec fn copy_repository_cmd(source: Seq<char>, dest: Seq<char>) -> CmdModel {
    CmdModel { program: "cp"@, args: seq!["-rf"@, source, dest], stdin: None }
}

/// The command that runs the system installer against a mounted root.
pub open spec fn installer_cmd(root: Seq<char>) -> CmdModel {
    CmdModel {
        program: "nixos-install"@,
        args: seq!["--no-root-passwd"@, "--root"@, root],
        stdin: None,
    }
}

impl Command {
    /// Create an instance with everything still to fill in.
    pub fn new() -> (r: Self)
        ensures
            r.host@.len() == 0,
            r.password@.len() == 0,
            r.repo@.len() == 0,
            r.key_file@.len() == 0,
    {
        Command {
            host: String::new(),
            password: String::new(),
            repo: String::new(),
            key_file: String::new(),
        }
    }

    /// Take the host name and key file path from the environment
    /// document.
    pub fn fill_with_env(&mut self, config: &env::Config)
        ensures
            final(self).host@ == config@.host,
            final(self).key_file@ == config@.key_file,
            final(self).password == old(self).password,
            final(self).repo == old(self).repo,
    {
        self.host = config.nixos.host.clone();
        self.key_file = config.nixos.key_file.clone();
    }

    /// Decide where the configuration tree comes from: a remote
    /// repository is cloned to the local scratch checkout first, a
    /// local directory is used as it is.
    pub fn repository_source(&self) -> (r: (Option<Cmd>, String))
        ensures
            ("https://github.com"@.len() <= self.repo@.len() && self.repo@.subrange(
                0,
                "https://github.com"@.len() as int,
            ) == "https://github.com"@) ==> (r.0 matches Some(c) && c@ == clone_cmd(self.repo@)
                && r.1@ == "/tmp/repo-nixos"@),
            !("https://github.com"@.len() <= self.repo@.len() && self.repo@.subrange(
                0,
                "https://github.com"@.len() as int,
            ) == "https://github.com"@) ==> (r.0 is None && r.1@ == self.repo@),
    {
        if strutil::starts_with(self.repo.as_str(), "https://github.com") {
            let c = Cmd::new("git").arg("clone").arg(self.repo.as_str()).arg("/tmp/repo-nixos");
            proof {
                assert(c@.args =~= clone_cmd(self.repo@).args);
            }
            (Some(c), "/tmp/repo-nixos".to_owned())
        } else {
            (None, self.repo.clone())
        }
    }

    /// The command that copies the configuration tree to its place.
    pub fn install_repository(&self, source: &str, dest: &str) -> (r: Cmd)
        ensures
            r@ == copy_repository_cmd(source@, dest@),
    {
        let c = Cmd::new("cp").arg("-rf").arg(source).arg(dest);
        proof {
            assert(c@.args =~= copy_repository_cmd(source@, dest@).args);
        }
        c
    }

    /// The command that runs the system installer.
    pub fn run_nixos_installer(&self, root: &str) -> (r: Cmd)
        ensures
            r@ == installer_cmd(root@),
    {
        let c = Cmd::new("nixos-install").arg("--no-root-passwd").arg("--root").arg(root);
        proof {
            assert(c@.args =~= installer_cmd(root@).args);
        }
        c
    }
}

} // verus!
