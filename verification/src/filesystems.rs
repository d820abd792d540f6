//! The filesystems-configuration command: the layout queries behind
//! the target system's filesystem description.

use vstd::prelude::*;

use crate::env;
use crate::filesystem;
use crate::gpt;
use crate::traits::Validate;
use crate::{Cmd, CmdModel};

verus! {

/// The filesystems-configuration command: derives the target system's
/// filesystem description from the finalized layout. The layout holds
/// the data; the caller renders and persists the text.
#[derive(Debug)]
pub struct Command {
    /// Host name.
    pub host: String,
    /// Name of the key file used to decrypt disks.
    pub key_filename: String,
}

impl Validate for Command {
    open spec fn valid_spec(&self) -> bool {
        self.host@.len() > 0 && self.key_filename@.len() > 0
    }

    fn is_valid(&self) -> (r: bool) {
        !self.host.as_str().is_empty() && !self.key_filename.as_str().is_empty()
    }
}

/// Some partition of the layout carries the pooled-filesystem type.
pub open spec fn layout_has_zfs(fs: filesystem::Filesystem) -> bool {
    exists|i: int, j: int|
        0 <= i < fs.disks@.len() && 0 <= j < fs.disks@[i].partitions@.len() && gpt::fs_type_of(
            (#[trigger] fs.disks@[i].partitions@[j]).config@.fs_type,
        ) == Some(gpt::FsType::Zfs)
}

/// Some pooled filesystem of a pool-typed partition is flagged root.
pub open spec fn layout_root_is_zfs(fs: filesystem::Filesystem) -> bool {
    exists|i: int, j: int, k: int|
        0 <= i < fs.disks@.len() && 0 <= j < fs.disks@[i].partitions@.len() && gpt::fs_type_of(
            fs.disks@[i].partitions@[j].config@.fs_type,
        ) == Some(gpt::FsType::Zfs) && 0 <= k < fs.disks@[i].partitions@[j].config@.zfs.len()
            && (#[trigger] fs.disks@[i].partitions@[j].config@.zfs[k]).is_root
}

/// The command that reads the machine's stable host identifier prefix.
pub open spec fn host_id_cmd() -> CmdModel {
    CmdModel { program: "head"@, args: seq!["-c"@, "8"@, "/etc/machine-id"@], stdin: None }
}

impl Command {
    /// Create an instance with everything still to fill in.
    pub fn new() -> (r: Self)
        ensures
            r.host@.len() == 0,
            r.key_filename@.len() == 0,
    {
        Command { host: String::new(), key_filename: String::new() }
    }

    /// Take the host name and key file name from the environment
    /// document.
    pub fn fill_with_env(&mut self, config: &env::Config)
        ensures
            final(self).host@ == config@.host,
            final(self).key_filename@ == config@.key_filename,
    {
        self.host = config.nixos.host.clone();
        self.key_filename = config.nixos.key_filename.clone();
    }

    /// The command whose output is the host identifier.
    pub fn get_host_id(&self) -> (r: Cmd)
        ensures
            r@ == host_id_cmd(),
    {
        let c = Cmd::new("head").arg("-c").arg("8").arg("/etc/machine-id");
        proof {
            assert(c@.args =~= host_id_cmd().args);
        }
        c
    }

    /// Whether the layout contains at least one pool-typed partition.
    pub fn has_zfs(&self, fs: &filesystem::Filesystem) -> (r: bool)
        ensures
            r == layout_has_zfs(*fs),
    {
        let dn = fs.disks.len();
        let mut i: usize = 0;
        while i < dn
            invariant
                dn == fs.disks@.len(),
                i <= dn,
                forall|i2: int, j2: int|
                    0 <= i2 < i && 0 <= j2 < fs.disks@[i2].partitions@.len() ==> gpt::fs_type_of(
                        (#[trigger] fs.disks@[i2].partitions@[j2]).config@.fs_type,
                    ) != Some(gpt::FsType::Zfs),
            decreases dn - i,
        {
            let pn = fs.disks[i].partitions.len();
            let mut j: usize = 0;
            while j < pn
                invariant
                    i < dn,
                    dn == fs.disks@.len(),
                    pn == fs.disks@[i as int].partitions@.len(),
                    j <= pn,
                    forall|j2: int| 0 <= j2 < j ==> gpt::fs_type_of(
                        (#[trigger] fs.disks@[i as int].partitions@[j2]).config@.fs_type,
                    ) != Some(gpt::FsType::Zfs),
                decreases pn - j,
            {
                match gpt::FsType::from_str(fs.disks[i].partitions[j].config.fs_type.as_str()) {
                    Ok(t) => {
                        match t {
                            gpt::FsType::Zfs => {
                                return true;
                            },
                            _ => (),
                        }
                    },
                    Err(_) => (),
                }
                j = j + 1;
            }
            i = i + 1;
        }
        false
    }

    /// Whether the root mount point lives on a pooled filesystem.
    pub fn is_root_zfs(&self, fs: &filesystem::Filesystem) -> (r: bool)
        ensures
            r == layout_root_is_zfs(*fs),
    {
        let dn = fs.disks.len();
        let mut i: usize = 0;
        while i < dn
            invariant
                dn == fs.disks@.len(),
                i <= dn,
                forall|i2: int, j2: int, k2: int|
                    0 <= i2 < i && 0 <= j2 < fs.disks@[i2].partitions@.len() && 0 <= k2
                        < fs.disks@[i2].partitions@[j2].config@.zfs.len() ==> !(gpt::fs_type_of(
                        fs.disks@[i2].partitions@[j2].config@.fs_type,
                    ) == Some(gpt::FsType::Zfs) && (
                    #[trigger] fs.disks@[i2].partitions@[j2].config@.zfs[k2]).is_root),
            decreases dn - i,
        {
            let pn = fs.disks[i].partitions.len();
            let mut j: usize = 0;
            while j < pn
                invariant
                    i < dn,
                    dn == fs.disks@.len(),
                    pn == fs.disks@[i as int].partitions@.len(),
                    j <= pn,
                    forall|j2: int, k2: int|
                        0 <= j2 < j && 0 <= k2
                            < fs.disks@[i as int].partitions@[j2].config@.zfs.len() ==> !(
                        gpt::fs_type_of(
                            fs.disks@[i as int].partitions@[j2].config@.fs_type,
                        ) == Some(gpt::FsType::Zfs) && (
                        #[trigger] fs.disks@[i as int].partitions@[j2].config@.zfs[k2]).is_root),
                decreases pn - j,
            {
                let is_zfs = match gpt::FsType::from_str(
                    fs.disks[i].partitions[j].config.fs_type.as_str(),
                ) {
                    Ok(t) => match t {
                        gpt::FsType::Zfs => true,
                        _ => false,
                    },
                    Err(_) => false,
                };
                if is_zfs {
                    let zn = fs.disks[i].partitions[j].config.zfs.len();
                    let mut k: usize = 0;
                    while k < zn
                        invariant
                            i < dn,
                            j < pn,
                            dn == fs.disks@.len(),
                            pn == fs.disks@[i as int].partitions@.len(),
                            zn == fs.disks@[i as int].partitions@[j as int].config@.zfs.len(),
                            k <= zn,
                            gpt::fs_type_of(
                                fs.disks@[i as int].partitions@[j as int].config@.fs_type,
                            ) == Some(gpt::FsType::Zfs),
                            forall|k2: int| 0 <= k2 < k ==> !fs.disks@[i as int].partitions@[
                                j as int
                            ].config@.zfs[k2].is_root,
                        decreases zn - k,
                    {
                        proof {
                            assert(fs.disks@[i as int].partitions@[j as int].config.zfs@[
                                k as int
                            ]@ == fs.disks@[i as int].partitions@[j as int].config@.zfs[k as int]);
                        }
                        if fs.disks[i].partitions[j].config.zfs[k].is_root {
                            return true;
                        }
                        k = k + 1;
                    }
                }
                j = j + 1;
            }
            i = i + 1;
        }
        false
    }
}

} // verus!
