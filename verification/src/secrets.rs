//! The secrets command: locating the root-hosting node and placing
//! the key file under the fixed secrets path.

use vstd::prelude::*;

use crate::disk;
use crate::disk::{Disk, RoleHandle};
use crate::env;
use crate::error::Error;
use crate::lvm;
use crate::partition::Partition;
use crate::strutil;
use crate::traits::{Mountable, Validate};
use crate::zfs;
use crate::{Cmd, CmdModel};

verus! {

/// The secrets command: locates the node that hosts the system root,
/// mounts it, installs the key file under the fixed secrets path, and
/// unmounts it again. The file copy itself is the caller's work.
#[derive(Debug)]
pub struct Command {
    /// Host name.
    pub host: String,
    /// Password used to decrypt disks.
    pub password: String,
    /// Key file to install.
    pub key_file: String,
    /// File name of the key.
    pub key_filename: String,
}

impl Validate for Command {
    open spec fn valid_spec(&self) -> bool {
        self.host@.len() > 0 && self.key_file@.len() > 0 && self.key_filename@.len() > 0
    }

    fn is_valid(&self) -> (r: bool) {
        !self.host.as_str().is_empty() && !self.key_file.as_str().is_empty()
            && !self.key_filename.as_str().is_empty()
    }
}

/// The key-file target across the layout: inside the first system disk
/// that has one, the node the root search finds.
pub open spec fn keyfile_target(disks: Seq<Disk>, i: int) -> Option<(int, RoleHandle)>
    decreases disks.len() - i,
{
    if i < 0 || i >= disks.len() {
        None
    } else if disks[i].config.contains_system && disk::find_root_spec(disks[i].partitions@, 0)
        is Some {
        Some((i, disk::find_root_spec(disks[i].partitions@, 0).unwrap()))
    } else {
        keyfile_target(disks, i + 1)
    }
}

/// The command that locks down the installed key file.
pub open spec fn chmod_cmd(path: Seq<char>) -> CmdModel {
    CmdModel { program: "chmod"@, args: seq!["000"@, path], stdin: None }
}

impl Command {
    /// Create an instance with everything still to fill in.
    pub fn new() -> (r: Self)
        ensures
            r.host@.len() == 0,
            r.password@.len() == 0,
            r.key_file@.len() == 0,
            r.key_filename@.len() == 0,
    {
        Command {
            host: String::new(),
            password: String::new(),
            key_file: String::new(),
            key_filename: String::new(),
        }
    }

    /// Take the host name and key file identity from the environment
    /// document.
    pub fn fill_with_env(&mut self, config: &env::Config)
        ensures
            final(self).host@ == config@.host,
            final(self).key_file@ == config@.key_file,
            final(self).key_filename@ == config@.key_filename,
            final(self).password == old(self).password,
    {
        self.host = config.nixos.host.clone();
        self.key_file = config.nixos.key_file.clone();
        self.key_filename = config.nixos.key_filename.clone();
    }

    /// Locate the node that receives the key file.
    pub fn install_keyfile(&self, fs: &crate::filesystem::Filesystem) -> (r: Option<
        (usize, RoleHandle),
    >)
        ensures
            match keyfile_target(fs.disks@, 0) {
                Some(t) => r matches Some(got) && got.0 == t.0 && got.1 == t.1,
                None => r is None,
            },
    {
        let dn = fs.disks.len();
        let mut i: usize = 0;
        while i < dn
            invariant
                dn == fs.disks@.len(),
                i <= dn,
                keyfile_target(fs.disks@, 0) == keyfile_target(fs.disks@, i as int),
            decreases dn - i,
        {
            if fs.disks[i].config.contains_system {
                match fs.disks[i].find_root_partition() {
                    Ok(h) => {
                        return Some((i, h));
                    },
                    Err(_) => (),
                }
            }
            i = i + 1;
        }
        None
    }

    /// The destination of the key file under a mounted root.
    pub fn keyfile_destination(&self, root: &str) -> (r: String)
        ensures
            r@ == root@ + "/etc/secrets/disks/"@ + self.key_filename@,
    {
        strutil::concat3(root, "/etc/secrets/disks/", self.key_filename.as_str())
    }

    /// The command that locks down the installed key file.
    pub fn chmod_keyfile(&self, path: &str) -> (r: Cmd)
        ensures
            r@ == chmod_cmd(path@),
    {
        let c = Cmd::new("chmod").arg("000").arg(path);
        proof {
            assert(c@.args =~= chmod_cmd(path@).args);
        }
        c
    }

    /// Mount the root-hosting partition and unmount it again, yielding
    /// the two commands with the key file installed in between.
    pub fn install_keyfile_in_partition(&self, root: &str, partition: &mut Partition) -> (r:
        Result<(Option<Cmd>, Option<Cmd>), Error>)
        ensures
            old(partition).config@.device_by_id is Some ==> (r matches Ok(p) && p.1 matches Some(
                u,
            ) && u@ == (CmdModel {
                program: "umount"@,
                args: seq![old(partition).config@.device_by_id.unwrap()],
                stdin: None,
            }) && !final(partition).mounted),
            !old(partition).mounted && old(partition).config@.device_by_id is Some ==> (r matches
                Ok(p) && p.0 matches Some(m) && m@ == (CmdModel {
                program: "mount"@,
                args: seq![old(partition).config@.device_by_id.unwrap(), root@],
                stdin: None,
            }) && *final(partition) == *old(partition)),
            old(partition).config@.device_by_id is None ==> (r matches Err(e) && e@.kind
                is Generic && *final(partition) == *old(partition)),
    {
        let m = partition.mount(root)?;
        let u = partition.unmount()?;
        Ok((m, u))
    }

    /// Mount the root-hosting volume and unmount it again, yielding the
    /// two commands with the key file installed in between.
    pub fn install_keyfile_in_volume(&self, root: &str, volume: &mut lvm::Volume) -> (r: Result<
        (Option<Cmd>, Option<Cmd>),
        Error,
    >)
        ensures
            old(volume).config@.device is Some ==> (r matches Ok(p) && p.1 matches Some(u) && u@
                == (CmdModel {
                program: "umount"@,
                args: seq![old(volume).config@.device.unwrap()],
                stdin: None,
            }) && !final(volume).mounted),
            !old(volume).mounted && old(volume).config@.device is Some ==> (r matches Ok(p) && p.0
                matches Some(m) && m@ == (CmdModel {
                program: "mount"@,
                args: seq![old(volume).config@.device.unwrap(), root@],
                stdin: None,
            }) && *final(volume) == *old(volume)),
            old(volume).config@.device is None ==> (r matches Err(e) && e@.kind is Generic
                && *final(volume) == *old(volume)),
    {
        let m = volume.mount(root)?;
        let u = volume.unmount()?;
        Ok((m, u))
    }

    /// Mount the root-hosting pooled filesystem and unmount it again,
    /// yielding the two commands with the key file installed in
    /// between.
    pub fn install_keyfile_in_zfs_fs(&self, root: &str, fs: &mut zfs::Filesystem) -> (r: Result<
        (Option<Cmd>, Option<Cmd>),
        Error,
    >)
        ensures
            r matches Ok(p) && p.1 matches Some(u) && u@ == (CmdModel {
                program: "umount"@,
                args: seq![old(fs).pool@ + "/"@ + old(fs).config@.name],
                stdin: None,
            }) && !final(fs).mounted,
            !old(fs).mounted ==> (r matches Ok(p) && p.0 matches Some(m) && m@ == (CmdModel {
                program: "mount"@,
                args: seq!["-t"@, "zfs"@, old(fs).pool@ + "/"@ + old(fs).config@.name, root@],
                stdin: None,
            }) && *final(fs) == *old(fs)),
    {
        let m = fs.mount(root)?;
        let u = fs.unmount()?;
        Ok((m, u))
    }
}

} // verus!
