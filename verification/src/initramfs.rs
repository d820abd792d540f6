//! The initramfs command: locating the root-hosting node and the
//! mount pair around the archive generation.

use vstd::prelude::*;

use crate::disk;
use crate::disk::{Disk, RoleHandle};
use crate::env;
use crate::error::Error;
use crate::lvm;
use crate::partition::Partition;
use crate::traits::{Mountable, Validate};
use crate::{Cmd, CmdModel};

verus! {

/// The initramfs command: locates the node that hosts the system root,
/// mounts it, writes the key archive there, and unmounts it again. The
/// archive generation itself is the caller's work.
#[derive(Debug)]
pub struct Command {
    /// Host name.
    pub host: String,
    /// Password used to decrypt disks.
    pub password: String,
    /// Key file packed into the archive.
    pub key_file: String,
    /// File name of the key.
    pub key_filename: String,
}

impl Validate for Command {
    open spec fn valid_spec(&self) -> bool {
        self.host@.len() > 0 && self.key_file@.len() > 0 && self.key_filename@.len() > 0
    }

    fn is_valid(&self) -> (r: bool) {
        !self.host.as_str().is_empty() && !self.key_file.as_str().is_empty()
            && !self.key_filename.as_str().is_empty()
    }
}

/// The archive target inside one system disk: the first root-flagged
/// partition, else the first root-flagged volume of a system partition.
/// Pooled filesystems cannot receive the archive.
pub open spec fn archive_target_in(parts: Seq<Partition>, j: int) -> Option<RoleHandle>
    decreases parts.len() - j,
{
    if j < 0 || j >= parts.len() {
        None
    } else if parts[j].config.is_root {
        Some(RoleHandle::Partition(j as usize))
    } else if parts[j].config.is_system && disk::first_root_volume(parts[j].lvm.volumes@, 0)
        is Some {
        Some(
            RoleHandle::Volume(
                j as usize,
                disk::first_root_volume(parts[j].lvm.volumes@, 0).unwrap() as usize,
            ),
        )
    } else {
        archive_target_in(parts, j + 1)
    }
}

/// The archive target across the layout: the first system disk's
/// target, searched in disk order.
pub open spec fn archive_target(disks: Seq<Disk>, i: int) -> Option<(int, RoleHandle)>
    decreases disks.len() - i,
{
    if i < 0 || i >= disks.len() {
        None
    } else if disks[i].config.contains_system && archive_target_in(disks[i].partitions@, 0)
        is Some {
        Some((i, archive_target_in(disks[i].partitions@, 0).unwrap()))
    } else {
        archive_target(disks, i + 1)
    }
}

impl Command {
    /// Create an instance with everything still to fill in.
    pub fn new() -> (r: Self)
        ensures
            r.host@.len() == 0,
            r.password@.len() == 0,
            r.key_file@.len() == 0,
            r.key_filename@.len() == 0,
    {
        Command {
            host: String::new(),
            password: String::new(),
            key_file: String::new(),
            key_filename: String::new(),
        }
    }

    /// Take the host name and key file identity from the environment
    /// document.
    pub fn fill_with_env(&mut self, config: &env::Config)
        ensures
            final(self).host@ == config@.host,
            final(self).key_file@ == config@.key_file,
            final(self).key_filename@ == config@.key_filename,
            final(self).password == old(self).password,
    {
        self.host = config.nixos.host.clone();
        self.key_file = config.nixos.key_file.clone();
        self.key_filename = config.nixos.key_filename.clone();
    }

    /// Locate the node that receives the initramfs archive.
    pub fn generate_initramfs(&self, fs: &crate::filesystem::Filesystem) -> (r: Option<
        (usize, RoleHandle),
    >)
        ensures
            match archive_target(fs.disks@, 0) {
                Some(t) => r matches Some(got) && got.0 == t.0 && got.1 == t.1,
                None => r is None,
            },
    {
        let dn = fs.disks.len();
        let mut i: usize = 0;
        while i < dn
            invariant
                dn == fs.disks@.len(),
                i <= dn,
                archive_target(fs.disks@, 0) == archive_target(fs.disks@, i as int),
            decreases dn - i,
        {
            if fs.disks[i].config.contains_system {
                let pn = fs.disks[i].partitions.len();
                let mut j: usize = 0;
                while j < pn
                    invariant
                        i < dn,
                        dn == fs.disks@.len(),
                        pn == fs.disks@[i as int].partitions@.len(),
                        j <= pn,
                        archive_target(fs.disks@, 0) == archive_target(fs.disks@, i as int),
                        fs.disks@[i as int].config.contains_system,
                        archive_target_in(fs.disks@[i as int].partitions@, 0)
                            == archive_target_in(fs.disks@[i as int].partitions@, j as int),
                    decreases pn - j,
                {
                    if fs.disks[i].partitions[j].config.is_root {
                        return Some((i, RoleHandle::Partition(j)));
                    }
                    if fs.disks[i].partitions[j].config.is_system {
                        let vn = fs.disks[i].partitions[j].lvm.volumes.len();
                        let mut v: usize = 0;
                        while v < vn
                            invariant
                                i < dn,
                                j < pn,
                                dn == fs.disks@.len(),
                                pn == fs.disks@[i as int].partitions@.len(),
                                vn == fs.disks@[i as int].partitions@[
                                    j as int
                                ].lvm.volumes@.len(),
                                v <= vn,
                                archive_target(fs.disks@, 0) == archive_target(
                                    fs.disks@,
                                    i as int,
                                ),
                                fs.disks@[i as int].config.contains_system,
                                archive_target_in(fs.disks@[i as int].partitions@, 0)
                                    == archive_target_in(
                                    fs.disks@[i as int].partitions@,
                                    j as int,
                                ),
                                !fs.disks@[i as int].partitions@[j as int].config.is_root,
                                fs.disks@[i as int].partitions@[j as int].config.is_system,
                                disk::first_root_volume(
                                    fs.disks@[i as int].partitions@[j as int].lvm.volumes@,
                                    0,
                                ) == disk::first_root_volume(
                                    fs.disks@[i as int].partitions@[j as int].lvm.volumes@,
                                    v as int,
                                ),
                            decreases vn - v,
                        {
                            if fs.disks[i].partitions[j].lvm.volumes[v].config.is_root {
                                return Some((i, RoleHandle::Volume(j, v)));
                            }
                            v = v + 1;
                        }
                    }
                    j = j + 1;
                }
            }
            i = i + 1;
        }
        None
    }

    /// Mount the root-hosting partition and unmount it again, yielding
    /// the two commands with the archive written in between.
    pub fn generate_initramfs_in_partition(&self, root: &str, partition: &mut Partition) -> (r:
        Result<(Option<Cmd>, Option<Cmd>), Error>)
        ensures
            old(partition).config@.device_by_id is Some ==> (r matches Ok(p) && p.1 matches Some(
                u,
            ) && u@ == (CmdModel {
                program: "umount"@,
                args: seq![old(partition).config@.device_by_id.unwrap()],
                stdin: None,
            }) && !final(partition).mounted),
            !old(partition).mounted && old(partition).config@.device_by_id is Some ==> (r matches
                Ok(p) && p.0 matches Some(m) && m@ == (CmdModel {
                program: "mount"@,
                args: seq![old(partition).config@.device_by_id.unwrap(), root@],
                stdin: None,
            }) && *final(partition) == *old(partition)),
            old(partition).config@.device_by_id is None ==> (r matches Err(e) && e@.kind
                is Generic && *final(partition) == *old(partition)),
    {
        let m = partition.mount(root)?;
        let u = partition.unmount()?;
        Ok((m, u))
    }

    /// Mount the root-hosting volume and unmount it again, yielding the
    /// two commands with the archive written in between.
    pub fn generate_initramfs_in_volume(&self, root: &str, volume: &mut lvm::Volume) -> (r: Result<
        (Option<Cmd>, Option<Cmd>),
        Error,
    >)
        ensures
            old(volume).config@.device is Some ==> (r matches Ok(p) && p.1 matches Some(u) && u@
                == (CmdModel {
                program: "umount"@,
                args: seq![old(volume).config@.device.unwrap()],
                stdin: None,
            }) && !final(volume).mounted),
            !old(volume).mounted && old(volume).config@.device is Some ==> (r matches Ok(p) && p.0
                matches Some(m) && m@ == (CmdModel {
                program: "mount"@,
                args: seq![old(volume).config@.device.unwrap(), root@],
                stdin: None,
            }) && *final(volume) == *old(volume)),
            old(volume).config@.device is None ==> (r matches Err(e) && e@.kind is Generic
                && *final(volume) == *old(volume)),
    {
        let m = volume.mount(root)?;
        let u = volume.unmount()?;
        Ok((m, u))
    }
}

} // verus!
