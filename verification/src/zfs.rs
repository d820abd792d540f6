//! Pooled filesystems: pool lifecycle commands, the pool-creation
//! decision, and the named filesystems of a partition's pool.

use vstd::prelude::*;

use crate::error::Error;
use crate::strutil;
use crate::traits::{Mountable, Validate};
use crate::{Cmd, CmdModel};

verus! {

/// Configuration of one pooled filesystem.
#[derive(Debug)]
pub struct Config {
    /// Name of the filesystem inside its pool.
    pub name: String,
    /// Mountpoint of the filesystem.
    pub mountpoint: String,
    /// Whether this filesystem is the root mount point.
    pub is_root: bool,
}

/// Mathematical model of a pooled-filesystem configuration.
pub struct ZfsConfigModel {
    pub name: Seq<char>,
    pub mountpoint: Seq<char>,
    pub is_root: bool,
}

impl View for Config {
    type V = ZfsConfigModel;

    open spec fn view(&self) -> ZfsConfigModel {
        ZfsConfigModel {
            name: self.name@,
            mountpoint: self.mountpoint@,
            is_root: self.is_root,
        }
    }
}

impl DeepView for Config {
    type V = ZfsConfigModel;

    open spec fn deep_view(&self) -> ZfsConfigModel {
        self.view()
    }
}

impl Clone for Config {
    fn clone(&self) -> (r: Self)
        ensures
            r@ == self@,
    {
        Config {
            name: self.name.clone(),
            mountpoint: self.mountpoint.clone(),
            is_root: self.is_root,
        }
    }
}

impl Validate for Config {
    open spec fn valid_spec(&self) -> bool {
        self@.name.len() > 0 && self@.mountpoint.len() > 0
    }

    fn is_valid(&self) -> (r: bool) {
        !self.name.as_str().is_empty() && !self.mountpoint.as_str().is_empty()
    }
}

/// The command that extends the pool `name` with a member device.
pub open spec fn pool_add_cmd(name: Seq<char>, device: Seq<char>) -> CmdModel {
    CmdModel { program: "zpool"@, args: seq!["add"@, "-f"@, name, device], stdin: None }
}

/// Build the pool-extension command.
pub fn pool_add(name: &str, device: &str) -> (r: Cmd)
    ensures
        r@ == pool_add_cmd(name@, device@),
{
    let c = Cmd::new("zpool").arg("add").arg("-f").arg(name).arg(device);
    proof {
        assert(c@.args =~= pool_add_cmd(name@, device@).args);
    }
    c
}

/// The command that destroys the pool `name`.
pub open spec fn pool_destroy_cmd(name: Seq<char>) -> CmdModel {
    CmdModel { program: "zpool"@, args: seq!["destroy"@, "-f"@, name], stdin: None }
}

/// Build the pool-destroy command.
pub fn pool_destroy(name: &str) -> (r: Cmd)
    ensures
        r@ == pool_destroy_cmd(name@),
{
    let c = Cmd::new("zpool").arg("destroy").arg("-f").arg(name);
    proof {
        assert(c@.args =~= pool_destroy_cmd(name@).args);
    }
    c
}

/// The command that imports every importable pool.
pub open spec fn pool_import_all_cmd() -> CmdModel {
    CmdModel { program: "zpool"@, args: seq!["import"@, "-a"@], stdin: None }
}

/// Build the import-all command.
pub fn pool_import_all() -> (r: Cmd)
    ensures
        r@ == pool_import_all_cmd(),
{
    let c = Cmd::new("zpool").arg("import").arg("-a");
    proof {
        assert(c@.args =~= pool_import_all_cmd().args);
    }
    c
}

/// The command that exports every imported pool.
pub open spec fn pool_export_all_cmd() -> CmdModel {
    CmdModel { program: "zpool"@, args: seq!["export"@, "-a"@], stdin: None }
}

/// Build the export-all command.
pub fn pool_export_all() -> (r: Cmd)
    ensures
        r@ == pool_export_all_cmd(),
{
    let c = Cmd::new("zpool").arg("export").arg("-a");
    proof {
        assert(c@.args =~= pool_export_all_cmd().args);
    }
    c
}

/// The command that creates a fresh pool `name` seeded from `device`,
/// with a fixed block-alignment hint, transparent compression, and no
/// default mount policy.
pub open spec fn zpool_create_cmd(name: Seq<char>, device: Seq<char>) -> CmdModel {
    CmdModel {
        program: "zpool"@,
        args: seq![
            "create"@,
            "-o"@,
            "ashift=12"@,
            "-O"@,
            "compression=lz4"@,
            "-m"@,
            "none"@,
            name,
            device,
        ],
        stdin: None,
    }
}

/// The command whose success says whether a pool of the given name is
/// visible.
pub open spec fn pool_exists_cmd(name: Seq<char>) -> CmdModel {
    CmdModel { program: "zpool"@, args: seq!["list"@, name], stdin: None }
}

/// Build the pool-visibility query. The pool exists exactly when the
/// command exits successfully.
pub fn pool_exists(name: &str) -> (r: Cmd)
    ensures
        r@ == pool_exists_cmd(name@),
{
    let c = Cmd::new("zpool").arg("list").arg(name);
    proof {
        assert(c@.args =~= pool_exists_cmd(name@).args);
    }
    c
}

/// The command that lists the names of the visible pools, one per line.
pub open spec fn pool_list_cmd() -> CmdModel {
    CmdModel { program: "zpool"@, args: seq!["list"@, "-H"@, "-o"@, "name"@], stdin: None }
}

/// Build the pool-listing command.
pub fn pool_list() -> (r: Cmd)
    ensures
        r@ == pool_list_cmd(),
{
    let c = Cmd::new("zpool").arg("list").arg("-H").arg("-o").arg("name");
    proof {
        assert(c@.args =~= pool_list_cmd().args);
    }
    c
}

/// The pool-creation decision: a visible pool of this name is extended
/// with the device; otherwise everything is exported again (to avoid
/// naming collisions) and a fresh pool is created.
pub open spec fn pool_create_plan(name: Seq<char>, device: Seq<char>, visible: bool) -> Seq<
    CmdModel,
> {
    if visible {
        seq![pool_add_cmd(name, device)]
    } else {
        seq![pool_export_all_cmd(), zpool_create_cmd(name, device)]
    }
}

/// Build the pool-creation plan. `visible` is what the visibility query
/// reported after importing all pools: the caller first runs
/// `pool_import_all`, then the `pool_exists` query, then this plan.
pub fn pool_create(name: &str, device: &str, visible: bool) -> (r: Vec<Cmd>)
    ensures
        r.deep_view() == pool_create_plan(name@, device@, visible),
{
    let mut plan: Vec<Cmd> = Vec::new();
    if visible {
        plan.push(pool_add(name, device));
        proof {
            assert(plan.deep_view() =~= pool_create_plan(name@, device@, visible));
        }
    } else {
        plan.push(pool_export_all());
        let c = Cmd::new("zpool")
            .arg("create")
            .arg("-o")
            .arg("ashift=12")
            .arg("-O")
            .arg("compression=lz4")
            .arg("-m")
            .arg("none")
            .arg(name)
            .arg(device);
        proof {
            assert(c@.args =~= zpool_create_cmd(name@, device@).args);
        }
        plan.push(c);
        proof {
            assert(plan.deep_view() =~= pool_create_plan(name@, device@, visible));
        }
    }
    plan
}

/// The command that creates one named filesystem inside a pool, with an
/// externally managed mount policy.
pub open spec fn zfs_create_cmd(pool: Seq<char>, name: Seq<char>) -> CmdModel {
    CmdModel {
        program: "zfs"@,
        args: seq!["create"@, pool + "/"@ + name, "-o"@, "mountpoint=legacy"@],
        stdin: None,
    }
}

/// Build the filesystem-creation command.
pub fn zfs_create(pool: &str, name: &str) -> (r: Cmd)
    ensures
        r@ == zfs_create_cmd(pool@, name@),
{
    let path = strutil::concat3(pool, "/", name);
    let c = Cmd::new("zfs").arg("create").arg(path.as_str()).arg("-o").arg("mountpoint=legacy");
    proof {
        assert(c@.args =~= zfs_create_cmd(pool@, name@).args);
    }
    c
}

/// The plan that destroys every listed pool, in listing order.
pub open spec fn wipeout_plan(pools: Seq<Seq<char>>) -> Seq<CmdModel> {
    pools.map_values(|p: Seq<char>| pool_destroy_cmd(p))
}

/// Build the plan that destroys every pool named by the listing output
/// (one pool name per line), guaranteeing a clean slate.
pub fn wipeout(list_output: &str) -> (r: Vec<Cmd>)
    ensures
        r.deep_view() == wipeout_plan(strutil::lines_of(list_output@)),
{
    let pools = strutil::split_lines(list_output);
    let mut plan: Vec<Cmd> = Vec::new();
    let n = pools.len();
    let mut i: usize = 0;
    while i < n
        invariant
            n == pools.len(),
            i <= n,
            pools.deep_view() == strutil::lines_of(list_output@),
            plan.deep_view().len() == i,
            forall|j: int| 0 <= j < i ==> #[trigger] plan.deep_view()[j] == pool_destroy_cmd(
                pools.deep_view()[j],
            ),
        decreases n - i,
    {
        proof {
            assert(pools@[i as int]@ == pools.deep_view()[i as int]);
        }
        let ghost pre_dv = plan.deep_view();
        let ghost pre_v = plan@;
        let c = pool_destroy(pools[i].as_str());
        plan.push(c);
        proof {
            assert(plan@ == pre_v.push(c));
            assert forall|j: int| 0 <= j < i + 1 implies #[trigger] plan.deep_view()[j]
                == pool_destroy_cmd(pools.deep_view()[j]) by {
                assert(plan.deep_view()[j] == plan@[j].deep_view());
                if j < i {
                    assert(plan@[j] == pre_v[j]);
                    assert(pre_v[j].deep_view() == pre_dv[j]);
                    assert(pre_dv[j] == pool_destroy_cmd(pools.deep_view()[j]));
                } else {
                    assert(plan@[j] == c);
                    assert(c@ == pool_destroy_cmd(pools.deep_view()[i as int]));
                }
            }
        }
        i = i + 1;
    }
    proof {
        assert(plan.deep_view() =~= wipeout_plan(strutil::lines_of(list_output@)));
    }
    plan
}

/// One pooled filesystem at run time: its configuration, the pool it
/// belongs to, and its in-memory mount state.
#[derive(Debug)]
pub struct Filesystem {
    /// Configuration of the filesystem.
    pub config: Config,
    /// Name of the pool, scoped to the owning partition's label.
    pub pool: String,
    /// Whether the filesystem is opened.
    pub opened: bool,
    /// Whether the filesystem is mounted.
    pub mounted: bool,
}

impl Filesystem {
    /// Build the filesystem entry from its configuration, with fresh
    /// in-memory state.
    pub fn from_config(pool: &str, config: &Config) -> (r: Self)
        ensures
            r.config@ == config@,
            r.pool@ == pool@,
            !r.opened,
            !r.mounted,
    {
        Filesystem { config: config.clone(), pool: pool.to_owned(), opened: false, mounted: false }
    }

    /// Convert back to the configuration.
    pub fn config(&self) -> (r: Result<Config, Error>)
        ensures
            r matches Ok(c) && c@ == self.config@,
    {
        Ok(
            Config {
                name: self.config.name.clone(),
                mountpoint: self.config.mountpoint.clone(),
                is_root: self.config.is_root,
            },
        )
    }

    /// The command that creates this filesystem inside its pool.
    pub fn create(&self) -> (r: Cmd)
        ensures
            r@ == zfs_create_cmd(self.pool@, self.config@.name),
    {
        zfs_create(self.pool.as_str(), self.config.name.as_str())
    }
}

impl Mountable for Filesystem {
    open spec fn mounted_spec(&self) -> bool {
        self.mounted
    }

    open spec fn mount_device_spec(&self) -> Option<Seq<char>> {
        Some(self.pool@ + "/"@ + self.config@.name)
    }

    open spec fn mount_cmd_spec(&self, mountpoint: Seq<char>) -> CmdModel {
        CmdModel {
            program: "mount"@,
            args: seq!["-t"@, "zfs"@, self.pool@ + "/"@ + self.config@.name, mountpoint],
            stdin: None,
        }
    }

    open spec fn unmount_cmd_spec(&self) -> CmdModel {
        CmdModel {
            program: "umount"@,
            args: seq![self.pool@ + "/"@ + self.config@.name],
            stdin: None,
        }
    }

    open spec fn with_mounted_spec(&self, m: bool) -> Self {
        Filesystem { mounted: m, ..*self }
    }

    open spec fn no_device_error_spec(&self) -> Seq<char> {
        "No device for filesystem"@
    }

    fn mount(&mut self, mountpoint: &str) -> (r: Result<Option<Cmd>, Error>) {
        if self.mounted {
            return Ok(None);
        }
        let device = strutil::concat3(self.pool.as_str(), "/", self.config.name.as_str());
        let c = Cmd::new("mount").arg("-t").arg("zfs").arg(device.as_str()).arg(mountpoint);
        proof {
            assert(c@.args =~= old(self).mount_cmd_spec(mountpoint@).args);
        }
        self.mounted = true;
        Ok(Some(c))
    }

    fn unmount(&mut self) -> (r: Result<Option<Cmd>, Error>) {
        if !self.mounted {
            return Ok(None);
        }
        let device = strutil::concat3(self.pool.as_str(), "/", self.config.name.as_str());
        let c = Cmd::new("umount").arg(device.as_str());
        proof {
            assert(c@.args =~= old(self).unmount_cmd_spec().args);
        }
        self.mounted = false;
        Ok(Some(c))
    }
}

/// The pooled filesystems of one partition.
#[derive(Debug)]
pub struct Filesystems {
    /// The filesystems, in configuration order.
    pub filesystems: Vec<Filesystem>,
}

/// The creation plan of a set of pooled filesystems: one creation command
/// each, in order.
pub open spec fn filesystems_create_plan(filesystems: Seq<Filesystem>) -> Seq<CmdModel> {
    filesystems.map_values(|f: Filesystem| zfs_create_cmd(f.pool@, f.config@.name))
}

impl Filesystems {
    /// Build the filesystem entries from their configurations, with fresh
    /// in-memory state, all in the pool scoped to the owning partition's
    /// label.
    pub fn from_config(pool: &str, configs: &Vec<Config>) -> (r: Self)
        ensures
            r.filesystems@.len() == configs@.len(),
            forall|i: int| 0 <= i < configs@.len() ==> {
                &&& (#[trigger] r.filesystems@[i]).config@ == configs.deep_view()[i]
                &&& r.filesystems@[i].pool@ == pool@
                &&& !r.filesystems@[i].opened
                &&& !r.filesystems@[i].mounted
            },
    {
        let mut filesystems: Vec<Filesystem> = Vec::new();
        let n = configs.len();
        let mut i: usize = 0;
        while i < n
            invariant
                n == configs@.len(),
                i <= n,
                filesystems@.len() == i,
                forall|j: int| 0 <= j < i ==> {
                    &&& (#[trigger] filesystems@[j]).config@ == configs.deep_view()[j]
                    &&& filesystems@[j].pool@ == pool@
                    &&& !filesystems@[j].opened
                    &&& !filesystems@[j].mounted
                },
            decreases n - i,
        {
            let fs = Filesystem::from_config(pool, &configs[i]);
            filesystems.push(fs);
            i = i + 1;
        }
        Filesystems { filesystems }
    }

    /// Convert back to the configurations.
    pub fn config(&self) -> (r: Result<Vec<Config>, Error>)
        ensures
            r matches Ok(cs) && cs.deep_view() == self.filesystems@.map_values(
                |f: Filesystem| f.config@,
            ),
    {
        let mut configs: Vec<Config> = Vec::new();
        let n = self.filesystems.len();
        let mut i: usize = 0;
        while i < n
            invariant
                n == self.filesystems@.len(),
                i <= n,
                configs.deep_view().len() == i,
                forall|j: int| 0 <= j < i ==> configs.deep_view()[j]
                    == (#[trigger] self.filesystems@[j]).config@,
            decreases n - i,
        {
            match self.filesystems[i].config() {
                Ok(c) => configs.push(c),
                Err(e) => {
                    return Err(e);
                },
            }
            i = i + 1;
        }
        proof {
            assert(configs.deep_view() =~= self.filesystems@.map_values(
                |f: Filesystem| f.config@,
            ));
        }
        Ok(configs)
    }

    /// The plan that creates every filesystem, in order.
    pub fn create(&self) -> (r: Vec<Cmd>)
        ensures
            r.deep_view() == filesystems_create_plan(self.filesystems@),
    {
        let mut plan: Vec<Cmd> = Vec::new();
        let n = self.filesystems.len();
        let mut i: usize = 0;
        while i < n
            invariant
                n == self.filesystems@.len(),
                i <= n,
                plan.deep_view().len() == i,
                forall|j: int| 0 <= j < i ==> plan.deep_view()[j] == zfs_create_cmd(
                    (#[trigger] self.filesystems@[j]).pool@,
                    self.filesystems@[j].config@.name,
                ),
            decreases n - i,
        {
            let c = self.filesystems[i].create();
            plan.push(c);
            i = i + 1;
        }
        proof {
            assert(plan.deep_view() =~= filesystems_create_plan(self.filesystems@));
        }
        plan
    }
}

impl Validate for Filesystems {
    open spec fn valid_spec(&self) -> bool {
        self.filesystems@.len() > 0
    }

    fn is_valid(&self) -> (r: bool) {
        self.filesystems.len() > 0
    }
}

} // verus!
