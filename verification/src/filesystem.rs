//! The whole layout: building the tree from its configuration and
//! back, resolving placeholder devices, and the layout-wide lifecycle.

use vstd::prelude::*;

use crate::disk;
use crate::disk::{Disk, DiskConfigModel};
use crate::error::Error;
use crate::partition;
use crate::strutil;
use crate::traits::{Configurable, Validate};
use crate::zfs;
use crate::{Cmd, CmdModel, Step, StepModel};

verus! {

/// Configuration of the whole layout: the disks.
#[derive(Debug)]
pub struct Config {
    /// The disk configurations.
    pub disks: Vec<disk::Config>,
}

/// Mathematical model of a layout configuration.
pub struct FilesystemConfigModel {
    pub disks: Seq<DiskConfigModel>,
}

impl View for Config {
    type V = FilesystemConfigModel;

    open spec fn view(&self) -> FilesystemConfigModel {
        FilesystemConfigModel { disks: self.disks.deep_view() }
    }
}

impl Validate for Config {
    open spec fn valid_spec(&self) -> bool {
        forall|i: int| 0 <= i < self.disks@.len() ==> (#[trigger] self.disks@[i]).valid_spec()
    }

    fn is_valid(&self) -> (r: bool) {
        let n = self.disks.len();
        let mut i: usize = 0;
        while i < n
            invariant
                n == self.disks@.len(),
                i <= n,
                forall|j: int| 0 <= j < i ==> (#[trigger] self.disks@[j]).valid_spec(),
            decreases n - i,
        {
            if !self.disks[i].is_valid() {
                return false;
            }
            i = i + 1;
        }
        true
    }
}

/// The first index with only non-hash characters from it on, scanning
/// the leading hash marks of a placeholder device token.
pub open spec fn first_non_hash(s: Seq<char>) -> int
    decreases s.len(),
{
    if s.len() == 0 {
        0
    } else if s[0] == '#' {
        1 + first_non_hash(s.skip(1))
    } else {
        0
    }
}

/// `first_non_hash` lies in range and splits the leading hash marks
/// from the rest.
pub proof fn lemma_first_non_hash(s: Seq<char>)
    ensures
        0 <= first_non_hash(s) <= s.len(),
        forall|j: int| 0 <= j < first_non_hash(s) ==> s[j] == '#',
        first_non_hash(s) < s.len() ==> s[first_non_hash(s)] != '#',
    decreases s.len(),
{
    if s.len() == 0 {
    } else if s[0] == '#' {
        lemma_first_non_hash(s.skip(1));
        assert forall|j: int| 0 <= j < first_non_hash(s) implies s[j] == '#' by {
            if j > 0 {
                assert(s.skip(1)[j - 1] == s[j]);
            }
        }
    } else {
    }
}

/// The placeholder key of a device token: the token with its leading
/// hash marks stripped.
pub open spec fn placeholder_key(s: Seq<char>) -> Seq<char> {
    s.skip(first_non_hash(s))
}

/// The first mapping entry for a key, if any.
pub open spec fn lookup_mapping(pairs: Seq<(String, String)>, key: Seq<char>, j: int) -> Option<
    Seq<char>,
>
    decreases pairs.len() - j,
{
    if j < 0 || j >= pairs.len() {
        None
    } else if pairs[j].0@ == key {
        Some(pairs[j].1@)
    } else {
        lookup_mapping(pairs, key, j + 1)
    }
}

/// What a disk's device token becomes under a mapping: a token that
/// starts with a hash mark is a placeholder, replaced by the mapping
/// entry for its key when one exists; everything else stays.
pub open spec fn mapped_device(device: Seq<char>, pairs: Seq<(String, String)>) -> Seq<char> {
    if device.len() > 0 && device[0] == '#' {
        match lookup_mapping(pairs, placeholder_key(device), 0) {
            Some(v) => v,
            None => device,
        }
    } else {
        device
    }
}

/// The first disk flagged as containing the system, from position `i`.
pub open spec fn first_system_disk(disks: Seq<Disk>, i: int) -> Option<int>
    decreases disks.len() - i,
{
    if i < 0 || i >= disks.len() {
        None
    } else if disks[i].config.contains_system {
        Some(i)
    } else {
        first_system_disk(disks, i + 1)
    }
}

/// The per-disk creation plans: read-only disks are left alone; every
/// other disk is wiped and created.
pub open spec fn fs_create_plan_upto(
    olds: Seq<Disk>,
    finals: Seq<Disk>,
    passphrase: Seq<char>,
    key_file: Seq<char>,
    i: int,
) -> Seq<StepModel>
    decreases i,
{
    if i <= 0 {
        Seq::empty()
    } else {
        fs_create_plan_upto(olds, finals, passphrase, key_file, i - 1) + (if olds[i
            - 1].config.read_only {
            Seq::empty()
        } else {
            seq![StepModel::Run(crate::gpt::wipeout_cmd(olds[i - 1].config@.device))]
                + disk::disk_create_plan_upto(
                olds[i - 1].partitions@,
                olds[i - 1].config@.device,
                olds[i - 1].partitions@.len() as int,
            ) + disk::disk_format_plan_upto(
                olds[i - 1].partitions@,
                finals[i - 1].partitions@,
                passphrase,
                key_file,
                olds[i - 1].partitions@.len() as int,
            )
        })
    }
}

/// The per-disk open plans, in list order.
pub open spec fn fs_open_plan_upto(disks: Seq<Disk>, passphrase: Seq<char>, i: int) -> Seq<
    StepModel,
>
    decreases i,
{
    if i <= 0 {
        Seq::empty()
    } else {
        fs_open_plan_upto(disks, passphrase, i - 1) + disk::disk_open_plan(
            disks[i - 1].partitions@,
            passphrase,
        )
    }
}

/// The per-disk close plans, in list order.
pub open spec fn fs_close_plan_upto(disks: Seq<Disk>, i: int) -> Seq<StepModel>
    decreases i,
{
    if i <= 0 {
        Seq::empty()
    } else {
        fs_close_plan_upto(disks, i - 1) + disk::disk_close_plan(disks[i - 1].partitions@)
    }
}

/// The whole layout at run time: the disks.
#[derive(Debug)]
pub struct Filesystem {
    /// The disks, in configuration order.
    pub disks: Vec<Disk>,
}

impl Filesystem {
    /// Build the layout from a validated configuration; an invalid
    /// configuration is rejected.
    pub fn from_config(config: &Config) -> (r: Result<Self, Error>)
        ensures
            !config.valid_spec() ==> (r matches Err(e) && e@.kind is Generic && e@.description
                == "Filesystem configuration is not valid"@),
            config.valid_spec() ==> (r matches Ok(fs) && fs.disks@.len() == config.disks@.len()
                && forall|i: int| 0 <= i < config.disks@.len() ==> disk::disk_config_model(
                #[trigger] fs.disks@[i],
            ) == (DiskConfigModel {
                partitions: disk::sort_by_id(config.disks.deep_view()[i].partitions),
                ..config.disks.deep_view()[i]
            }) && disk::disk_fresh(fs.disks@[i])),
    {
        if !config.is_valid() {
            return Err(Error::generic("Filesystem configuration is not valid"));
        }
        let n = config.disks.len();
        let mut disks: Vec<Disk> = Vec::new();
        let mut i: usize = 0;
        while i < n
            invariant
                n == config.disks@.len(),
                i <= n,
                disks@.len() == i,
                forall|j: int| 0 <= j < i ==> disk::disk_config_model(#[trigger] disks@[j])
                    == (DiskConfigModel {
                    partitions: disk::sort_by_id(config.disks.deep_view()[j].partitions),
                    ..config.disks.deep_view()[j]
                }) && disk::disk_fresh(disks@[j]),
            decreases n - i,
        {
            proof {
                assert(config.disks@[i as int]@ == config.disks.deep_view()[i as int]);
            }
            let d = Disk::from_config(&config.disks[i]);
            disks.push(d);
            i = i + 1;
        }
        Ok(Filesystem { disks })
    }

    /// Convert the layout back to its configuration.
    pub fn to_config(&self) -> (r: Result<Config, Error>)
        ensures
            r matches Ok(c) && c@.disks == self.disks@.map_values(
                |d: Disk| disk::disk_config_model(d),
            ),
    {
        let mut configs: Vec<disk::Config> = Vec::new();
        let n = self.disks.len();
        let mut i: usize = 0;
        while i < n
            invariant
                n == self.disks@.len(),
                i <= n,
                configs.deep_view().len() == i,
                forall|j: int| 0 <= j < i ==> configs.deep_view()[j] == disk::disk_config_model(
                    #[trigger] self.disks@[j],
                ),
            decreases n - i,
        {
            let ghost pre = configs.deep_view();
            match self.disks[i].config() {
                Ok(c) => {
                    configs.push(c);
                    proof {
                        assert(configs.deep_view() =~= pre.push(
                            disk::disk_config_model(self.disks@[i as int]),
                        ));
                    }
                },
                Err(e) => {
                    return Err(e);
                },
            }
            i = i + 1;
        }
        let r = Config { disks: configs };
        proof {
            assert(r@.disks =~= self.disks@.map_values(|d: Disk| disk::disk_config_model(d)));
        }
        Ok(r)
    }

    /// Resolve placeholder device tokens against the given mapping.
    pub fn set_device_mapping(&mut self, mapping: &Vec<(String, String)>)
        ensures
            final(self).disks@.len() == old(self).disks@.len(),
            forall|i: int| 0 <= i < old(self).disks@.len() ==> #[trigger] final(self).disks@[i]
                == (Disk {
                config: disk::Config {
                    device: final(self).disks@[i].config.device,
                    ..old(self).disks@[i].config
                },
                ..old(self).disks@[i]
            }),
            forall|i: int| 0 <= i < old(self).disks@.len() ==> #[trigger] final(self).disks@[i].config.device@ == mapped_device(
                old(self).disks@[i].config.device@,
                mapping@,
            ),
    {
        let n = self.disks.len();
        let mut i: usize = 0;
        while i < n
            invariant
                n == old(self).disks@.len(),
                n == self.disks@.len(),
                i <= n,
                forall|j: int| i <= j < n ==> #[trigger] self.disks@[j] == old(self).disks@[j],
                forall|j: int| 0 <= j < i ==> #[trigger] self.disks@[j] == (Disk {
                    config: disk::Config {
                        device: self.disks@[j].config.device,
                        ..old(self).disks@[j].config
                    },
                    ..old(self).disks@[j]
                }),
                forall|j: int| 0 <= j < i ==> #[trigger] self.disks@[j].config.device@
                    == mapped_device(old(self).disks@[j].config.device@, mapping@),
            decreases n - i,
        {
            proof {
                lemma_first_non_hash(self.disks@[i as int].config.device@);
            }
            let device_len = self.disks[i].config.device.as_str().unicode_len();
            let is_placeholder = device_len > 0 && self.disks[i].config.device.as_str().get_char(0)
                == '#';
            if is_placeholder {
                let mut k: usize = 0;
                while k < device_len && self.disks[i].config.device.as_str().get_char(k) == '#'
                    invariant
                        i < n,
                        n == self.disks@.len(),
                        device_len == self.disks@[i as int].config.device@.len(),
                        k <= device_len,
                        forall|t: int| 0 <= t < k ==> self.disks@[i as int].config.device@[t]
                            == '#',
                    decreases device_len - k,
                {
                    k = k + 1;
                }
                proof {
                    assert(first_non_hash(self.disks@[i as int].config.device@) == k as int);
                }
                let key = self.disks[i].config.device.as_str().substring_char(k, device_len);
                let mn = mapping.len();
                let mut m: usize = 0;
                let mut found_idx: Option<usize> = None;
                while m < mn
                    invariant_except_break
                        found_idx is None,
                        lookup_mapping(mapping@, key@, 0) == lookup_mapping(
                            mapping@,
                            key@,
                            m as int,
                        ),
                    invariant
                        mn == mapping@.len(),
                        m <= mn,
                        key@ == placeholder_key(self.disks@[i as int].config.device@),
                        i < n,
                        n == self.disks@.len(),
                    ensures
                        match found_idx {
                            Some(fm) => fm < mn && lookup_mapping(mapping@, key@, 0) == Some(
                                mapping@[fm as int].1@,
                            ),
                            None => lookup_mapping(mapping@, key@, 0) is None,
                        },
                    decreases mn - m,
                {
                    if strutil::str_eq(mapping[m].0.as_str(), key) {
                        found_idx = Some(m);
                        break;
                    }
                    m = m + 1;
                }
                match found_idx {
                    Some(fm) => {
                        let v = mapping[fm].1.clone();
                        self.disks[i].config.device = v;
                    },
                    None => (),
                }
            }
            i = i + 1;
        }
    }

    /// Find the disk that contains the system.
    pub fn find_system_disk(&self) -> (r: Result<usize, Error>)
        ensures
            match first_system_disk(self.disks@, 0) {
                Some(i) => r matches Ok(got) && got == i,
                None => r matches Err(e) && e@.kind is Generic && e@.description
                    == "System disk not found"@,
            },
    {
        let n = self.disks.len();
        let mut i: usize = 0;
        while i < n
            invariant
                n == self.disks@.len(),
                i <= n,
                first_system_disk(self.disks@, 0) == first_system_disk(self.disks@, i as int),
            decreases n - i,
        {
            if self.disks[i].config.contains_system {
                return Ok(i);
            }
            i = i + 1;
        }
        Err(Error::generic("System disk not found"))
    }

    /// Create the whole layout: destroy every visible pool first (the
    /// listing output names them), then wipe and create every disk that
    /// is not read-only, feeding each disk its captured resolution
    /// outputs.
    pub fn create(
        &mut self,
        key_file: &str,
        passphrase: &str,
        pool_list_output: &str,
        fdisk_outputs: &Vec<Vec<String>>,
        byid_listings: &Vec<Vec<String>>,
    ) -> (r: Result<Vec<Step>, Error>)
        requires
            fdisk_outputs@.len() == old(self).disks@.len(),
            byid_listings@.len() == old(self).disks@.len(),
            forall|i: int| 0 <= i < old(self).disks@.len() ==> (#[trigger] fdisk_outputs@[i])@.len()
                == old(self).disks@[i].partitions@.len() && byid_listings@[i]@.len() == old(self).disks@[i].partitions@.len(),
        ensures
            final(self).disks@.len() == old(self).disks@.len(),
            r matches Ok(p) ==> p.deep_view() == partition::run_all(
                zfs::wipeout_plan(strutil::lines_of(pool_list_output@)),
            ) + fs_create_plan_upto(
                old(self).disks@,
                final(self).disks@,
                passphrase@,
                key_file@,
                old(self).disks@.len() as int,
            ),
            r matches Ok(p) ==> forall|i: int| 0 <= i < old(self).disks@.len() ==> (if (
            #[trigger] old(self).disks@[i]).config.read_only {
                final(self).disks@[i] == old(self).disks@[i]
            } else {
                final(self).disks@[i].config == old(self).disks@[i].config && final(self).disks@[i].partitions@.len() == old(self).disks@[i].partitions@.len()
            }),
            r matches Err(e) ==> e@.kind is Generic,
            (forall|i: int, j: int|
                0 <= i < old(self).disks@.len() && !old(self).disks@[i].config.read_only && 0 <= j
                    < old(self).disks@[i].partitions@.len() ==> partition::partition_creatable(
                    (#[trigger] old(self).disks@[i].partitions@[j]).config@,
                    old(self).disks@[i].config@.device,
                    fdisk_outputs@[i]@[j]@,
                    byid_listings@[i]@[j]@,
                ) && partition::format_ok(old(self).disks@[i].partitions@[j])) ==> r is Ok,
    {
        let mut plan: Vec<Step> = partition::run_steps(zfs::wipeout(pool_list_output));
        let ghost wipe_plan = plan.deep_view();
        let n = self.disks.len();
        let mut i: usize = 0;
        while i < n
            invariant
                n == old(self).disks@.len(),
                n == self.disks@.len(),
                fdisk_outputs@.len() == n,
                byid_listings@.len() == n,
                forall|j: int| 0 <= j < n ==> (#[trigger] fdisk_outputs@[j])@.len() == old(self).disks@[j].partitions@.len() && byid_listings@[j]@.len() == old(self).disks@[j].partitions@.len(),
                i <= n,
                forall|j: int| i <= j < n ==> #[trigger] self.disks@[j] == old(self).disks@[j],
                forall|j: int| 0 <= j < i ==> (if (#[trigger] old(self).disks@[j]).config.read_only {
                    self.disks@[j] == old(self).disks@[j]
                } else {
                    self.disks@[j].config == old(self).disks@[j].config
                        && self.disks@[j].partitions@.len() == old(self).disks@[j].partitions@.len()
                }),
                plan.deep_view() == wipe_plan + fs_create_plan_upto(
                    old(self).disks@,
                    self.disks@,
                    passphrase@,
                    key_file@,
                    i as int,
                ),
            decreases n - i,
        {
            let ghost plan_pre = plan.deep_view();
            let ghost disks_pre = self.disks@;
            if !self.disks[i].read_only() {
                plan.push(Step::Run(self.disks[i].wipeout()));
                let ghost plan_mid = plan.deep_view();
                proof {
                    assert(plan_mid =~= plan_pre + seq![
                        StepModel::Run(crate::gpt::wipeout_cmd(old(self).disks@[i as int].config@.device)),
                    ]);
                }
                let sub = self.disks[i].create(
                    key_file,
                    passphrase,
                    &fdisk_outputs[i],
                    &byid_listings[i],
                );
                match sub {
                    Ok(mut steps) => {
                        let ghost steps_dv = steps.deep_view();
                        let ghost steps_v = steps@;
                        plan.append(&mut steps);
                        proof {
                            assert(forall|j: int|
                                0 <= j < steps_v.len() ==> #[trigger] steps_v[j].deep_view()
                                    == steps_dv[j]);
                            assert(plan.deep_view() =~= plan_mid + steps_dv);
                            lemma_fs_create_plan_finals(
                                old(self).disks@,
                                disks_pre,
                                self.disks@,
                                passphrase@,
                                key_file@,
                                i as int,
                            );
                            assert(plan.deep_view() =~= wipe_plan + fs_create_plan_upto(
                                old(self).disks@,
                                self.disks@,
                                passphrase@,
                                key_file@,
                                i as int + 1,
                            ));
                        }
                    },
                    Err(e) => {
                        return Err(e);
                    },
                }
            } else {
                proof {
                    lemma_fs_create_plan_finals(
                        old(self).disks@,
                        disks_pre,
                        self.disks@,
                        passphrase@,
                        key_file@,
                        i as int,
                    );
                    assert(plan.deep_view() =~= wipe_plan + fs_create_plan_upto(
                        old(self).disks@,
                        self.disks@,
                        passphrase@,
                        key_file@,
                        i as int + 1,
                    ));
                }
            }
            i = i + 1;
        }
        Ok(plan)
    }

    /// Open the whole layout: open every disk's partitions in list
    /// order, then import all pools.
    pub fn open(&mut self, passphrase: &str) -> (r: Vec<Step>)
        requires
            forall|i: int, j: int|
                0 <= i < old(self).disks@.len() && 0 <= j < old(self).disks@[i].partitions@.len()
                    ==> ((#[trigger] old(self).disks@[i].partitions@[j]).config.encrypted ==> old(self).disks@[i].partitions@[j].config@.device_by_id is Some),
        ensures
            r.deep_view() == fs_open_plan_upto(
                old(self).disks@,
                passphrase@,
                old(self).disks@.len() as int,
            ) + seq![StepModel::Run(zfs::pool_import_all_cmd())],
            final(self).disks@.len() == old(self).disks@.len(),
            forall|i: int| 0 <= i < old(self).disks@.len() ==> (#[trigger] final(self).disks@[i]).config == old(self).disks@[i].config && final(self).disks@[i].partitions@.len() == old(self).disks@[i].partitions@.len(),
            forall|i: int, j: int|
                0 <= i < old(self).disks@.len() && 0 <= j < old(self).disks@[i].partitions@.len()
                    ==> #[trigger] final(self).disks@[i].partitions@[j] == (if old(self).disks@[i].partitions@[j].opened {
                    old(self).disks@[i].partitions@[j]
                } else {
                    partition::partition_open_next(old(self).disks@[i].partitions@[j])
                }),
    {
        let n = self.disks.len();
        let mut plan: Vec<Step> = Vec::new();
        let mut i: usize = 0;
        while i < n
            invariant
                n == old(self).disks@.len(),
                n == self.disks@.len(),
                i <= n,
                forall|j: int, k: int|
                    0 <= j < n && 0 <= k < old(self).disks@[j].partitions@.len() ==> ((
                    #[trigger] old(self).disks@[j].partitions@[k]).config.encrypted ==> old(self).disks@[j].partitions@[k].config@.device_by_id is Some),
                forall|j: int| i <= j < n ==> #[trigger] self.disks@[j] == old(self).disks@[j],
                forall|j: int| 0 <= j < i ==> (#[trigger] self.disks@[j]).config == old(self).disks@[j].config && self.disks@[j].partitions@.len() == old(self).disks@[j].partitions@.len(),
                forall|j: int, k: int|
                    0 <= j < i && 0 <= k < old(self).disks@[j].partitions@.len()
                        ==> #[trigger] self.disks@[j].partitions@[k] == (if old(self).disks@[j].partitions@[k].opened {
                        old(self).disks@[j].partitions@[k]
                    } else {
                        partition::partition_open_next(old(self).disks@[j].partitions@[k])
                    }),
                plan.deep_view() == fs_open_plan_upto(old(self).disks@, passphrase@, i as int),
            decreases n - i,
        {
            let ghost plan_pre = plan.deep_view();
            let mut sub = self.disks[i].open(passphrase);
            let ghost sub_dv = sub.deep_view();
            let ghost sub_v = sub@;
            plan.append(&mut sub);
            proof {
                assert(forall|j: int|
                    0 <= j < sub_v.len() ==> #[trigger] sub_v[j].deep_view() == sub_dv[j]);
                assert(plan.deep_view() =~= plan_pre + sub_dv);
            }
            i = i + 1;
        }
        let ghost disks_plan = plan.deep_view();
        plan.push(Step::Run(zfs::pool_import_all()));
        proof {
            assert(plan.deep_view() =~= disks_plan + seq![
                StepModel::Run(zfs::pool_import_all_cmd()),
            ]);
        }
        plan
    }

    /// Close the whole layout: export all pools first (releasing their
    /// backing devices), then close every disk's partitions in list
    /// order.
    pub fn close(&mut self) -> (r: Vec<Step>)
        ensures
            r.deep_view() == seq![StepModel::Run(zfs::pool_export_all_cmd())]
                + fs_close_plan_upto(old(self).disks@, old(self).disks@.len() as int),
            final(self).disks@.len() == old(self).disks@.len(),
            forall|i: int| 0 <= i < old(self).disks@.len() ==> (#[trigger] final(self).disks@[i]).config == old(self).disks@[i].config && final(self).disks@[i].partitions@.len() == old(self).disks@[i].partitions@.len(),
            forall|i: int, j: int|
                0 <= i < old(self).disks@.len() && 0 <= j < old(self).disks@[i].partitions@.len()
                    ==> #[trigger] final(self).disks@[i].partitions@[j] == (if !old(self).disks@[i].partitions@[j].opened {
                    old(self).disks@[i].partitions@[j]
                } else {
                    partition::partition_close_next(old(self).disks@[i].partitions@[j])
                }),
    {
        let mut plan: Vec<Step> = Vec::new();
        plan.push(Step::Run(zfs::pool_export_all()));
        let ghost export_plan = plan.deep_view();
        proof {
            assert(export_plan =~= seq![StepModel::Run(zfs::pool_export_all_cmd())]);
        }
        let n = self.disks.len();
        let mut i: usize = 0;
        while i < n
            invariant
                n == old(self).disks@.len(),
                n == self.disks@.len(),
                i <= n,
                forall|j: int| i <= j < n ==> #[trigger] self.disks@[j] == old(self).disks@[j],
                forall|j: int| 0 <= j < i ==> (#[trigger] self.disks@[j]).config == old(self).disks@[j].config && self.disks@[j].partitions@.len() == old(self).disks@[j].partitions@.len(),
                forall|j: int, k: int|
                    0 <= j < i && 0 <= k < old(self).disks@[j].partitions@.len()
                        ==> #[trigger] self.disks@[j].partitions@[k] == (if !old(self).disks@[j].partitions@[k].opened {
                        old(self).disks@[j].partitions@[k]
                    } else {
                        partition::partition_close_next(old(self).disks@[j].partitions@[k])
                    }),
                plan.deep_view() == export_plan + fs_close_plan_upto(old(self).disks@, i as int),
            decreases n - i,
        {
            let ghost plan_pre = plan.deep_view();
            let mut sub = self.disks[i].close();
            let ghost sub_dv = sub.deep_view();
            let ghost sub_v = sub@;
            plan.append(&mut sub);
            proof {
                assert(forall|j: int|
                    0 <= j < sub_v.len() ==> #[trigger] sub_v[j].deep_view() == sub_dv[j]);
                assert(plan.deep_view() =~= plan_pre + sub_dv);
            }
            i = i + 1;
        }
        plan
    }
}

/// The layout-creation plan depends only on the disk entries below `i`.
pub proof fn lemma_fs_create_plan_finals(
    olds: Seq<Disk>,
    s1: Seq<Disk>,
    s2: Seq<Disk>,
    passphrase: Seq<char>,
    key_file: Seq<char>,
    i: int,
)
    requires
        forall|k: int| 0 <= k < i ==> s1[k] == s2[k],
    ensures
        fs_create_plan_upto(olds, s1, passphrase, key_file, i) == fs_create_plan_upto(
            olds,
            s2,
            passphrase,
            key_file,
            i,
        ),
    decreases i,
{
    if i > 0 {
        lemma_fs_create_plan_finals(olds, s1, s2, passphrase, key_file, i - 1);
        if !olds[i - 1].config.read_only {
            disk::lemma_format_plan_upto_finals(
                olds[i - 1].partitions@,
                s1[i - 1].partitions@,
                s2[i - 1].partitions@,
                passphrase,
                key_file,
                olds[i - 1].partitions@.len() as int,
            );
        }
    }
}

} // verus!
