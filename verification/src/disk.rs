//! One disk: its ordered partitions, the two-pass creation, and the
//! Role Locator that finds the root and boot targets inside it.

use vstd::prelude::*;

use crate::error::Error;
use crate::gpt;
use crate::lvm;
use crate::partition;
use crate::partition::{Partition, PartitionConfigModel};
use crate::strutil;
use crate::traits::{Configurable, Openable, Validate};
use crate::zfs;
use crate::{Cmd, CmdModel, Step, StepModel};

verus! {

/// Configuration of one disk.
#[derive(Debug)]
pub struct Config {
    /// Path of the disk device.
    pub device: String,
    /// If read-only, no write operation is performed on this disk.
    pub read_only: bool,
    /// Whether this disk contains the system.
    pub contains_system: bool,
    /// The partition configurations.
    pub partitions: Vec<partition::Config>,
}

/// Mathematical model of a disk configuration.
pub struct DiskConfigModel {
    pub device: Seq<char>,
    pub read_only: bool,
    pub contains_system: bool,
    pub partitions: Seq<PartitionConfigModel>,
}

impl View for Config {
    type V = DiskConfigModel;

    open spec fn view(&self) -> DiskConfigModel {
        DiskConfigModel {
            device: self.device@,
            read_only: self.read_only,
            contains_system: self.contains_system,
            partitions: self.partitions.deep_view(),
        }
    }
}

impl DeepView for Config {
    type V = DiskConfigModel;

    open spec fn deep_view(&self) -> DiskConfigModel {
        self.view()
    }
}

impl Validate for Config {
    open spec fn valid_spec(&self) -> bool {
        &&& self@.device.len() > 0
        &&& forall|i: int| 0 <= i < self.partitions@.len() ==> (
        #[trigger] self.partitions@[i]).valid_spec()
    }

    fn is_valid(&self) -> (r: bool) {
        if self.device.as_str().is_empty() {
            return false;
        }
        let n = self.partitions.len();
        let mut i: usize = 0;
        while i < n
            invariant
                n == self.partitions@.len(),
                i <= n,
                forall|j: int| 0 <= j < i ==> (#[trigger] self.partitions@[j]).valid_spec(),
            decreases n - i,
        {
            if !self.partitions[i].is_valid() {
                return false;
            }
            i = i + 1;
        }
        true
    }
}

/// The position at which a partition configuration is inserted into an
/// id-ordered sequence: before the first entry whose id is not smaller.
pub open spec fn insert_pos(c: PartitionConfigModel, s: Seq<PartitionConfigModel>) -> int
    decreases s.len(),
{
    if s.len() == 0 {
        0
    } else if c.id <= s[0].id {
        0
    } else {
        1 + insert_pos(c, s.skip(1))
    }
}

/// Insertion into an id-ordered sequence.
pub open spec fn insert_sorted(c: PartitionConfigModel, s: Seq<PartitionConfigModel>) -> Seq<
    PartitionConfigModel,
> {
    s.take(insert_pos(c, s)) + seq![c] + s.skip(insert_pos(c, s))
}

/// Sorting partition configurations by id, by repeated insertion.
pub open spec fn sort_by_id(s: Seq<PartitionConfigModel>) -> Seq<PartitionConfigModel>
    decreases s.len(),
{
    if s.len() == 0 {
        Seq::empty()
    } else {
        insert_sorted(s[0], sort_by_id(s.skip(1)))
    }
}

/// Partition configurations in non-decreasing id order.
pub open spec fn sorted_by_id(s: Seq<PartitionConfigModel>) -> bool {
    forall|i: int, j: int| 0 <= i <= j < s.len() ==> (#[trigger] s[i]).id <= (#[trigger] s[j]).id
}

/// The insertion position is in range, everything before it has a
/// smaller id, and the entry at it (when there is one) has an id at
/// least as large.
pub proof fn lemma_insert_pos(c: PartitionConfigModel, s: Seq<PartitionConfigModel>)
    ensures
        0 <= insert_pos(c, s) <= s.len(),
        forall|t: int| 0 <= t < insert_pos(c, s) ==> (#[trigger] s[t]).id < c.id,
        insert_pos(c, s) < s.len() ==> c.id <= s[insert_pos(c, s)].id,
    decreases s.len(),
{
    if s.len() == 0 {
    } else if c.id <= s[0].id {
    } else {
        lemma_insert_pos(c, s.skip(1));
        assert forall|t: int| 0 <= t < insert_pos(c, s) implies (#[trigger] s[t]).id < c.id by {
            if t > 0 {
                assert(s.skip(1)[t - 1] == s[t]);
            }
        }
    }
}

/// Inserting into an id-ordered sequence keeps it id-ordered.
pub proof fn lemma_insert_sorted(c: PartitionConfigModel, s: Seq<PartitionConfigModel>)
    requires
        sorted_by_id(s),
    ensures
        sorted_by_id(insert_sorted(c, s)),
        insert_sorted(c, s).len() == s.len() + 1,
{
    lemma_insert_pos(c, s);
    let p = insert_pos(c, s);
    let r = insert_sorted(c, s);
    assert forall|i: int, j: int| 0 <= i <= j < r.len() implies (#[trigger] r[i]).id <= (
    #[trigger] r[j]).id by {
        if i < p {
            assert(r[i] == s[i]);
        } else if i == p {
            assert(r[i] == c);
        } else {
            assert(r[i] == s[i - 1]);
        }
        if j < p {
            assert(r[j] == s[j]);
        } else if j == p {
            assert(r[j] == c);
        } else {
            assert(r[j] == s[j - 1]);
        }
    }
}

/// Sorting yields an id-ordered sequence.
pub proof fn lemma_sort_sorted(s: Seq<PartitionConfigModel>)
    ensures
        sorted_by_id(sort_by_id(s)),
        sort_by_id(s).len() == s.len(),
    decreases s.len(),
{
    if s.len() == 0 {
    } else {
        lemma_sort_sorted(s.skip(1));
        lemma_insert_sorted(s[0], sort_by_id(s.skip(1)));
    }
}

/// Sorting an already id-ordered sequence changes nothing.
pub proof fn lemma_sort_of_sorted(s: Seq<PartitionConfigModel>)
    requires
        sorted_by_id(s),
    ensures
        sort_by_id(s) == s,
    decreases s.len(),
{
    if s.len() == 0 {
        assert(sort_by_id(s) =~= s);
    } else {
        assert forall|i: int, j: int|
            0 <= i <= j < s.skip(1).len() implies (#[trigger] s.skip(1)[i]).id <= (#[trigger] s.skip(
            1,
        )[j]).id by {
            assert(s.skip(1)[i] == s[i + 1]);
            assert(s.skip(1)[j] == s[j + 1]);
        }
        lemma_sort_of_sorted(s.skip(1));
        let rest = s.skip(1);
        if rest.len() == 0 {
            assert(insert_sorted(s[0], rest) =~= s);
        } else {
            assert(s[0].id <= rest[0].id);
            assert(insert_pos(s[0], rest) == 0);
            assert(insert_sorted(s[0], rest) =~= s);
        }
    }
}

/// Reloading a saved layout yields the same layout: normalization (the
/// id sort that loading performs) is idempotent, so a configuration that
/// came out of a tree reloads into a tree with the same configuration.
pub proof fn lemma_config_round_trip(partitions: Seq<PartitionConfigModel>)
    ensures
        sort_by_id(sort_by_id(partitions)) == sort_by_id(partitions),
{
    lemma_sort_sorted(partitions);
    lemma_sort_of_sorted(sort_by_id(partitions));
}

/// Insert one partition configuration into an id-sorted vector.
fn insert_sorted_exec(c: partition::Config, sorted: &mut Vec<partition::Config>)
    ensures
        final(sorted).deep_view() == insert_sorted(c@, old(sorted).deep_view()),
{
    proof {
        lemma_insert_pos(c@, old(sorted).deep_view());
    }
    let n = sorted.len();
    let mut i: usize = 0;
    while i < n
        invariant
            n == sorted@.len(),
            *sorted == *old(sorted),
            i <= n,
            forall|t: int| 0 <= t < i ==> (#[trigger] sorted.deep_view()[t]).id < c@.id,
        ensures
            i <= n,
            *sorted == *old(sorted),
            forall|t: int| 0 <= t < i ==> (#[trigger] sorted.deep_view()[t]).id < c@.id,
            i < n ==> c@.id <= sorted.deep_view()[i as int].id,
        decreases n - i,
    {
        proof {
            assert(sorted@[i as int]@ == sorted.deep_view()[i as int]);
        }
        if c.id <= sorted[i].id {
            break;
        }
        i = i + 1;
    }
    proof {
        lemma_insert_pos(c@, sorted.deep_view());
        assert(insert_pos(c@, sorted.deep_view()) == i as int);
    }
    let ghost pre = sorted.deep_view();
    sorted.insert(i, c);
    proof {
        assert(sorted.deep_view() =~= pre.take(i as int) + seq![c@] + pre.skip(i as int));
    }
}

/// Sort partition configurations by id.
fn sort_partitions(configs: &Vec<partition::Config>) -> (r: Vec<partition::Config>)
    ensures
        r.deep_view() == sort_by_id(configs.deep_view()),
{
    let n = configs.len();
    let mut sorted: Vec<partition::Config> = Vec::new();
    let mut i: usize = n;
    proof {
        assert(sorted.deep_view() =~= sort_by_id(configs.deep_view().skip(n as int)));
    }
    while i > 0
        invariant
            n == configs@.len(),
            i <= n,
            sorted.deep_view() == sort_by_id(configs.deep_view().skip(i as int)),
        decreases i,
    {
        i = i - 1;
        proof {
            assert(configs@[i as int]@ == configs.deep_view()[i as int]);
            assert(configs.deep_view().skip(i as int)[0] == configs.deep_view()[i as int]);
            assert(configs.deep_view().skip(i as int).skip(1) =~= configs.deep_view().skip(
                i as int + 1,
            ));
        }
        insert_sorted_exec(configs[i].clone(), &mut sorted);
    }
    proof {
        assert(configs.deep_view().skip(0) =~= configs.deep_view());
    }
    sorted
}

/// A non-owning handle to the node that plays a role (root or boot
/// target) inside one disk: a partition, a logical volume of a
/// partition, or a pooled filesystem of a partition, each by index.
#[derive(Clone, Copy, Debug, PartialEq, Eq, Structural)]
pub enum RoleHandle {
    Partition(usize),
    Volume(usize, usize),
    ZfsFilesystem(usize, usize),
}

/// The first root-flagged volume at or after position `j`.
pub open spec fn first_root_volume(vols: Seq<lvm::Volume>, j: int) -> Option<int>
    decreases vols.len() - j,
{
    if j < 0 || j >= vols.len() {
        None
    } else if vols[j].config@.is_root {
        Some(j)
    } else {
        first_root_volume(vols, j + 1)
    }
}

/// The first root-flagged pooled filesystem at or after position `j`.
pub open spec fn first_root_fs(fss: Seq<zfs::Filesystem>, j: int) -> Option<int>
    decreases fss.len() - j,
{
    if j < 0 || j >= fss.len() {
        None
    } else if fss[j].config@.is_root {
        Some(j)
    } else {
        first_root_fs(fss, j + 1)
    }
}

/// The root search from position `i`: a root-flagged partition matches
/// immediately; a system partition is searched inside, volumes first,
/// then pooled filesystems; everything else is skipped.
pub open spec fn find_root_spec(parts: Seq<Partition>, i: int) -> Option<RoleHandle>
    decreases parts.len() - i,
{
    if i < 0 || i >= parts.len() {
        None
    } else if parts[i].config.is_root {
        Some(RoleHandle::Partition(i as usize))
    } else if parts[i].config.is_system && first_root_volume(parts[i].lvm.volumes@, 0) is Some {
        Some(
            RoleHandle::Volume(
                i as usize,
                first_root_volume(parts[i].lvm.volumes@, 0).unwrap() as usize,
            ),
        )
    } else if parts[i].config.is_system && first_root_fs(parts[i].zfs.filesystems@, 0) is Some {
        Some(
            RoleHandle::ZfsFilesystem(
                i as usize,
                first_root_fs(parts[i].zfs.filesystems@, 0).unwrap() as usize,
            ),
        )
    } else {
        find_root_spec(parts, i + 1)
    }
}

/// Outcome of the boot-target search.
pub enum FindEfi {
    Found(RoleHandle),
    BadType,
    NotFound,
}

/// The first boot-typed volume at or after position `j`, or a tag error
/// on the first volume whose type tag does not parse.
pub open spec fn first_efi_volume(vols: Seq<lvm::Volume>, j: int) -> FindEfi
    decreases vols.len() - j,
{
    if j < 0 || j >= vols.len() {
        FindEfi::NotFound
    } else {
        match gpt::partition_type_of(vols[j].config@.volume_type) {
            None => FindEfi::BadType,
            Some(t) => if t is Efi {
                FindEfi::Found(RoleHandle::Volume(0, j as usize))
            } else {
                first_efi_volume(vols, j + 1)
            },
        }
    }
}

/// The boot-target search from position `i`: a partition whose type tag
/// does not parse is a tag error; a boot-typed partition matches; a
/// system partition is searched for a boot-typed volume (pooled
/// filesystems cannot be a boot target); everything else is skipped.
pub open spec fn find_efi_spec(parts: Seq<Partition>, i: int) -> FindEfi
    decreases parts.len() - i,
{
    if i < 0 || i >= parts.len() {
        FindEfi::NotFound
    } else {
        match gpt::partition_type_of(parts[i].config@.partition_type) {
            None => FindEfi::BadType,
            Some(t) => if t is Efi {
                FindEfi::Found(RoleHandle::Partition(i as usize))
            } else if parts[i].config.is_system {
                match first_efi_volume(parts[i].lvm.volumes@, 0) {
                    FindEfi::BadType => FindEfi::BadType,
                    FindEfi::Found(h) => match h {
                        RoleHandle::Volume(_, j) => FindEfi::Found(
                            RoleHandle::Volume(i as usize, j),
                        ),
                        _ => FindEfi::NotFound,
                    },
                    FindEfi::NotFound => find_efi_spec(parts, i + 1),
                }
            } else {
                find_efi_spec(parts, i + 1)
            },
        }
    }
}

/// One disk at run time: its configuration and its partitions, ordered
/// by id.
#[derive(Debug)]
pub struct Disk {
    /// Configuration of the disk, partitions sorted by id.
    pub config: Config,
    /// The partitions, in id order.
    pub partitions: Vec<Partition>,
}

impl Disk {
    /// Whether the disk is read-only.
    pub fn read_only(&self) -> (r: bool)
        ensures
            r == self.config.read_only,
    {
        self.config.read_only
    }

    /// The command that wipes the whole disk.
    pub fn wipeout(&self) -> (r: Cmd)
        ensures
            r@ == gpt::wipeout_cmd(self.config@.device),
    {
        gpt::wipeout(self.config.device.as_str())
    }

    /// Find the node that hosts the system root: the first root-flagged
    /// partition, or, inside the first system partition that has one, a
    /// root-flagged volume or pooled filesystem.
    pub fn find_root_partition(&self) -> (r: Result<RoleHandle, Error>)
        ensures
            match find_root_spec(self.partitions@, 0) {
                Some(h) => r matches Ok(got) && got == h,
                None => r matches Err(e) && e@.kind is Generic && e@.description
                    == "Root partition not found"@,
            },
    {
        let n = self.partitions.len();
        let mut i: usize = 0;
        while i < n
            invariant
                n == self.partitions@.len(),
                i <= n,
                find_root_spec(self.partitions@, 0) == find_root_spec(self.partitions@, i as int),
            decreases n - i,
        {
            if self.partitions[i].config.is_root {
                return Ok(RoleHandle::Partition(i));
            }
            if self.partitions[i].config.is_system {
                let vn = self.partitions[i].lvm.volumes.len();
                let mut j: usize = 0;
                while j < vn
                    invariant
                        i < n,
                        n == self.partitions@.len(),
                        vn == self.partitions@[i as int].lvm.volumes@.len(),
                        j <= vn,
                        find_root_spec(self.partitions@, 0) == find_root_spec(
                            self.partitions@,
                            i as int,
                        ),
                        !self.partitions@[i as int].config.is_root,
                        self.partitions@[i as int].config.is_system,
                        first_root_volume(self.partitions@[i as int].lvm.volumes@, 0)
                            == first_root_volume(
                            self.partitions@[i as int].lvm.volumes@,
                            j as int,
                        ),
                    decreases vn - j,
                {
                    if self.partitions[i].lvm.volumes[j].config.is_root {
                        return Ok(RoleHandle::Volume(i, j));
                    }
                    j = j + 1;
                }
                let fn_ = self.partitions[i].zfs.filesystems.len();
                let mut k: usize = 0;
                while k < fn_
                    invariant
                        i < n,
                        n == self.partitions@.len(),
                        fn_ == self.partitions@[i as int].zfs.filesystems@.len(),
                        k <= fn_,
                        find_root_spec(self.partitions@, 0) == find_root_spec(
                            self.partitions@,
                            i as int,
                        ),
                        !self.partitions@[i as int].config.is_root,
                        self.partitions@[i as int].config.is_system,
                        first_root_volume(self.partitions@[i as int].lvm.volumes@, 0) is None,
                        first_root_fs(self.partitions@[i as int].zfs.filesystems@, 0)
                            == first_root_fs(
                            self.partitions@[i as int].zfs.filesystems@,
                            k as int,
                        ),
                    decreases fn_ - k,
                {
                    if self.partitions[i].zfs.filesystems[k].config.is_root {
                        return Ok(RoleHandle::ZfsFilesystem(i, k));
                    }
                    k = k + 1;
                }
            }
            i = i + 1;
        }
        Err(Error::generic("Root partition not found"))
    }

    /// Find the boot target: the first boot-typed partition, or, inside
    /// a system partition, a boot-typed volume. A partition or volume
    /// whose type tag does not parse fails the search.
    pub fn find_efi_partition(&self) -> (r: Result<RoleHandle, Error>)
        ensures
            match find_efi_spec(self.partitions@, 0) {
                FindEfi::Found(h) => r matches Ok(got) && got == h,
                FindEfi::BadType => r matches Err(e) && e@.kind is Generic && e@.description
                    == "Invalid partition type"@,
                FindEfi::NotFound => r matches Err(e) && e@.kind is Generic && e@.description
                    == "EFI partition not found"@,
            },
    {
        let n = self.partitions.len();
        let mut i: usize = 0;
        while i < n
            invariant
                n == self.partitions@.len(),
                i <= n,
                find_efi_spec(self.partitions@, 0) == find_efi_spec(self.partitions@, i as int),
            decreases n - i,
        {
            let t = match gpt::PartitionType::from_str(
                self.partitions[i].config.partition_type.as_str(),
            ) {
                Ok(t) => t,
                Err(_) => {
                    return Err(Error::generic("Invalid partition type"));
                },
            };
            match t {
                gpt::PartitionType::Efi => {
                    return Ok(RoleHandle::Partition(i));
                },
                _ => (),
            }
            if self.partitions[i].config.is_system {
                let vn = self.partitions[i].lvm.volumes.len();
                let mut j: usize = 0;
                while j < vn
                    invariant
                        i < n,
                        n == self.partitions@.len(),
                        vn == self.partitions@[i as int].lvm.volumes@.len(),
                        j <= vn,
                        find_efi_spec(self.partitions@, 0) == find_efi_spec(
                            self.partitions@,
                            i as int,
                        ),
                        gpt::partition_type_of(self.partitions@[i as int].config@.partition_type)
                            matches Some(t) && !(t is Efi),
                        self.partitions@[i as int].config.is_system,
                        first_efi_volume(self.partitions@[i as int].lvm.volumes@, 0)
                            == first_efi_volume(
                            self.partitions@[i as int].lvm.volumes@,
                            j as int,
                        ),
                    decreases vn - j,
                {
                    let vt = match gpt::PartitionType::from_str(
                        self.partitions[i].lvm.volumes[j].config.volume_type.as_str(),
                    ) {
                        Ok(t) => t,
                        Err(_) => {
                            return Err(Error::generic("Invalid partition type"));
                        },
                    };
                    match vt {
                        gpt::PartitionType::Efi => {
                            return Ok(RoleHandle::Volume(i, j));
                        },
                        _ => (),
                    }
                    j = j + 1;
                }
            }
            i = i + 1;
        }
        Err(Error::generic("EFI partition not found"))
    }
}

/// The per-partition entry plans of the creation pass, in order: one
/// table-entry command and one settle wait for each of the first `i`
/// partitions.
pub open spec fn disk_create_plan_upto(parts: Seq<Partition>, device: Seq<char>, i: int) -> Seq<
    StepModel,
>
    decreases i,
{
    if i <= 0 {
        Seq::empty()
    } else {
        disk_create_plan_upto(parts, device, i - 1) + seq![
            StepModel::Run(
                gpt::create_partition_cmd(
                    device,
                    parts[i - 1].config@.size,
                    gpt::partition_type_of(parts[i - 1].config@.partition_type).unwrap(),
                    parts[i - 1].config@.label,
                ),
            ),
            StepModel::Settle(1),
        ]
    }
}

/// The per-partition format plans of the format pass, in order, read
/// off the states before the whole operation and after it.
pub open spec fn disk_format_plan_upto(
    olds: Seq<Partition>,
    finals: Seq<Partition>,
    passphrase: Seq<char>,
    key_file: Seq<char>,
    i: int,
) -> Seq<StepModel>
    decreases i,
{
    if i <= 0 {
        Seq::empty()
    } else {
        disk_format_plan_upto(olds, finals, passphrase, key_file, i - 1)
            + partition::format_plan_between(olds[i - 1], finals[i - 1], passphrase, key_file)
    }
}

/// The whole per-partition lifecycle of one creation run: some
/// intermediate state records the resolved identities, and the format
/// pass takes it to the final state.
pub open spec fn partition_lifecycle_state(
    pre: Partition,
    post: Partition,
    device: Seq<char>,
    fdisk_output: Seq<char>,
    listing: Seq<char>,
) -> bool {
    exists|q: Partition|
        #![trigger partition::created_state(pre, q, device, fdisk_output, listing)]
        {
            &&& partition::created_state(pre, q, device, fdisk_output, listing)
            &&& partition::formatted_state(q, post)
        }
}

/// The plans that open the first `i` partitions, in order; partitions
/// already open ask for nothing.
pub open spec fn disk_open_plan_upto(parts: Seq<Partition>, passphrase: Seq<char>, i: int) -> Seq<
    StepModel,
>
    decreases i,
{
    if i <= 0 {
        Seq::empty()
    } else {
        disk_open_plan_upto(parts, passphrase, i - 1) + (if parts[i - 1].opened {
            Seq::empty()
        } else {
            partition::partition_open_plan(parts[i - 1], passphrase)
        })
    }
}

/// The plans that close the first `i` partitions, in order; partitions
/// already closed ask for nothing.
pub open spec fn disk_close_plan_upto(parts: Seq<Partition>, i: int) -> Seq<StepModel>
    decreases i,
{
    if i <= 0 {
        Seq::empty()
    } else {
        disk_close_plan_upto(parts, i - 1) + (if !parts[i - 1].opened {
            Seq::empty()
        } else {
            partition::partition_close_plan(parts[i - 1])
        })
    }
}


/// The format-pass plan depends only on the final entries below `i`.
pub proof fn lemma_format_plan_upto_finals(
    olds: Seq<Partition>,
    s1: Seq<Partition>,
    s2: Seq<Partition>,
    passphrase: Seq<char>,
    key_file: Seq<char>,
    i: int,
)
    requires
        forall|k: int| 0 <= k < i ==> s1[k] == s2[k],
    ensures
        disk_format_plan_upto(olds, s1, passphrase, key_file, i) == disk_format_plan_upto(
            olds,
            s2,
            passphrase,
            key_file,
            i,
        ),
    decreases i,
{
    if i > 0 {
        lemma_format_plan_upto_finals(olds, s1, s2, passphrase, key_file, i - 1);
    }
}

/// The format-pass plan reads only the volume-manager and
/// pooled-filesystem layers of the pre-pass entries.
pub proof fn lemma_format_plan_upto_pres(
    o1: Seq<Partition>,
    o2: Seq<Partition>,
    finals: Seq<Partition>,
    passphrase: Seq<char>,
    key_file: Seq<char>,
    i: int,
)
    requires
        forall|k: int| 0 <= k < i ==> (#[trigger] o1[k]).lvm == o2[k].lvm && o1[k].zfs == o2[k].zfs,
    ensures
        disk_format_plan_upto(o1, finals, passphrase, key_file, i) == disk_format_plan_upto(
            o2,
            finals,
            passphrase,
            key_file,
            i,
        ),
    decreases i,
{
    if i > 0 {
        lemma_format_plan_upto_pres(o1, o2, finals, passphrase, key_file, i - 1);
        assert(partition::format_plan_between(o1[i - 1], finals[i - 1], passphrase, key_file)
            == partition::format_plan_between(o2[i - 1], finals[i - 1], passphrase, key_file));
    }
}

impl Disk {
    /// Create the disk from its configuration, in two passes: first
    /// every partition's table entry is appended and its identities are
    /// resolved from the captured outputs (one disk enumeration and one
    /// stable-identity listing per partition, taken after its entry was
    /// applied and the kernel settled); then every partition is
    /// formatted. The first partition whose resolution or formatting
    /// fails aborts the run with that partition's error.
    pub fn create(
        &mut self,
        key_file: &str,
        passphrase: &str,
        fdisk_outputs: &Vec<String>,
        byid_listings: &Vec<String>,
    ) -> (r: Result<Vec<Step>, Error>)
        requires
            fdisk_outputs@.len() == old(self).partitions@.len(),
            byid_listings@.len() == old(self).partitions@.len(),
        ensures
            final(self).config == old(self).config,
            final(self).partitions@.len() == old(self).partitions@.len(),
            r matches Ok(p) ==> {
                &&& forall|i: int| 0 <= i < old(self).partitions@.len()
                    ==> partition_lifecycle_state(
                    #[trigger] old(self).partitions@[i],
                    final(self).partitions@[i],
                    old(self).config@.device,
                    fdisk_outputs.deep_view()[i],
                    byid_listings.deep_view()[i],
                )
                &&& p.deep_view() == disk_create_plan_upto(
                    old(self).partitions@,
                    old(self).config@.device,
                    old(self).partitions@.len() as int,
                ) + disk_format_plan_upto(
                    old(self).partitions@,
                    final(self).partitions@,
                    passphrase@,
                    key_file@,
                    old(self).partitions@.len() as int,
                )
            },
            r matches Err(e) ==> e@.kind is Generic,
            (forall|i: int| 0 <= i < old(self).partitions@.len() ==> partition::partition_creatable(
                (#[trigger] old(self).partitions@[i]).config@,
                old(self).config@.device,
                fdisk_outputs.deep_view()[i],
                byid_listings.deep_view()[i],
            ) && partition::format_ok(old(self).partitions@[i])) ==> r is Ok,
    {
        let n = self.partitions.len();
        let mut plan: Vec<Step> = Vec::new();
        let mut i: usize = 0;
        while i < n
            invariant
                n == old(self).partitions@.len(),
                n == self.partitions@.len(),
                fdisk_outputs@.len() == n,
                byid_listings@.len() == n,
                self.config == old(self).config,
                i <= n,
                forall|j: int| i <= j < n ==> #[trigger] self.partitions@[j] == old(self).partitions@[j],
                forall|j: int| 0 <= j < i ==> partition::created_state(
                    #[trigger] old(self).partitions@[j],
                    self.partitions@[j],
                    old(self).config@.device,
                    fdisk_outputs.deep_view()[j],
                    byid_listings.deep_view()[j],
                ),
                plan.deep_view() == disk_create_plan_upto(
                    old(self).partitions@,
                    old(self).config@.device,
                    i as int,
                ),
            decreases n - i,
        {
            let ghost plan_pre = plan.deep_view();
            let device = self.config.device.clone();
            proof {
                assert(fdisk_outputs@[i as int]@ == fdisk_outputs.deep_view()[i as int]);
                assert(byid_listings@[i as int]@ == byid_listings.deep_view()[i as int]);
            }
            let sub = self.partitions[i].create(
                device.as_str(),
                fdisk_outputs[i].as_str(),
                byid_listings[i].as_str(),
            );
            match sub {
                Ok(mut steps) => {
                    let ghost steps_dv = steps.deep_view();
                    let ghost steps_v = steps@;
                    plan.append(&mut steps);
                    proof {
                        assert(forall|j: int|
                            0 <= j < steps_v.len() ==> #[trigger] steps_v[j].deep_view()
                                == steps_dv[j]);
                        assert(plan.deep_view() =~= plan_pre + steps_dv);
                        assert(plan.deep_view() =~= disk_create_plan_upto(
                            old(self).partitions@,
                            old(self).config@.device,
                            i as int + 1,
                        ));
                    }
                },
                Err(e) => {
                    return Err(e);
                },
            }
            i = i + 1;
        }
        let ghost mids = self.partitions@;
        let ghost create_plan = plan.deep_view();
        proof {
            assert(plan.deep_view() =~= create_plan + disk_format_plan_upto(
                mids,
                self.partitions@,
                passphrase@,
                key_file@,
                0,
            ));
        }
        let mut i2: usize = 0;
        while i2 < n
            invariant
                n == old(self).partitions@.len(),
                n == self.partitions@.len(),
                n == mids.len(),
                fdisk_outputs@.len() == n,
                byid_listings@.len() == n,
                self.config == old(self).config,
                i2 <= n,
                forall|j: int| 0 <= j < n ==> partition::created_state(
                    #[trigger] old(self).partitions@[j],
                    mids[j],
                    old(self).config@.device,
                    fdisk_outputs.deep_view()[j],
                    byid_listings.deep_view()[j],
                ),
                forall|j: int| i2 <= j < n ==> #[trigger] self.partitions@[j] == mids[j],
                forall|j: int| 0 <= j < i2 ==> partition::formatted_state(
                    #[trigger] mids[j],
                    self.partitions@[j],
                ),
                plan.deep_view() == create_plan + disk_format_plan_upto(
                    mids,
                    self.partitions@,
                    passphrase@,
                    key_file@,
                    i2 as int,
                ),
            decreases n - i2,
        {
            let ghost plan_pre = plan.deep_view();
            let ghost parts_pre = self.partitions@;
            proof {
                assert(partition::created_state(
                    old(self).partitions@[i2 as int],
                    mids[i2 as int],
                    old(self).config@.device,
                    fdisk_outputs.deep_view()[i2 as int],
                    byid_listings.deep_view()[i2 as int],
                ));
                assert(mids[i2 as int].lvm == old(self).partitions@[i2 as int].lvm);
                assert(mids[i2 as int].config@.fs_type == old(
                    self,
                ).partitions@[i2 as int].config@.fs_type);
                assert(partition::format_ok(mids[i2 as int]) == partition::format_ok(
                    old(self).partitions@[i2 as int],
                ));
            }
            let sub = self.partitions[i2].format(key_file, passphrase);
            match sub {
                Ok(mut steps) => {
                    let ghost steps_dv = steps.deep_view();
                    let ghost steps_v = steps@;
                    plan.append(&mut steps);
                    proof {
                        assert(forall|j: int|
                            0 <= j < steps_v.len() ==> #[trigger] steps_v[j].deep_view()
                                == steps_dv[j]);
                        assert(plan.deep_view() =~= plan_pre + steps_dv);
                        assert(steps_dv == partition::format_plan_between(
                            mids[i2 as int],
                            self.partitions@[i2 as int],
                            passphrase@,
                            key_file@,
                        ));
                        lemma_format_plan_upto_finals(
                            mids,
                            parts_pre,
                            self.partitions@,
                            passphrase@,
                            key_file@,
                            i2 as int,
                        );
                        assert(plan.deep_view() =~= create_plan + disk_format_plan_upto(
                            mids,
                            self.partitions@,
                            passphrase@,
                            key_file@,
                            i2 as int + 1,
                        ));
                    }
                },
                Err(e) => {
                    return Err(e);
                },
            }
            i2 = i2 + 1;
        }
        proof {
            assert(forall|k: int|
                0 <= k < n ==> (#[trigger] mids[k]).lvm == old(self).partitions@[k].lvm
                    && mids[k].zfs == old(self).partitions@[k].zfs);
            lemma_format_plan_upto_pres(
                mids,
                old(self).partitions@,
                self.partitions@,
                passphrase@,
                key_file@,
                n as int,
            );
        }
        Ok(plan)
    }
}


/// The plans that open the partitions of one disk, in list order; each
/// partition cascades into its own layers.
pub open spec fn disk_open_plan(parts: Seq<Partition>, passphrase: Seq<char>) -> Seq<StepModel> {
    disk_open_plan_upto(parts, passphrase, parts.len() as int)
}

/// The plans that close the partitions of one disk, in list order.
pub open spec fn disk_close_plan(parts: Seq<Partition>) -> Seq<StepModel> {
    disk_close_plan_upto(parts, parts.len() as int)
}

impl Disk {
    /// Open every partition of the disk, in list order.
    pub fn open(&mut self, passphrase: &str) -> (r: Vec<Step>)
        requires
            forall|i: int| 0 <= i < old(self).partitions@.len() ==> ((
            #[trigger] old(self).partitions@[i]).config.encrypted ==> old(self).partitions@[i].config@.device_by_id is Some),
        ensures
            r.deep_view() == disk_open_plan(old(self).partitions@, passphrase@),
            final(self).config == old(self).config,
            final(self).partitions@.len() == old(self).partitions@.len(),
            forall|i: int| 0 <= i < old(self).partitions@.len() ==> #[trigger] final(self).partitions@[i] == (if old(self).partitions@[i].opened {
                old(self).partitions@[i]
            } else {
                partition::partition_open_next(old(self).partitions@[i])
            }),
    {
        let n = self.partitions.len();
        let mut plan: Vec<Step> = Vec::new();
        let mut i: usize = 0;
        while i < n
            invariant
                n == old(self).partitions@.len(),
                n == self.partitions@.len(),
                self.config == old(self).config,
                i <= n,
                forall|j: int| 0 <= j < n ==> ((#[trigger] old(self).partitions@[j]).config.encrypted
                    ==> old(self).partitions@[j].config@.device_by_id is Some),
                forall|j: int| i <= j < n ==> #[trigger] self.partitions@[j] == old(self).partitions@[j],
                forall|j: int| 0 <= j < i ==> #[trigger] self.partitions@[j] == (if old(self).partitions@[j].opened {
                    old(self).partitions@[j]
                } else {
                    partition::partition_open_next(old(self).partitions@[j])
                }),
                plan.deep_view() == disk_open_plan_upto(
                    old(self).partitions@,
                    passphrase@,
                    i as int,
                ),
            decreases n - i,
        {
            let ghost plan_pre = plan.deep_view();
            let mut sub = self.partitions[i].open(passphrase);
            let ghost sub_dv = sub.deep_view();
            let ghost sub_v = sub@;
            plan.append(&mut sub);
            proof {
                assert(forall|j: int|
                    0 <= j < sub_v.len() ==> #[trigger] sub_v[j].deep_view() == sub_dv[j]);
                assert(plan.deep_view() =~= plan_pre + sub_dv);
            }
            i = i + 1;
        }
        plan
    }

    /// Close every partition of the disk, in list order.
    pub fn close(&mut self) -> (r: Vec<Step>)
        ensures
            r.deep_view() == disk_close_plan(old(self).partitions@),
            final(self).config == old(self).config,
            final(self).partitions@.len() == old(self).partitions@.len(),
            forall|i: int| 0 <= i < old(self).partitions@.len() ==> #[trigger] final(self).partitions@[i] == (if !old(self).partitions@[i].opened {
                old(self).partitions@[i]
            } else {
                partition::partition_close_next(old(self).partitions@[i])
            }),
    {
        let n = self.partitions.len();
        let mut plan: Vec<Step> = Vec::new();
        let mut i: usize = 0;
        while i < n
            invariant
                n == old(self).partitions@.len(),
                n == self.partitions@.len(),
                self.config == old(self).config,
                i <= n,
                forall|j: int| i <= j < n ==> #[trigger] self.partitions@[j] == old(self).partitions@[j],
                forall|j: int| 0 <= j < i ==> #[trigger] self.partitions@[j] == (if !old(self).partitions@[j].opened {
                    old(self).partitions@[j]
                } else {
                    partition::partition_close_next(old(self).partitions@[j])
                }),
                plan.deep_view() == disk_close_plan_upto(old(self).partitions@, i as int),
            decreases n - i,
        {
            let ghost plan_pre = plan.deep_view();
            let mut sub = self.partitions[i].close();
            let ghost sub_dv = sub.deep_view();
            let ghost sub_v = sub@;
            plan.append(&mut sub);
            proof {
                assert(forall|j: int|
                    0 <= j < sub_v.len() ==> #[trigger] sub_v[j].deep_view() == sub_dv[j]);
                assert(plan.deep_view() =~= plan_pre + sub_dv);
            }
            i = i + 1;
        }
        plan
    }
}


/// The configuration one disk currently carries: its own fields with
/// the partitions read back from the runtime objects.
pub open spec fn disk_config_model(d: Disk) -> DiskConfigModel {
    DiskConfigModel {
        device: d.config@.device,
        read_only: d.config.read_only,
        contains_system: d.config.contains_system,
        partitions: d.partitions@.map_values(|p: Partition| partition::partition_config_model(p)),
    }
}

/// Nothing in the disk's partitions is opened or mounted.
pub open spec fn disk_fresh(d: Disk) -> bool {
    forall|i: int| 0 <= i < d.partitions@.len() ==> partition::partition_fresh(
        #[trigger] d.partitions@[i],
    )
}

impl Configurable<Config> for Disk {
    open spec fn config_spec(&self) -> DiskConfigModel {
        disk_config_model(*self)
    }

    open spec fn normalize_spec(c: DiskConfigModel) -> DiskConfigModel {
        DiskConfigModel { partitions: sort_by_id(c.partitions), ..c }
    }

    open spec fn fresh_spec(&self) -> bool {
        disk_fresh(*self)
    }

    fn from_config(config: &Config) -> (r: Self) {
        let sorted = sort_partitions(&config.partitions);
        let mut partitions: Vec<Partition> = Vec::new();
        let n = sorted.len();
        let mut i: usize = 0;
        while i < n
            invariant
                n == sorted@.len(),
                sorted.deep_view() == sort_by_id(config.partitions.deep_view()),
                i <= n,
                partitions@.len() == i,
                forall|j: int| 0 <= j < i ==> partition::partition_config_model(
                    #[trigger] partitions@[j],
                ) == sorted.deep_view()[j] && partition::partition_fresh(partitions@[j]),
            decreases n - i,
        {
            proof {
                assert(sorted@[i as int]@ == sorted.deep_view()[i as int]);
            }
            let p = Partition::from_config(&sorted[i]);
            partitions.push(p);
            i = i + 1;
        }
        let r = Disk {
            config: Config {
                device: config.device.clone(),
                read_only: config.read_only,
                contains_system: config.contains_system,
                partitions: sorted,
            },
            partitions,
        };
        proof {
            assert(r.partitions@.map_values(|p: Partition| partition::partition_config_model(p))
                =~= sort_by_id(config.partitions.deep_view()));
        }
        r
    }

    fn config(&self) -> (r: Result<Config, Error>) {
        let mut partitions: Vec<partition::Config> = Vec::new();
        let n = self.partitions.len();
        let mut i: usize = 0;
        while i < n
            invariant
                n == self.partitions@.len(),
                i <= n,
                partitions.deep_view().len() == i,
                forall|j: int| 0 <= j < i ==> partitions.deep_view()[j]
                    == partition::partition_config_model(#[trigger] self.partitions@[j]),
            decreases n - i,
        {
            let ghost pre = partitions.deep_view();
            match self.partitions[i].config() {
                Ok(c) => {
                    partitions.push(c);
                    proof {
                        assert(partitions.deep_view() =~= pre.push(
                            partition::partition_config_model(self.partitions@[i as int]),
                        ));
                    }
                },
                Err(_) => {
                    return Err(Error::generic("No partition configuration"));
                },
            }
            i = i + 1;
        }
        let r = Config {
            device: self.config.device.clone(),
            read_only: self.config.read_only,
            contains_system: self.config.contains_system,
            partitions,
        };
        proof {
            assert(r@.partitions =~= self.partitions@.map_values(
                |p: Partition| partition::partition_config_model(p),
            ));
        }
        Ok(r)
    }
}

/// No volume of the sequence is flagged root.
pub proof fn lemma_first_root_volume_none(vols: Seq<lvm::Volume>, j: int)
    requires
        forall|t: int| 0 <= t < vols.len() ==> !(#[trigger] vols[t]).config@.is_root,
    ensures
        first_root_volume(vols, j) is None,
    decreases vols.len() - j,
{
    if 0 <= j < vols.len() {
        lemma_first_root_volume_none(vols, j + 1);
    }
}

/// No pooled filesystem of the sequence is flagged root.
pub proof fn lemma_first_root_fs_none(fss: Seq<zfs::Filesystem>, j: int)
    requires
        forall|t: int| 0 <= t < fss.len() ==> !(#[trigger] fss[t]).config@.is_root,
    ensures
        first_root_fs(fss, j) is None,
    decreases fss.len() - j,
{
    if 0 <= j < fss.len() {
        lemma_first_root_fs_none(fss, j + 1);
    }
}

/// Role Locator completeness: with no node flagged root anywhere, the
/// root search fails.
pub proof fn lemma_find_root_none(parts: Seq<Partition>, i: int)
    requires
        forall|k: int| 0 <= k < parts.len() ==> !(#[trigger] parts[k]).config.is_root,
        forall|k: int, t: int|
            0 <= k < parts.len() && 0 <= t < parts[k].lvm.volumes@.len() ==> !(
            #[trigger] parts[k].lvm.volumes@[t]).config@.is_root,
        forall|k: int, t: int|
            0 <= k < parts.len() && 0 <= t < parts[k].zfs.filesystems@.len() ==> !(
            #[trigger] parts[k].zfs.filesystems@[t]).config@.is_root,
    ensures
        find_root_spec(parts, i) is None,
    decreases parts.len() - i,
{
    if 0 <= i < parts.len() {
        assert forall|t: int|
            0 <= t < parts[i].lvm.volumes@.len() implies !(
        #[trigger] parts[i].lvm.volumes@[t]).config@.is_root by {}
        assert forall|t: int|
            0 <= t < parts[i].zfs.filesystems@.len() implies !(
        #[trigger] parts[i].zfs.filesystems@[t]).config@.is_root by {}
        lemma_first_root_volume_none(parts[i].lvm.volumes@, 0);
        lemma_first_root_fs_none(parts[i].zfs.filesystems@, 0);
        lemma_find_root_none(parts, i + 1);
    }
}

/// Role Locator correctness for a partition: when exactly one node in
/// the disk is flagged root and it is the partition at `k`, the root
/// search returns that partition.
pub proof fn lemma_find_root_unique_partition(parts: Seq<Partition>, k: int, i: int)
    requires
        0 <= i <= k < parts.len(),
        parts[k].config.is_root,
        forall|k2: int| 0 <= k2 < parts.len() && k2 != k ==> !(
        #[trigger] parts[k2]).config.is_root,
        forall|k2: int, t: int|
            0 <= k2 < parts.len() && 0 <= t < parts[k2].lvm.volumes@.len() ==> !(
            #[trigger] parts[k2].lvm.volumes@[t]).config@.is_root,
        forall|k2: int, t: int|
            0 <= k2 < parts.len() && 0 <= t < parts[k2].zfs.filesystems@.len() ==> !(
            #[trigger] parts[k2].zfs.filesystems@[t]).config@.is_root,
    ensures
        find_root_spec(parts, i) == Some(RoleHandle::Partition(k as usize)),
    decreases k - i,
{
    if i == k {
    } else {
        assert forall|t: int|
            0 <= t < parts[i].lvm.volumes@.len() implies !(
        #[trigger] parts[i].lvm.volumes@[t]).config@.is_root by {}
        assert forall|t: int|
            0 <= t < parts[i].zfs.filesystems@.len() implies !(
        #[trigger] parts[i].zfs.filesystems@[t]).config@.is_root by {}
        lemma_first_root_volume_none(parts[i].lvm.volumes@, 0);
        lemma_first_root_fs_none(parts[i].zfs.filesystems@, 0);
        lemma_find_root_unique_partition(parts, k, i + 1);
    }
}

/// The unique root-flagged volume of a sequence is the one found.
pub proof fn lemma_first_root_volume_unique(vols: Seq<lvm::Volume>, v: int, j: int)
    requires
        0 <= j <= v < vols.len(),
        vols[v].config@.is_root,
        forall|t: int| 0 <= t < vols.len() && t != v ==> !(#[trigger] vols[t]).config@.is_root,
    ensures
        first_root_volume(vols, j) == Some(v),
    decreases v - j,
{
    if j < v {
        lemma_first_root_volume_unique(vols, v, j + 1);
    }
}

/// Role Locator correctness for a volume: when exactly one node in the
/// disk is flagged root and it is the volume `v` of the system
/// partition at `k`, the root search returns that volume.
pub proof fn lemma_find_root_unique_volume(parts: Seq<Partition>, k: int, v: int, i: int)
    requires
        0 <= i <= k < parts.len(),
        0 <= v < parts[k].lvm.volumes@.len(),
        parts[k].config.is_system,
        parts[k].lvm.volumes@[v].config@.is_root,
        forall|k2: int| 0 <= k2 < parts.len() ==> !(#[trigger] parts[k2]).config.is_root,
        forall|k2: int, t: int|
            0 <= k2 < parts.len() && 0 <= t < parts[k2].lvm.volumes@.len() && !(k2 == k && t == v)
                ==> !(#[trigger] parts[k2].lvm.volumes@[t]).config@.is_root,
        forall|k2: int, t: int|
            0 <= k2 < parts.len() && 0 <= t < parts[k2].zfs.filesystems@.len() ==> !(
            #[trigger] parts[k2].zfs.filesystems@[t]).config@.is_root,
    ensures
        find_root_spec(parts, i) == Some(RoleHandle::Volume(k as usize, v as usize)),
    decreases k - i,
{
    if i == k {
        assert forall|t: int|
            0 <= t < parts[k].lvm.volumes@.len() && t != v implies !(
        #[trigger] parts[k].lvm.volumes@[t]).config@.is_root by {}
        lemma_first_root_volume_unique(parts[k].lvm.volumes@, v, 0);
    } else {
        assert forall|t: int|
            0 <= t < parts[i].lvm.volumes@.len() implies !(
        #[trigger] parts[i].lvm.volumes@[t]).config@.is_root by {}
        assert forall|t: int|
            0 <= t < parts[i].zfs.filesystems@.len() implies !(
        #[trigger] parts[i].zfs.filesystems@[t]).config@.is_root by {}
        lemma_first_root_volume_none(parts[i].lvm.volumes@, 0);
        lemma_first_root_fs_none(parts[i].zfs.filesystems@, 0);
        lemma_find_root_unique_volume(parts, k, v, i + 1);
    }
}

/// The unique root-flagged pooled filesystem of a sequence is the one
/// found.
pub proof fn lemma_first_root_fs_unique(fss: Seq<zfs::Filesystem>, v: int, j: int)
    requires
        0 <= j <= v < fss.len(),
        fss[v].config@.is_root,
        forall|t: int| 0 <= t < fss.len() && t != v ==> !(#[trigger] fss[t]).config@.is_root,
    ensures
        first_root_fs(fss, j) == Some(v),
    decreases v - j,
{
    if j < v {
        lemma_first_root_fs_unique(fss, v, j + 1);
    }
}

/// Role Locator correctness for a pooled filesystem: when exactly one
/// node in the disk is flagged root and it is the pooled filesystem `v`
/// of the system partition at `k`, the root search returns it.
pub proof fn lemma_find_root_unique_fs(parts: Seq<Partition>, k: int, v: int, i: int)
    requires
        0 <= i <= k < parts.len(),
        0 <= v < parts[k].zfs.filesystems@.len(),
        parts[k].config.is_system,
        parts[k].zfs.filesystems@[v].config@.is_root,
        forall|k2: int| 0 <= k2 < parts.len() ==> !(#[trigger] parts[k2]).config.is_root,
        forall|k2: int, t: int|
            0 <= k2 < parts.len() && 0 <= t < parts[k2].lvm.volumes@.len() ==> !(
            #[trigger] parts[k2].lvm.volumes@[t]).config@.is_root,
        forall|k2: int, t: int|
            0 <= k2 < parts.len() && 0 <= t < parts[k2].zfs.filesystems@.len() && !(k2 == k && t
                == v) ==> !(#[trigger] parts[k2].zfs.filesystems@[t]).config@.is_root,
    ensures
        find_root_spec(parts, i) == Some(RoleHandle::ZfsFilesystem(k as usize, v as usize)),
    decreases k - i,
{
    if i == k {
        assert forall|t: int|
            0 <= t < parts[k].lvm.volumes@.len() implies !(
        #[trigger] parts[k].lvm.volumes@[t]).config@.is_root by {}
        lemma_first_root_volume_none(parts[k].lvm.volumes@, 0);
        assert forall|t: int|
            0 <= t < parts[k].zfs.filesystems@.len() && t != v implies !(
        #[trigger] parts[k].zfs.filesystems@[t]).config@.is_root by {}
        lemma_first_root_fs_unique(parts[k].zfs.filesystems@, v, 0);
    } else {
        assert forall|t: int|
            0 <= t < parts[i].lvm.volumes@.len() implies !(
        #[trigger] parts[i].lvm.volumes@[t]).config@.is_root by {}
        assert forall|t: int|
            0 <= t < parts[i].zfs.filesystems@.len() implies !(
        #[trigger] parts[i].zfs.filesystems@[t]).config@.is_root by {}
        lemma_first_root_volume_none(parts[i].lvm.volumes@, 0);
        lemma_first_root_fs_none(parts[i].zfs.filesystems@, 0);
        lemma_find_root_unique_fs(parts, k, v, i + 1);
    }
}


} // verus!
