//! One partition's lifecycle: the device resolver that records its
//! identities after creation, and the plans that create, format, open,
//! close, mount and unmount it.

use vstd::prelude::*;

use crate::error::Error;
use crate::gpt;
use crate::luks;
use crate::lvm;
use crate::strutil;
use crate::traits::{Configurable, Mountable, Openable, Validate};
use crate::zfs;
use crate::{Cmd, CmdModel, Step, StepModel};

verus! {

/// Configuration of one partition.
#[derive(Debug)]
pub struct Config {
    /// Unique identifier of the partition; creation order on disk.
    pub id: u32,
    /// Requested size; zero means "use the remaining space".
    pub size: gpt::Bytesize,
    /// Partition type tag.
    pub partition_type: String,
    /// Whether the partition is encrypted.
    pub encrypted: bool,
    /// Filesystem type tag.
    pub fs_type: String,
    /// Label of the partition.
    pub label: String,
    /// Whether this partition hosts the system.
    pub is_system: bool,
    /// Whether this partition is the root mount point.
    pub is_root: bool,
    /// Volume-manager configuration.
    pub lvm: Vec<lvm::Config>,
    /// Pooled filesystems.
    pub zfs: Vec<zfs::Config>,
    /// Resolved transient block device; empty until creation.
    pub device: Option<String>,
    /// Base name of the resolved block device.
    pub device_name: Option<String>,
    /// Resolved stable identity path (by-id).
    pub device_by_id: Option<String>,
    /// Resolved stable identity path (by-partlabel).
    pub device_by_partlabel: Option<String>,
    /// Mapper device of an encrypted partition.
    pub luks_mapper: Option<String>,
}

/// Mathematical model of a partition configuration.
pub struct PartitionConfigModel {
    pub id: u32,
    pub size: gpt::Bytesize,
    pub partition_type: Seq<char>,
    pub encrypted: bool,
    pub fs_type: Seq<char>,
    pub label: Seq<char>,
    pub is_system: bool,
    pub is_root: bool,
    pub lvm: Seq<lvm::VolumeConfigModel>,
    pub zfs: Seq<zfs::ZfsConfigModel>,
    pub device: Option<Seq<char>>,
    pub device_name: Option<Seq<char>>,
    pub device_by_id: Option<Seq<char>>,
    pub device_by_partlabel: Option<Seq<char>>,
    pub luks_mapper: Option<Seq<char>>,
}

impl View for Config {
    type V = PartitionConfigModel;

    open spec fn view(&self) -> PartitionConfigModel {
        PartitionConfigModel {
            id: self.id,
            size: self.size,
            partition_type: self.partition_type@,
            encrypted: self.encrypted,
            fs_type: self.fs_type@,
            label: self.label@,
            is_system: self.is_system,
            is_root: self.is_root,
            lvm: self.lvm.deep_view(),
            zfs: self.zfs.deep_view(),
            device: self.device.deep_view(),
            device_name: self.device_name.deep_view(),
            device_by_id: self.device_by_id.deep_view(),
            device_by_partlabel: self.device_by_partlabel.deep_view(),
            luks_mapper: self.luks_mapper.deep_view(),
        }
    }
}

impl DeepView for Config {
    type V = PartitionConfigModel;

    open spec fn deep_view(&self) -> PartitionConfigModel {
        self.view()
    }
}

fn clone_opt_string(o: &Option<String>) -> (r: Option<String>)
    ensures
        r.deep_view() == o.deep_view(),
{
    match o {
        Some(s) => Some(s.clone()),
        None => None,
    }
}

impl Clone for Config {
    fn clone(&self) -> (r: Self)
        ensures
            r@ == self@,
    {
        let mut lvm: Vec<lvm::Config> = Vec::new();
        let mut i: usize = 0;
        let n = self.lvm.len();
        while i < n
            invariant
                n == self.lvm@.len(),
                i <= n,
                lvm.deep_view().len() == i,
                forall|j: int| 0 <= j < i ==> lvm.deep_view()[j] == self.lvm.deep_view()[j],
            decreases n - i,
        {
            let ghost pre = lvm.deep_view();
            lvm.push(self.lvm[i].clone());
            proof {
                assert(lvm.deep_view() =~= pre.push(self.lvm.deep_view()[i as int]));
            }
            i = i + 1;
        }
        let mut zfs: Vec<zfs::Config> = Vec::new();
        let mut i2: usize = 0;
        let n2 = self.zfs.len();
        while i2 < n2
            invariant
                n2 == self.zfs@.len(),
                i2 <= n2,
                zfs.deep_view().len() == i2,
                forall|j: int| 0 <= j < i2 ==> zfs.deep_view()[j] == self.zfs.deep_view()[j],
            decreases n2 - i2,
        {
            let ghost pre = zfs.deep_view();
            zfs.push(self.zfs[i2].clone());
            proof {
                assert(zfs.deep_view() =~= pre.push(self.zfs.deep_view()[i2 as int]));
            }
            i2 = i2 + 1;
        }
        let r = Config {
            id: self.id,
            size: self.size,
            partition_type: self.partition_type.clone(),
            encrypted: self.encrypted,
            fs_type: self.fs_type.clone(),
            label: self.label.clone(),
            is_system: self.is_system,
            is_root: self.is_root,
            lvm,
            zfs,
            device: clone_opt_string(&self.device),
            device_name: clone_opt_string(&self.device_name),
            device_by_id: clone_opt_string(&self.device_by_id),
            device_by_partlabel: clone_opt_string(&self.device_by_partlabel),
            luks_mapper: clone_opt_string(&self.luks_mapper),
        };
        proof {
            assert(r.lvm.deep_view() =~= self.lvm.deep_view());
            assert(r.zfs.deep_view() =~= self.zfs.deep_view());
        }
        r
    }
}

impl Validate for Config {
    open spec fn valid_spec(&self) -> bool {
        &&& self.id != 0
        &&& gpt::partition_type_of(self@.partition_type) is Some
        &&& gpt::fs_type_of(self@.fs_type) is Some
        &&& self@.label.len() > 0
    }

    fn is_valid(&self) -> (r: bool) {
        if self.id == 0 {
            return false;
        }
        match gpt::PartitionType::from_str(self.partition_type.as_str()) {
            Ok(_) => (),
            Err(_) => {
                return false;
            },
        }
        match gpt::FsType::from_str(self.fs_type.as_str()) {
            Ok(_) => (),
            Err(_) => {
                return false;
            },
        }
        if self.label.as_str().is_empty() {
            return false;
        }
        true
    }
}

/// A resolution match inside an enumeration output: the disk path at
/// position `p`, then non-space characters, then the partition's ordinal
/// digits ending at `j + idstr.len()`.
pub open spec fn resolution_match_at(
    out: Seq<char>,
    dev: Seq<char>,
    idstr: Seq<char>,
    p: int,
    j: int,
) -> bool {
    &&& strutil::occurs_at(out, dev, p)
    &&& p + dev.len() <= j
    &&& strutil::occurs_at(out, idstr, j)
    &&& forall|k: int| p + dev.len() <= k < j ==> out[k] != ' '
}

/// Find the transient device in an enumeration output: the earliest
/// position where the disk path occurs followed (within one space-free
/// run) by the ordinal digits, extended to the last such digit
/// occurrence in that run.
pub fn resolve_transient(output: &str, device: &str, idstr: &str) -> (r: Option<String>)
    requires
        idstr@.len() >= 1,
    ensures
        r matches Some(s) ==> exists|p: int, j: int|
            {
                &&& #[trigger] resolution_match_at(output@, device@, idstr@, p, j)
                &&& forall|p2: int, j2: int| p2 < p ==> !resolution_match_at(
                    output@,
                    device@,
                    idstr@,
                    p2,
                    j2,
                )
                &&& forall|j2: int| j2 > j ==> !resolution_match_at(output@, device@, idstr@, p, j2)
                &&& s@ == output@.subrange(p, j + idstr@.len())
            },
        r is None ==> forall|p: int, j: int| !resolution_match_at(output@, device@, idstr@, p, j),
{
    let m = output.unicode_len();
    let dn = device.unicode_len();
    let idn = idstr.unicode_len();
    if dn > m {
        return None;
    }
    let mut p: usize = 0;
    loop
        invariant
            m == output@.len(),
            dn == device@.len(),
            idn == idstr@.len(),
            idn >= 1,
            dn <= m,
            p <= m - dn,
            forall|p2: int, j2: int| p2 < p ==> !resolution_match_at(
                output@,
                device@,
                idstr@,
                p2,
                j2,
            ),
        decreases m - dn - p,
    {
        if strutil::occurs_at_exec(output, device, p) {
            // scan the space-free run after the device prefix for the
            // last occurrence of the ordinal digits
            let mut k: usize = p + dn;
            let mut best: Option<usize> = None;
            loop
                invariant
                    m == output@.len(),
                    dn == device@.len(),
                    idn == idstr@.len(),
                    idn >= 1,
                    p + dn <= k <= m,
                    strutil::occurs_at(output@, device@, p as int),
                    forall|t: int| p + dn <= t < k ==> output@[t] != ' ',
                    match best {
                        Some(b) => p + dn <= b <= k && strutil::occurs_at(
                            output@,
                            idstr@,
                            b as int,
                        ) && forall|j2: int| b < j2 < k ==> !strutil::occurs_at(
                            output@,
                            idstr@,
                            j2,
                        ),
                        None => forall|j2: int| p + dn <= j2 < k ==> !strutil::occurs_at(
                            output@,
                            idstr@,
                            j2,
                        ),
                    },
                ensures
                    match best {
                        Some(b) => resolution_match_at(output@, device@, idstr@, p as int, b as int)
                            && forall|j2: int| j2 > b ==> !resolution_match_at(
                            output@,
                            device@,
                            idstr@,
                            p as int,
                            j2,
                        ),
                        None => forall|j2: int| !resolution_match_at(
                            output@,
                            device@,
                            idstr@,
                            p as int,
                            j2,
                        ),
                    },
                decreases m - k,
            {
                if idn <= m - k {
                    if strutil::occurs_at_exec(output, idstr, k) {
                        best = Some(k);
                    }
                }
                if k < m && output.get_char(k) != ' ' {
                    k = k + 1;
                } else {
                    // the run ends here: either the output ends or a
                    // space follows, so no later position can match
                    proof {
                        assert(k == m || output@[k as int] == ' ');
                        assert forall|j2: int| j2 > k implies !resolution_match_at(
                            output@,
                            device@,
                            idstr@,
                            p as int,
                            j2,
                        ) by {
                            if resolution_match_at(output@, device@, idstr@, p as int, j2) {
                                if k == m {
                                    assert(j2 + idn > m);
                                } else {
                                    assert(output@[k as int] != ' ');
                                }
                            }
                        }
                        match best {
                            Some(b) => {
                                assert(resolution_match_at(
                                    output@,
                                    device@,
                                    idstr@,
                                    p as int,
                                    b as int,
                                ));
                                assert forall|j2: int| j2 > b implies !resolution_match_at(
                                    output@,
                                    device@,
                                    idstr@,
                                    p as int,
                                    j2,
                                ) by {
                                    if resolution_match_at(output@, device@, idstr@, p as int, j2) {
                                        if b < j2 <= k {
                                            assert(!strutil::occurs_at(output@, idstr@, j2));
                                        }
                                    }
                                }
                            },
                            None => {
                                assert forall|j2: int| !resolution_match_at(
                                    output@,
                                    device@,
                                    idstr@,
                                    p as int,
                                    j2,
                                ) by {
                                    if resolution_match_at(output@, device@, idstr@, p as int, j2) {
                                        if p + dn <= j2 <= k {
                                            assert(!strutil::occurs_at(output@, idstr@, j2));
                                        }
                                    }
                                }
                            },
                        }
                    }
                    break;
                }
            }
            match best {
                Some(b) => {
                    let s = output.substring_char(p, b + idn).to_owned();
                    return Some(s);
                },
                None => {},
            }
        }
        if p == m - dn {
            proof {
                assert forall|p2: int, j2: int| !resolution_match_at(
                    output@,
                    device@,
                    idstr@,
                    p2,
                    j2,
                ) by {
                    if resolution_match_at(output@, device@, idstr@, p2, j2) {
                        if p2 > p {
                            assert(p2 + dn > m);
                            assert(!strutil::occurs_at(output@, device@, p2));
                        }
                    }
                }
            }
            return None;
        }
        p = p + 1;
    }
}

/// A stable-identity line names the wanted device: it has a link arrow,
/// `q` is the first arrow position, room remains after the arrow, and
/// the line ends with the device's base name.
pub open spec fn idline_matches(line: Seq<char>, devname: Seq<char>, q: int) -> bool {
    &&& strutil::occurs_at(line, " -> "@, q)
    &&& forall|q2: int| 0 <= q2 < q ==> !strutil::occurs_at(line, " -> "@, q2)
    &&& q + 4 + devname.len() <= line.len()
    &&& line.subrange(line.len() - devname.len(), line.len() as int) == devname
}

/// `rs` begins the space-free run that ends just before position `q`.
pub open spec fn run_start_props(line: Seq<char>, q: int, rs: int) -> bool {
    &&& 0 <= rs <= q
    &&& forall|t: int| rs <= t < q ==> line[t] != ' '
    &&& rs > 0 ==> line[rs - 1] == ' '
}

/// Extract the stable identity from one listing line: the space-free run
/// just before the first link arrow, on a line that ends with the
/// device's base name.
pub fn idline_capture(line: &str, devname: &str) -> (r: Option<String>)
    ensures
        r matches Some(c) ==> exists|q: int, rs: int|
            #![trigger idline_matches(line@, devname@, q), run_start_props(line@, q, rs)]
            {
                &&& idline_matches(line@, devname@, q)
                &&& run_start_props(line@, q, rs)
                &&& c@ == line@.subrange(rs, q)
            },
        r is None ==> forall|q: int| !idline_matches(line@, devname@, q),
{
    if !strutil::ends_with(line, devname) {
        return None;
    }
    match strutil::find_sub(line, " -> ") {
        None => {
            proof {
                reveal_strlit(" -> ");
            }
            None
        },
        Some(q) => {
            proof {
                reveal_strlit(" -> ");
            }
            let dn = devname.unicode_len();
            let m = line.unicode_len();
            if m - q < 4 || m - q - 4 < dn {
                proof {
                    assert forall|q2: int| !idline_matches(line@, devname@, q2) by {
                        if idline_matches(line@, devname@, q2) {
                            if q2 < q {
                                assert(!strutil::occurs_at(line@, " -> "@, q2));
                            } else if q2 > q {
                                assert(!strutil::occurs_at(line@, " -> "@, q as int));
                            } else {
                                assert(q2 + 4 + devname@.len() > line@.len());
                            }
                        }
                    }
                }
                return None;
            }
            let mut rs: usize = q;
            loop
                invariant
                    rs <= q,
                    q <= m,
                    m == line@.len(),
                    forall|t: int| rs <= t < q ==> line@[t] != ' ',
                ensures
                    rs == 0 || line@[rs as int - 1] == ' ',
                decreases rs,
            {
                if rs > 0 && line.get_char(rs - 1) != ' ' {
                    rs = rs - 1;
                } else {
                    break;
                }
            }
            let c = line.substring_char(rs, q).to_owned();
            proof {
                assert(idline_matches(line@, devname@, q as int));
                assert(run_start_props(line@, q as int, rs as int));
            }
            Some(c)
        },
    }
}

/// The first listing line that names the device: it matches, and no
/// earlier line does.
pub open spec fn listing_first_match(lines: Seq<Seq<char>>, devname: Seq<char>, i: int) -> bool {
    &&& 0 <= i < lines.len()
    &&& exists|q: int| idline_matches(lines[i], devname, q)
    &&& forall|i2: int, q2: int| 0 <= i2 < i ==> !idline_matches(lines[i2], devname, q2)
}

/// The base name of a device path: the path with a leading "/dev/"
/// stripped.
pub open spec fn base_name_of(s: Seq<char>) -> Seq<char> {
    if s.len() >= 5 && s.subrange(0, 5) == "/dev/"@ {
        s.skip(5)
    } else {
        s
    }
}

/// The transient-device fields recorded by a successful resolution:
/// `c1` is `c0` with the device and its base name filled in from the
/// first, greedily extended match in the enumeration output.
pub open spec fn identify_updates(
    c0: PartitionConfigModel,
    c1: PartitionConfigModel,
    device: Seq<char>,
    output: Seq<char>,
) -> bool {
    exists|p: int, j: int|
        #![trigger resolution_match_at(output, device, strutil::dec_str(c0.id as nat), p, j)]
        {
            &&& resolution_match_at(output, device, strutil::dec_str(c0.id as nat), p, j)
            &&& forall|p2: int, j2: int| p2 < p ==> !resolution_match_at(
                output,
                device,
                strutil::dec_str(c0.id as nat),
                p2,
                j2,
            )
            &&& forall|j2: int| j2 > j ==> !resolution_match_at(
                output,
                device,
                strutil::dec_str(c0.id as nat),
                p,
                j2,
            )
            &&& c1 == (PartitionConfigModel {
                device: Some(output.subrange(p, j + strutil::dec_str(c0.id as nat).len())),
                device_name: Some(
                    base_name_of(output.subrange(p, j + strutil::dec_str(c0.id as nat).len())),
                ),
                ..c0
            })
        }
}

/// No transient device matches in the enumeration output.
pub open spec fn no_transient_match(output: Seq<char>, device: Seq<char>, idstr: Seq<char>) -> bool {
    forall|p: int, j: int| !resolution_match_at(output, device, idstr, p, j)
}

/// No line of the stable-identity listing names the device.
pub open spec fn no_idline(lines: Seq<Seq<char>>, devname: Seq<char>) -> bool {
    forall|i: int, q: int| 0 <= i < lines.len() ==> !idline_matches(lines[i], devname, q)
}

/// The stable-identity fields recorded by a successful listing scan:
/// `c1` is `c0` with the by-id path taken from the first matching line's
/// nonempty capture, and the by-partlabel path synthesized from the
/// label.
pub open spec fn identify_id_updates(
    c0: PartitionConfigModel,
    c1: PartitionConfigModel,
    listing: Seq<char>,
) -> bool {
    exists|i: int, q: int, rs: int|
        #![trigger idline_matches(strutil::lines_of(listing)[i], c0.device_name.unwrap(), q), run_start_props(strutil::lines_of(listing)[i], q, rs)]
        {
            &&& listing_first_match(strutil::lines_of(listing), c0.device_name.unwrap(), i)
            &&& idline_matches(strutil::lines_of(listing)[i], c0.device_name.unwrap(), q)
            &&& run_start_props(strutil::lines_of(listing)[i], q, rs)
            &&& rs < q
            &&& c1 == (PartitionConfigModel {
                device_by_id: Some(
                    "/dev/disk/by-id/"@ + strutil::lines_of(listing)[i].subrange(rs, q),
                ),
                device_by_partlabel: Some("/dev/disk/by-partlabel/"@ + c0.label),
                ..c0
            })
        }
}

/// The first matching line of the stable-identity listing captures an
/// empty identity.
pub open spec fn empty_idline_capture(listing: Seq<char>, devname: Seq<char>) -> bool {
    exists|i: int, q: int|
        #![trigger idline_matches(strutil::lines_of(listing)[i], devname, q)]
        {
            &&& listing_first_match(strutil::lines_of(listing), devname, i)
            &&& idline_matches(strutil::lines_of(listing)[i], devname, q)
            &&& run_start_props(strutil::lines_of(listing)[i], q, q)
        }
}

/// The formatting steps of an encrypted partition: initialize the
/// encryption, add the key-file credential, then open the mapping under
/// the partition's label.
pub open spec fn luks_format_plan(
    c: PartitionConfigModel,
    passphrase: Seq<char>,
    key_file: Seq<char>,
) -> Seq<StepModel> {
    seq![
        StepModel::Run(luks::luks_format_cmd(c.device_by_id.unwrap(), passphrase)),
        StepModel::Run(luks::luks_add_key_cmd(c.device_by_id.unwrap(), passphrase, key_file)),
        luks::luks_open_step(c.device_by_id.unwrap(), passphrase, c.label),
    ]
}

/// The encryption part of a format plan: empty for a plain partition.
pub open spec fn luks_part_spec(
    c: PartitionConfigModel,
    passphrase: Seq<char>,
    key_file: Seq<char>,
) -> Seq<StepModel> {
    if c.encrypted {
        luks_format_plan(c, passphrase, key_file)
    } else {
        Seq::empty()
    }
}

/// The device a partition is formatted on: the mapper path when it is
/// encrypted, the stable by-id path otherwise.
pub open spec fn format_target(c: PartitionConfigModel) -> Seq<char> {
    if c.encrypted {
        c.luks_mapper.unwrap()
    } else {
        c.device_by_id.unwrap()
    }
}

/// Commands lifted into plain run steps.
pub open spec fn run_all(cmds: Seq<CmdModel>) -> Seq<StepModel> {
    cmds.map_values(|c: CmdModel| StepModel::Run(c))
}

/// Lift commands into plain run steps.
pub fn run_steps(cmds: Vec<Cmd>) -> (r: Vec<Step>)
    ensures
        r.deep_view() == run_all(cmds.deep_view()),
{
    let mut steps: Vec<Step> = Vec::new();
    let n = cmds.len();
    let mut i: usize = 0;
    while i < n
        invariant
            n == cmds@.len(),
            i <= n,
            steps.deep_view().len() == i,
            forall|j: int| 0 <= j < i ==> #[trigger] steps.deep_view()[j] == StepModel::Run(
                cmds.deep_view()[j],
            ),
        decreases n - i,
    {
        let ghost pre_dv = steps.deep_view();
        let c = Cmd {
            program: cmds[i].program.clone(),
            args: clone_string_vec(&cmds[i].args),
            stdin: clone_opt_string(&cmds[i].stdin),
        };
        proof {
            assert(c@ == cmds.deep_view()[i as int]);
        }
        steps.push(Step::Run(c));
        proof {
            assert(steps.deep_view() =~= pre_dv.push(StepModel::Run(cmds.deep_view()[i as int])));
        }
        i = i + 1;
    }
    steps
}

/// A volume's filesystem type tag names something that can be formatted
/// directly.
pub open spec fn vol_fs_ok(vc: lvm::VolumeConfigModel) -> bool {
    gpt::fs_type_of(vc.fs_type) matches Some(t) && !(t is Lvm)
}



/// The recorded resolution is unique: the match position is the least
/// and its extent the greatest, so two records of it agree.
pub proof fn lemma_identify_updates_unique(
    c0: PartitionConfigModel,
    m1: PartitionConfigModel,
    m2: PartitionConfigModel,
    device: Seq<char>,
    output: Seq<char>,
)
    requires
        identify_updates(c0, m1, device, output),
        identify_updates(c0, m2, device, output),
    ensures
        m1 == m2,
{
    let idstr = strutil::dec_str(c0.id as nat);
    let (p1, j1): (int, int) = choose|p: int, j: int|
        #![trigger resolution_match_at(output, device, idstr, p, j)]
        {
            &&& resolution_match_at(output, device, idstr, p, j)
            &&& forall|p2: int, j2: int| p2 < p ==> !resolution_match_at(
                output,
                device,
                idstr,
                p2,
                j2,
            )
            &&& forall|j2: int| j2 > j ==> !resolution_match_at(output, device, idstr, p, j2)
            &&& m1 == (PartitionConfigModel {
                device: Some(output.subrange(p, j + idstr.len())),
                device_name: Some(base_name_of(output.subrange(p, j + idstr.len()))),
                ..c0
            })
        };
    let (p2, j2): (int, int) = choose|p: int, j: int|
        #![trigger resolution_match_at(output, device, idstr, p, j)]
        {
            &&& resolution_match_at(output, device, idstr, p, j)
            &&& forall|p3: int, j3: int| p3 < p ==> !resolution_match_at(
                output,
                device,
                idstr,
                p3,
                j3,
            )
            &&& forall|j3: int| j3 > j ==> !resolution_match_at(output, device, idstr, p, j3)
            &&& m2 == (PartitionConfigModel {
                device: Some(output.subrange(p, j + idstr.len())),
                device_name: Some(base_name_of(output.subrange(p, j + idstr.len()))),
                ..c0
            })
        };
    assert(p1 == p2);
    assert(j1 == j2);
}

/// The recorded stable identity is unique: the first matching line, its
/// first arrow, and the start of the preceding run are each pinned, so
/// two records of it agree.
pub proof fn lemma_identify_id_updates_unique(
    c0: PartitionConfigModel,
    m1: PartitionConfigModel,
    m2: PartitionConfigModel,
    listing: Seq<char>,
)
    requires
        identify_id_updates(c0, m1, listing),
        identify_id_updates(c0, m2, listing),
    ensures
        m1 == m2,
{
    let lines = strutil::lines_of(listing);
    let dn = c0.device_name.unwrap();
    let (i1, q1, rs1): (int, int, int) = choose|i: int, q: int, rs: int|
        #![trigger idline_matches(strutil::lines_of(listing)[i], c0.device_name.unwrap(), q), run_start_props(strutil::lines_of(listing)[i], q, rs)]
        {
            &&& listing_first_match(strutil::lines_of(listing), c0.device_name.unwrap(), i)
            &&& idline_matches(strutil::lines_of(listing)[i], c0.device_name.unwrap(), q)
            &&& run_start_props(strutil::lines_of(listing)[i], q, rs)
            &&& rs < q
            &&& m1 == (PartitionConfigModel {
                device_by_id: Some(
                    "/dev/disk/by-id/"@ + strutil::lines_of(listing)[i].subrange(rs, q),
                ),
                device_by_partlabel: Some("/dev/disk/by-partlabel/"@ + c0.label),
                ..c0
            })
        };
    let (i2, q2, rs2): (int, int, int) = choose|i: int, q: int, rs: int|
        #![trigger idline_matches(strutil::lines_of(listing)[i], c0.device_name.unwrap(), q), run_start_props(strutil::lines_of(listing)[i], q, rs)]
        {
            &&& listing_first_match(strutil::lines_of(listing), c0.device_name.unwrap(), i)
            &&& idline_matches(strutil::lines_of(listing)[i], c0.device_name.unwrap(), q)
            &&& run_start_props(strutil::lines_of(listing)[i], q, rs)
            &&& rs < q
            &&& m2 == (PartitionConfigModel {
                device_by_id: Some(
                    "/dev/disk/by-id/"@ + strutil::lines_of(listing)[i].subrange(rs, q),
                ),
                device_by_partlabel: Some("/dev/disk/by-partlabel/"@ + c0.label),
                ..c0
            })
        };
    assert(i1 == i2);
    assert(q1 == q2);
    assert(rs1 == rs2) by {
        if rs1 < rs2 {
            assert(lines[i1][rs2 - 1] != ' ');
        } else if rs2 < rs1 {
            assert(lines[i1][rs1 - 1] != ' ');
        }
    }
}

/// A listing that records a nonempty identity for a device has no empty
/// first capture for it.
pub proof fn lemma_no_empty_capture(
    c0: PartitionConfigModel,
    m: PartitionConfigModel,
    listing: Seq<char>,
)
    requires
        identify_id_updates(c0, m, listing),
    ensures
        !empty_idline_capture(listing, c0.device_name.unwrap()),
{
    let lines = strutil::lines_of(listing);
    let dn = c0.device_name.unwrap();
    if empty_idline_capture(listing, dn) {
        let (i1, q1, rs1): (int, int, int) = choose|i: int, q: int, rs: int|
            #![trigger idline_matches(strutil::lines_of(listing)[i], c0.device_name.unwrap(), q), run_start_props(strutil::lines_of(listing)[i], q, rs)]
            {
                &&& listing_first_match(strutil::lines_of(listing), c0.device_name.unwrap(), i)
                &&& idline_matches(strutil::lines_of(listing)[i], c0.device_name.unwrap(), q)
                &&& run_start_props(strutil::lines_of(listing)[i], q, rs)
                &&& rs < q
                &&& m == (PartitionConfigModel {
                    device_by_id: Some(
                        "/dev/disk/by-id/"@ + strutil::lines_of(listing)[i].subrange(rs, q),
                    ),
                    device_by_partlabel: Some("/dev/disk/by-partlabel/"@ + c0.label),
                    ..c0
                })
            };
        let (i2, q2): (int, int) = choose|i: int, q: int|
            #![trigger idline_matches(strutil::lines_of(listing)[i], dn, q)]
            {
                &&& listing_first_match(strutil::lines_of(listing), dn, i)
                &&& idline_matches(strutil::lines_of(listing)[i], dn, q)
                &&& run_start_props(strutil::lines_of(listing)[i], q, q)
            };
        assert(i1 == i2);
        assert(q1 == q2);
        assert(rs1 == q1) by {
            if rs1 < q1 {
                assert(lines[i1][q1 - 1] != ' ');
            }
        }
    }
}

/// The whole per-partition resolution chain can succeed on these inputs:
/// the type tag parses, the enumeration output matches, and the listing
/// names the device with a nonempty identity.
pub open spec fn partition_creatable(
    c: PartitionConfigModel,
    device: Seq<char>,
    fdisk_output: Seq<char>,
    listing: Seq<char>,
) -> bool {
    &&& gpt::partition_type_of(c.partition_type) is Some
    &&& exists|mid: PartitionConfigModel, mid2: PartitionConfigModel|
        {
            &&& #[trigger] identify_updates(c, mid, device, fdisk_output)
            &&& #[trigger] identify_id_updates(mid, mid2, listing)
        }
}

/// The state transition of a successful per-partition creation pass:
/// the resolved identities recorded, the mapper assigned to an
/// encrypted partition, and everything else unchanged.
pub open spec fn created_state(
    pre: Partition,
    post: Partition,
    device: Seq<char>,
    fdisk_output: Seq<char>,
    listing: Seq<char>,
) -> bool {
    &&& exists|mid: PartitionConfigModel, mid2: PartitionConfigModel|
        {
            &&& #[trigger] identify_updates(pre.config@, mid, device, fdisk_output)
            &&& #[trigger] identify_id_updates(mid, mid2, listing)
            &&& post.config@ == (PartitionConfigModel {
                luks_mapper: if pre.config.encrypted {
                    Some("/dev/mapper/"@ + pre.config@.label)
                } else {
                    mid2.luks_mapper
                },
                ..mid2
            })
        }
    &&& post.opened == pre.opened
    &&& post.mounted == pre.mounted
    &&& post.lvm == pre.lvm
    &&& post.zfs == pre.zfs
}

/// The state transition of the per-partition format pass: the
/// volume-manager layer created (when present), the partition opened
/// when it is encrypted, and everything else unchanged.
pub open spec fn formatted_state(pre: Partition, post: Partition) -> bool {
    &&& post.config@ == pre.config@
    &&& post.mounted == pre.mounted
    &&& post.opened == (pre.opened || pre.config.encrypted)
    &&& post.zfs == pre.zfs
    &&& pre.lvm.volumes@.len() > 0 ==> {
        &&& post.lvm.opened
        &&& post.lvm.partition_label == pre.lvm.partition_label
        &&& post.lvm.volumes@.len() == pre.lvm.volumes@.len()
        &&& forall|i: int| 0 <= i < pre.lvm.volumes@.len() ==> {
            &&& (#[trigger] post.lvm.volumes@[i]).config@ == (lvm::VolumeConfigModel {
                device: Some(
                    lvm::volume_device(pre.config@.label, pre.lvm.volumes@[i].config@.label),
                ),
                ..pre.lvm.volumes@[i].config@
            })
            &&& post.lvm.volumes@[i].mounted == pre.lvm.volumes@[i].mounted
        }
    }
    &&& pre.lvm.volumes@.len() == 0 ==> post.lvm == pre.lvm
}

/// Whether the format pass of a partition succeeds: every volume's
/// filesystem tag is directly formattable when a volume-manager layer is
/// present, and the partition's own tag is otherwise.
pub open spec fn format_ok(pre: Partition) -> bool {
    &&& pre.lvm.volumes@.len() > 0 ==> forall|i: int|
        0 <= i < pre.lvm.volumes@.len() ==> vol_fs_ok((#[trigger] pre.lvm.volumes@[i]).config@)
    &&& pre.lvm.volumes@.len() == 0 ==> (gpt::fs_type_of(pre.config@.fs_type) matches Some(t)
        && !(t is Lvm))
}

/// The format plan of one partition, read off the states before and
/// after the pass: encryption steps, then either the volume-manager
/// creation and per-volume formats or the direct format, then the
/// pooled-filesystem creations.
pub open spec fn format_plan_between(
    pre: Partition,
    post: Partition,
    passphrase: Seq<char>,
    key_file: Seq<char>,
) -> Seq<StepModel> {
    luks_part_spec(post.config@, passphrase, key_file) + (if pre.lvm.volumes@.len() > 0 {
        run_all(
            seq![
                lvm::pvcreate_cmd(format_target(post.config@)),
                lvm::vgcreate_cmd(format_target(post.config@), post.config@.label),
            ] + lvm::volumes_create_plan_upto(
                pre.lvm.volumes@,
                post.config@.label,
                pre.lvm.volumes@.len() as int,
            ),
        ) + lvm::volumes_format_plan_upto(post.lvm.volumes@, post.lvm.volumes@.len() as int)
    } else {
        gpt::format_partition_plan(
            format_target(post.config@),
            gpt::fs_type_of(post.config@.fs_type).unwrap(),
            post.config@.label,
        )
    }) + run_all(zfs::filesystems_create_plan(pre.zfs.filesystems@))
}

/// One partition at run time: its configuration, its in-memory
/// activation state, and its nested layers.
#[derive(Debug)]
pub struct Partition {
    /// Configuration of the partition.
    pub config: Config,
    /// Whether the partition is opened.
    pub opened: bool,
    /// Whether the partition is mounted.
    pub mounted: bool,
    /// The volume-manager layer.
    pub lvm: lvm::Lvm,
    /// The pooled filesystems.
    pub zfs: zfs::Filesystems,
}

impl Partition {
    /// Record the transient device of this partition from the disk
    /// enumeration output: the disk path followed, within one space-free
    /// run, by the partition's ordinal digits.
    pub fn identify(&mut self, device: &str, output: &str) -> (r: Result<(), Error>)
        ensures
            r matches Ok(()) ==> identify_updates(
                old(self).config@,
                final(self).config@,
                device@,
                output@,
            ),
            r matches Err(e) ==> no_transient_match(
                output@,
                device@,
                strutil::dec_str(old(self).config.id as nat),
            ) && *final(self) == *old(self) && e@.kind is Generic && e@.description
                == "Cannot identify partition"@,
            final(self).opened == old(self).opened,
            final(self).mounted == old(self).mounted,
            final(self).lvm == old(self).lvm,
            final(self).zfs == old(self).zfs,
    {
        let idstr = strutil::u32_to_string(self.config.id);
        match resolve_transient(output, device, idstr.as_str()) {
            None => Err(Error::generic("Cannot identify partition")),
            Some(s) => {
                proof {
                    reveal_strlit("/dev/");
                }
                let name: String = if strutil::starts_with(s.as_str(), "/dev/") {
                    let sl = s.as_str().unicode_len();
                    let tail = s.as_str().substring_char(5, sl);
                    proof {
                        assert(tail@ =~= s@.skip(5));
                    }
                    tail.to_owned()
                } else {
                    s.clone()
                };
                proof {
                    assert(name@ == base_name_of(s@));
                }
                self.config.device = Some(s);
                self.config.device_name = Some(name);
                Ok(())
            },
        }
    }

    /// Record the stable identity of this partition from the by-id
    /// listing: the entry whose link target ends with the transient
    /// device's base name, plus the by-partlabel path synthesized from
    /// the label.
    pub fn identify_id(&mut self, listing: &str) -> (r: Result<(), Error>)
        requires
            old(self).config@.device_name is Some,
        ensures
            r matches Ok(()) ==> identify_id_updates(
                old(self).config@,
                final(self).config@,
                listing@,
            ),
            r matches Err(e) ==> *final(self) == *old(self) && e@.kind is Generic && (
            (e@.description == "No partition id"@ && empty_idline_capture(
                listing@,
                old(self).config@.device_name.unwrap(),
            )) || (e@.description == "Cannot find partition ID"@ && no_idline(
                strutil::lines_of(listing@),
                old(self).config@.device_name.unwrap(),
            ))),
            final(self).opened == old(self).opened,
            final(self).mounted == old(self).mounted,
            final(self).lvm == old(self).lvm,
            final(self).zfs == old(self).zfs,
    {
        let lines = strutil::split_lines(listing);
        let devname = match &self.config.device_name {
            Some(d) => d.clone(),
            None => {
                proof {
                    assert(false);
                }
                String::new()
            },
        };
        let n = lines.len();
        let mut i: usize = 0;
        while i < n
            invariant
                n == lines@.len(),
                lines.deep_view() == strutil::lines_of(listing@),
                devname@ == old(self).config@.device_name.unwrap(),
                i <= n,
                *self == *old(self),
                forall|i2: int, q2: int| 0 <= i2 < i ==> !#[trigger] idline_matches(
                    strutil::lines_of(listing@)[i2],
                    devname@,
                    q2,
                ),
            decreases n - i,
        {
            proof {
                assert(lines@[i as int]@ == strutil::lines_of(listing@)[i as int]);
            }
            match idline_capture(lines[i].as_str(), devname.as_str()) {
                Some(c) => {
                    if c.as_str().is_empty() {
                        return Err(Error::generic("No partition id"));
                    }
                    let by_id = strutil::concat2("/dev/disk/by-id/", c.as_str());
                    let by_partlabel = strutil::concat2(
                        "/dev/disk/by-partlabel/",
                        self.config.label.as_str(),
                    );
                    self.config.device_by_id = Some(by_id);
                    self.config.device_by_partlabel = Some(by_partlabel);
                    return Ok(());
                },
                None => {},
            }
            i = i + 1;
        }
        Err(Error::generic("Cannot find partition ID"))
    }

    /// Create this partition on the disk and resolve its identities: the
    /// plan appends a table entry and settles; the two captured outputs
    /// (disk enumeration, stable-identity listing) resolve the device
    /// fields, and an encrypted partition is assigned its mapper path.
    pub fn create(&mut self, device: &str, fdisk_output: &str, byid_listing: &str) -> (r: Result<
        Vec<Step>,
        Error,
    >)
        ensures
            gpt::partition_type_of(old(self).config@.partition_type) is None ==> (r matches Err(e)
                && e@.kind is Generic && e@.description == "Invalid partition type"@
                && *final(self) == *old(self)),
            r matches Ok(p) ==> {
                &&& gpt::partition_type_of(old(self).config@.partition_type) is Some
                &&& p.deep_view() == seq![
                    StepModel::Run(
                        gpt::create_partition_cmd(
                            device@,
                            old(self).config@.size,
                            gpt::partition_type_of(old(self).config@.partition_type).unwrap(),
                            old(self).config@.label,
                        ),
                    ),
                    StepModel::Settle(1),
                ]
                &&& exists|mid: PartitionConfigModel, mid2: PartitionConfigModel|
                    {
                        &&& #[trigger] identify_updates(
                            old(self).config@,
                            mid,
                            device@,
                            fdisk_output@,
                        )
                        &&& #[trigger] identify_id_updates(mid, mid2, byid_listing@)
                        &&& final(self).config@ == (PartitionConfigModel {
                            luks_mapper: if old(self).config.encrypted {
                                Some("/dev/mapper/"@ + old(self).config@.label)
                            } else {
                                mid2.luks_mapper
                            },
                            ..mid2
                        })
                    }
            },
            r is Ok ==> created_state(
                *old(self),
                *final(self),
                device@,
                fdisk_output@,
                byid_listing@,
            ),
            partition_creatable(old(self).config@, device@, fdisk_output@, byid_listing@)
                ==> r is Ok,
            r matches Err(e) ==> e@.kind is Generic,
            r matches Err(e) ==> {
                ||| (e@.description == "Invalid partition type"@ && gpt::partition_type_of(
                    old(self).config@.partition_type,
                ) is None && *final(self) == *old(self))
                ||| (e@.description == "Cannot identify partition"@ && no_transient_match(
                    fdisk_output@,
                    device@,
                    strutil::dec_str(old(self).config.id as nat),
                ) && *final(self) == *old(self))
                ||| (e@.description == "Cannot find partition ID"@ && exists|mid:
                    PartitionConfigModel|
                    #[trigger] identify_updates(old(self).config@, mid, device@, fdisk_output@)
                        && final(self).config@ == mid && no_idline(
                        strutil::lines_of(byid_listing@),
                        mid.device_name.unwrap(),
                    ))
                ||| (e@.description == "No partition id"@ && exists|mid: PartitionConfigModel|
                    #[trigger] identify_updates(old(self).config@, mid, device@, fdisk_output@)
                        && final(self).config@ == mid && empty_idline_capture(
                        byid_listing@,
                        mid.device_name.unwrap(),
                    ))
            },
            final(self).opened == old(self).opened,
            final(self).mounted == old(self).mounted,
            final(self).lvm == old(self).lvm,
            final(self).zfs == old(self).zfs,
    {
        let partition_type = match gpt::PartitionType::from_str(self.config.partition_type.as_str()) {
            Ok(t) => t,
            Err(_) => {
                return Err(Error::generic("Invalid partition type"));
            },
        };
        let cmd = gpt::create_partition(
            device,
            &self.config.size,
            &partition_type,
            self.config.label.as_str(),
        );
        let mut plan: Vec<Step> = Vec::new();
        plan.push(Step::Run(cmd));
        plan.push(Step::Settle(1));
        match self.identify(device, fdisk_output) {
            Ok(()) => (),
            Err(e) => {
                return Err(Error::generic("Cannot identify partition"));
            },
        }
        let ghost mid_cfg = self.config@;
        match self.identify_id(byid_listing) {
            Ok(()) => (),
            Err(e) => {
                proof {
                    assert(identify_updates(old(self).config@, mid_cfg, device@, fdisk_output@));
                    if partition_creatable(old(self).config@, device@, fdisk_output@, byid_listing@) {
                        let (mid_h, mid2_h): (PartitionConfigModel, PartitionConfigModel) = choose|
                            mid: PartitionConfigModel,
                            mid2: PartitionConfigModel,
                        |
                            {
                                &&& #[trigger] identify_updates(
                                    old(self).config@,
                                    mid,
                                    device@,
                                    fdisk_output@,
                                )
                                &&& #[trigger] identify_id_updates(mid, mid2, byid_listing@)
                            };
                        lemma_identify_updates_unique(
                            old(self).config@,
                            mid_h,
                            mid_cfg,
                            device@,
                            fdisk_output@,
                        );
                        lemma_no_empty_capture(mid_cfg, mid2_h, byid_listing@);
                        assert(false);
                    }
                }
                return Err(e);
            },
        }
        if self.config.encrypted {
            let mapper = luks::mapper_path(self.config.label.as_str());
            self.config.luks_mapper = Some(mapper);
        }
        proof {
            assert(plan.deep_view() =~= seq![
                StepModel::Run(
                    gpt::create_partition_cmd(
                        device@,
                        old(self).config@.size,
                        gpt::partition_type_of(old(self).config@.partition_type).unwrap(),
                        old(self).config@.label,
                    ),
                ),
                StepModel::Settle(1),
            ]);
        }
        Ok(plan)
    }

    /// The encryption-format steps of this partition: nothing for a
    /// plain partition; for an encrypted one, the format, add-key and
    /// guarded open steps, after which the partition counts as opened.
    pub fn luks_format(&mut self, passphrase: &str, key_file: &str) -> (r: Vec<Step>)
        requires
            old(self).config.encrypted ==> old(self).config@.device_by_id is Some,
        ensures
            !old(self).config.encrypted ==> r.deep_view() == Seq::<StepModel>::empty()
                && *final(self) == *old(self),
            old(self).config.encrypted ==> r.deep_view() == luks_format_plan(
                old(self).config@,
                passphrase@,
                key_file@,
            ) && final(self).opened && final(self).config == old(self).config && final(self).mounted
                == old(self).mounted && final(self).lvm == old(self).lvm && final(self).zfs == old(
                self,
            ).zfs,
    {
        if !self.config.encrypted {
            let r: Vec<Step> = Vec::new();
            assert(r.deep_view() =~= Seq::<StepModel>::empty());
            return r;
        }
        let by_id = match &self.config.device_by_id {
            Some(d) => d.clone(),
            None => {
                proof {
                    assert(false);
                }
                String::new()
            },
        };
        let mut plan: Vec<Step> = Vec::new();
        plan.push(Step::Run(luks::format(by_id.as_str(), passphrase)));
        plan.push(Step::Run(luks::add_key(by_id.as_str(), passphrase, key_file)));
        plan.push(luks::open(by_id.as_str(), passphrase, self.config.label.as_str()));
        self.opened = true;
        proof {
            assert(plan.deep_view() =~= luks_format_plan(
                old(self).config@,
                passphrase@,
                key_file@,
            ));
        }
        plan
    }

    /// Format this partition: encryption first, then either the
    /// volume-manager layer (created and formatted volume by volume) or
    /// the partition's own filesystem on the format target, then the
    /// pooled filesystems.
    pub fn format(&mut self, key_file: &str, passphrase: &str) -> (r: Result<Vec<Step>, Error>)
        requires
            old(self).config@.device_by_id is Some,
            old(self).config.encrypted ==> old(self).config@.luks_mapper is Some,
        ensures
            final(self).config@ == old(self).config@,
            final(self).mounted == old(self).mounted,
            final(self).opened == (old(self).opened || old(self).config.encrypted),
            final(self).zfs == old(self).zfs,
            formatted_state(*old(self), *final(self)),
            r matches Err(e) ==> e@.kind is Generic,
            format_ok(*old(self)) ==> (r matches Ok(p) && p.deep_view() == format_plan_between(
                *old(self),
                *final(self),
                passphrase@,
                key_file@,
            )),
            !format_ok(*old(self)) ==> r is Err,
            old(self).lvm.volumes@.len() > 0 ==> {
                &&& final(self).lvm.opened
                &&& final(self).lvm.partition_label == old(self).lvm.partition_label
                &&& final(self).lvm.volumes@.len() == old(self).lvm.volumes@.len()
                &&& forall|i: int| 0 <= i < old(self).lvm.volumes@.len() ==> {
                    &&& (#[trigger] final(self).lvm.volumes@[i]).config@
                        == (lvm::VolumeConfigModel {
                        device: Some(
                            lvm::volume_device(
                                old(self).config@.label,
                                old(self).lvm.volumes@[i].config@.label,
                            ),
                        ),
                        ..old(self).lvm.volumes@[i].config@
                    })
                    &&& final(self).lvm.volumes@[i].mounted == old(self).lvm.volumes@[i].mounted
                }
                &&& (forall|i: int| 0 <= i < old(self).lvm.volumes@.len() ==> vol_fs_ok(
                    (#[trigger] old(self).lvm.volumes@[i]).config@,
                )) ==> (r matches Ok(p) && p.deep_view() == luks_part_spec(
                    old(self).config@,
                    passphrase@,
                    key_file@,
                ) + run_all(
                    seq![
                        lvm::pvcreate_cmd(format_target(old(self).config@)),
                        lvm::vgcreate_cmd(format_target(old(self).config@), old(self).config@.label),
                    ] + lvm::volumes_create_plan_upto(
                        old(self).lvm.volumes@,
                        old(self).config@.label,
                        old(self).lvm.volumes@.len() as int,
                    ),
                ) + lvm::volumes_format_plan_upto(
                    final(self).lvm.volumes@,
                    final(self).lvm.volumes@.len() as int,
                ) + run_all(zfs::filesystems_create_plan(old(self).zfs.filesystems@)))
                &&& !(forall|i: int| 0 <= i < old(self).lvm.volumes@.len() ==> vol_fs_ok(
                    (#[trigger] old(self).lvm.volumes@[i]).config@,
                )) ==> (r is Err)
            },
            old(self).lvm.volumes@.len() == 0 ==> {
                &&& final(self).lvm == old(self).lvm
                &&& match gpt::fs_type_of(old(self).config@.fs_type) {
                    Some(t) => if t is Lvm {
                        r matches Err(e) && e@.kind is Generic && e@.description
                            == "Invalid partition format"@
                    } else {
                        r matches Ok(p) && p.deep_view() == luks_part_spec(
                            old(self).config@,
                            passphrase@,
                            key_file@,
                        ) + gpt::format_partition_plan(
                            format_target(old(self).config@),
                            t,
                            old(self).config@.label,
                        ) + run_all(zfs::filesystems_create_plan(old(self).zfs.filesystems@))
                    },
                    None => r matches Err(e) && e@.kind is Generic && e@.description
                        == "Invalid enum value "@ + old(self).config@.fs_type,
                }
            },
    {
        let mut plan: Vec<Step> = self.luks_format(passphrase, key_file);
        let device: String = if self.config.encrypted {
            match &self.config.luks_mapper {
                Some(d) => d.clone(),
                None => {
                    proof {
                        assert(false);
                    }
                    String::new()
                },
            }
        } else {
            match &self.config.device_by_id {
                Some(d) => d.clone(),
                None => {
                    proof {
                        assert(false);
                    }
                    String::new()
                },
            }
        };
        if self.lvm.is_valid() {
            let ghost plan0 = plan.deep_view();
            let mut created = run_steps(self.lvm.create(device.as_str(), self.config.label.as_str()));
            let ghost created_dv = created.deep_view();
            let ghost created_v = created@;
            plan.append(&mut created);
            proof {
                assert(forall|j: int|
                    0 <= j < created_v.len() ==> #[trigger] created_v[j].deep_view()
                        == created_dv[j]);
                assert(plan.deep_view() =~= plan0 + created_dv);
                assert forall|i: int| 0 <= i < self.lvm.volumes@.len() implies (
                lvm::volume_formattable(#[trigger] self.lvm.volumes@[i]) <==> vol_fs_ok(
                    old(self).lvm.volumes@[i].config@,
                )) by {
                    assert(self.lvm.volumes@[i].config@.fs_type == old(
                        self,
                    ).lvm.volumes@[i].config@.fs_type);
                    assert(self.lvm.volumes@[i].config@.device is Some);
                }
            }
            let ghost plan1 = plan.deep_view();
            match self.lvm.format_volumes() {
                Ok(mut formatted) => {
                    let ghost fmt_dv = formatted.deep_view();
                    let ghost fmt_v = formatted@;
                    plan.append(&mut formatted);
                    proof {
                        assert(forall|j: int|
                            0 <= j < fmt_v.len() ==> #[trigger] fmt_v[j].deep_view() == fmt_dv[j]);
                        assert(plan.deep_view() =~= plan1 + fmt_dv);
                        assert forall|i: int| 0 <= i < old(self).lvm.volumes@.len() implies
                        vol_fs_ok((#[trigger] old(self).lvm.volumes@[i]).config@) by {
                            assert(lvm::volume_formattable(self.lvm.volumes@[i]));
                        }
                    }
                },
                Err(e) => {
                    return Err(e);
                },
            }
        } else {
            let ghost plan0 = plan.deep_view();
            match gpt::format_partition(
                device.as_str(),
                self.config.fs_type.as_str(),
                self.config.label.as_str(),
            ) {
                Ok(mut steps) => {
                    let ghost steps_dv = steps.deep_view();
                    let ghost steps_v = steps@;
                    plan.append(&mut steps);
                    proof {
                        assert(forall|j: int|
                            0 <= j < steps_v.len() ==> #[trigger] steps_v[j].deep_view()
                                == steps_dv[j]);
                        assert(plan.deep_view() =~= plan0 + steps_dv);
                    }
                },
                Err(e) => {
                    return Err(e);
                },
            }
        }
        let ghost plan2 = plan.deep_view();
        if self.zfs.is_valid() {
            let mut zsteps = run_steps(self.zfs.create());
            let ghost z_dv = zsteps.deep_view();
            let ghost z_v = zsteps@;
            plan.append(&mut zsteps);
            proof {
                assert(forall|j: int|
                    0 <= j < z_v.len() ==> #[trigger] z_v[j].deep_view() == z_dv[j]);
                assert(plan.deep_view() =~= plan2 + z_dv);
            }
        } else {
            proof {
                assert(zfs::filesystems_create_plan(self.zfs.filesystems@) =~= Seq::<
                    CmdModel,
                >::empty());
                assert(run_all(zfs::filesystems_create_plan(self.zfs.filesystems@)) =~= Seq::<
                    StepModel,
                >::empty());
                assert(plan.deep_view() =~= plan2 + run_all(
                    zfs::filesystems_create_plan(self.zfs.filesystems@),
                ));
            }
        }
        Ok(plan)
    }
}

/// Clone a vector of strings.
fn clone_string_vec(v: &Vec<String>) -> (r: Vec<String>)
    ensures
        r.deep_view() == v.deep_view(),
{
    let mut r: Vec<String> = Vec::new();
    let n = v.len();
    let mut i: usize = 0;
    while i < n
        invariant
            n == v@.len(),
            i <= n,
            r.deep_view().len() == i,
            forall|j: int| 0 <= j < i ==> #[trigger] r.deep_view()[j] == v.deep_view()[j],
        decreases n - i,
    {
        let ghost pre = r.deep_view();
        r.push(v[i].clone());
        proof {
            assert(r.deep_view() =~= pre.push(v.deep_view()[i as int]));
        }
        i = i + 1;
    }
    proof {
        assert(r.deep_view() =~= v.deep_view());
    }
    r
}



/// The plan that opens one partition, outer layer first: the guarded
/// encryption open, then the group activation when a volume-manager
/// layer is present and not already active.
pub open spec fn partition_open_plan(p: Partition, passphrase: Seq<char>) -> Seq<StepModel> {
    (if p.config.encrypted {
        seq![
            luks::luks_open_step(p.config@.device_by_id.unwrap(), passphrase, p.config@.label),
        ]
    } else {
        Seq::<StepModel>::empty()
    }) + (if p.lvm.volumes@.len() > 0 && !p.lvm.opened {
        seq![StepModel::Run(lvm::vgchange_cmd(true, p.lvm.partition_label@))]
    } else {
        Seq::<StepModel>::empty()
    })
}

/// The state of one partition after opening.
pub open spec fn partition_open_next(p: Partition) -> Partition {
    Partition {
        opened: true,
        lvm: if p.lvm.volumes@.len() > 0 {
            lvm::Lvm { opened: true, ..p.lvm }
        } else {
            p.lvm
        },
        ..p
    }
}

/// The plan that closes one partition, inner layer first: the group
/// deactivation when an activated volume-manager layer is present, then
/// the encryption close.
pub open spec fn partition_close_plan(p: Partition) -> Seq<StepModel> {
    (if p.lvm.volumes@.len() > 0 && p.lvm.opened {
        seq![StepModel::Run(lvm::vgchange_cmd(false, p.lvm.partition_label@))]
    } else {
        Seq::<StepModel>::empty()
    }) + (if p.config.encrypted {
        seq![StepModel::Run(luks::luks_close_cmd(p.config@.label))]
    } else {
        Seq::<StepModel>::empty()
    })
}

/// The state of one partition after closing.
pub open spec fn partition_close_next(p: Partition) -> Partition {
    Partition {
        opened: false,
        lvm: if p.lvm.volumes@.len() > 0 {
            lvm::Lvm { opened: false, ..p.lvm }
        } else {
            p.lvm
        },
        ..p
    }
}

impl Openable for Partition {
    open spec fn opened_spec(&self) -> bool {
        self.opened
    }

    open spec fn can_open_spec(&self) -> bool {
        self.config.encrypted ==> self.config@.device_by_id is Some
    }

    open spec fn open_plan_spec(&self, passphrase: Seq<char>) -> Seq<StepModel> {
        partition_open_plan(*self, passphrase)
    }

    open spec fn open_next_spec(&self) -> Self {
        partition_open_next(*self)
    }

    open spec fn close_plan_spec(&self) -> Seq<StepModel> {
        partition_close_plan(*self)
    }

    open spec fn close_next_spec(&self) -> Self {
        partition_close_next(*self)
    }

    fn open(&mut self, passphrase: &str) -> (r: Vec<Step>) {
        if self.opened {
            let r: Vec<Step> = Vec::new();
            assert(r.deep_view() =~= Seq::<StepModel>::empty());
            return r;
        }
        let mut plan: Vec<Step> = Vec::new();
        if self.config.encrypted {
            let by_id = match &self.config.device_by_id {
                Some(d) => d.clone(),
                None => {
                    proof {
                        assert(false);
                    }
                    String::new()
                },
            };
            plan.push(luks::open(by_id.as_str(), passphrase, self.config.label.as_str()));
        }
        if self.lvm.is_valid() {
            let ghost pre_dv = plan.deep_view();
            let mut sub = self.lvm.open(passphrase);
            let ghost sub_dv = sub.deep_view();
            let ghost sub_v = sub@;
            plan.append(&mut sub);
            proof {
                assert(forall|j: int|
                    0 <= j < sub_v.len() ==> #[trigger] sub_v[j].deep_view() == sub_dv[j]);
                assert(plan.deep_view() =~= pre_dv + sub_dv);
            }
        }
        self.opened = true;
        proof {
            assert(plan.deep_view() =~= old(self).open_plan_spec(passphrase@));
            assert(*self == old(self).open_next_spec());
        }
        plan
    }

    fn close(&mut self) -> (r: Vec<Step>) {
        if !self.opened {
            let r: Vec<Step> = Vec::new();
            assert(r.deep_view() =~= Seq::<StepModel>::empty());
            return r;
        }
        let mut plan: Vec<Step> = Vec::new();
        if self.lvm.is_valid() {
            let ghost pre_dv = plan.deep_view();
            let mut sub = self.lvm.close();
            let ghost sub_dv = sub.deep_view();
            let ghost sub_v = sub@;
            plan.append(&mut sub);
            proof {
                assert(forall|j: int|
                    0 <= j < sub_v.len() ==> #[trigger] sub_v[j].deep_view() == sub_dv[j]);
                assert(plan.deep_view() =~= pre_dv + sub_dv);
            }
        }
        if self.config.encrypted {
            plan.push(Step::Run(luks::close(self.config.label.as_str())));
        }
        self.opened = false;
        proof {
            assert(plan.deep_view() =~= old(self).close_plan_spec());
            assert(*self == old(self).close_next_spec());
        }
        plan
    }
}

impl Mountable for Partition {
    open spec fn mounted_spec(&self) -> bool {
        self.mounted
    }

    open spec fn mount_device_spec(&self) -> Option<Seq<char>> {
        self.config@.device_by_id
    }

    open spec fn mount_cmd_spec(&self, mountpoint: Seq<char>) -> CmdModel {
        CmdModel {
            program: "mount"@,
            args: seq![self.config@.device_by_id.unwrap(), mountpoint],
            stdin: None,
        }
    }

    open spec fn unmount_cmd_spec(&self) -> CmdModel {
        CmdModel { program: "umount"@, args: seq![self.config@.device_by_id.unwrap()], stdin: None }
    }

    open spec fn with_mounted_spec(&self, m: bool) -> Self {
        Partition { mounted: m, ..*self }
    }

    open spec fn no_device_error_spec(&self) -> Seq<char> {
        "No device for partition"@
    }

    fn mount(&mut self, mountpoint: &str) -> (r: Result<Option<Cmd>, Error>) {
        if self.mounted {
            return Ok(None);
        }
        let device = match &self.config.device_by_id {
            Some(d) => d,
            None => {
                return Err(Error::generic("No device for partition"));
            },
        };
        let c = Cmd::new("mount").arg(device.as_str()).arg(mountpoint);
        proof {
            assert(c@.args =~= old(self).mount_cmd_spec(mountpoint@).args);
        }
        self.mounted = true;
        Ok(Some(c))
    }

    fn unmount(&mut self) -> (r: Result<Option<Cmd>, Error>) {
        if !self.mounted {
            return Ok(None);
        }
        let device = match &self.config.device_by_id {
            Some(d) => d,
            None => {
                return Err(Error::generic("No device for partition"));
            },
        };
        let c = Cmd::new("umount").arg(device.as_str());
        proof {
            assert(c@.args =~= old(self).unmount_cmd_spec().args);
        }
        self.mounted = false;
        Ok(Some(c))
    }
}


/// The configuration one partition currently carries: its own fields
/// with the nested layers read back from the runtime objects.
pub open spec fn partition_config_model(p: Partition) -> PartitionConfigModel {
    PartitionConfigModel {
        lvm: p.lvm.volumes@.map_values(|v: lvm::Volume| v.config@),
        zfs: p.zfs.filesystems@.map_values(|f: zfs::Filesystem| f.config@),
        ..p.config@
    }
}

/// Nothing in the partition or its layers is opened or mounted.
pub open spec fn partition_fresh(p: Partition) -> bool {
    &&& !p.opened
    &&& !p.mounted
    &&& !p.lvm.opened
    &&& forall|i: int| 0 <= i < p.lvm.volumes@.len() ==> !(#[trigger] p.lvm.volumes@[i]).mounted
    &&& forall|i: int| 0 <= i < p.zfs.filesystems@.len() ==> !(
    #[trigger] p.zfs.filesystems@[i]).mounted
}

impl Configurable<Config> for Partition {
    open spec fn config_spec(&self) -> PartitionConfigModel {
        partition_config_model(*self)
    }

    open spec fn normalize_spec(c: PartitionConfigModel) -> PartitionConfigModel {
        c
    }

    open spec fn fresh_spec(&self) -> bool {
        partition_fresh(*self)
    }

    fn from_config(config: &Config) -> (r: Self) {
        let r = Partition {
            config: config.clone(),
            opened: false,
            mounted: false,
            lvm: lvm::Lvm::from_config(&config.lvm, config.label.as_str()),
            zfs: zfs::Filesystems::from_config(config.label.as_str(), &config.zfs),
        };
        proof {
            assert(r.lvm.volumes@.map_values(|v: lvm::Volume| v.config@)
                =~= config.lvm.deep_view());
            assert(r.zfs.filesystems@.map_values(|f: zfs::Filesystem| f.config@)
                =~= config.zfs.deep_view());
        }
        r
    }

    fn config(&self) -> (r: Result<Config, Error>) {
        let mut c = self.config.clone();
        match self.lvm.config() {
            Ok(l) => {
                c.lvm = l;
            },
            Err(e) => {
                return Err(e);
            },
        }
        match self.zfs.config() {
            Ok(z) => {
                c.zfs = z;
            },
            Err(e) => {
                return Err(e);
            },
        }
        Ok(c)
    }
}

/// Opening a node twice changes nothing the second time, and closing a
/// node twice changes nothing the second time: after one transition the
/// node is in the asked state, so the next call yields an empty plan and
/// the same state.
pub proof fn lemma_open_close_idempotent(p: Partition)
    ensures
        partition_open_next(p).opened,
        partition_open_next(partition_open_next(p)) == partition_open_next(p),
        !partition_close_next(p).opened,
        partition_close_next(partition_close_next(p)) == partition_close_next(p),
{
}

/// Activation order across layers: opening an encrypted partition with a
/// volume group performs the encryption open strictly before the group
/// activation, and closing performs the group deactivation strictly
/// before the encryption close.
pub proof fn lemma_open_close_ordering(p: Partition, passphrase: Seq<char>)
    requires
        p.config.encrypted,
        p.config@.device_by_id is Some,
        p.lvm.volumes@.len() > 0,
        !p.lvm.opened,
    ensures
        partition_open_plan(p, passphrase).len() == 2,
        partition_open_plan(p, passphrase)[0] == luks::luks_open_step(
            p.config@.device_by_id.unwrap(),
            passphrase,
            p.config@.label,
        ),
        partition_open_plan(p, passphrase)[1] == StepModel::Run(
            lvm::vgchange_cmd(true, p.lvm.partition_label@),
        ),
{
}

/// Deactivation order across layers: closing an opened partition with an
/// activated volume group deactivates the group strictly before closing
/// the encryption.
pub proof fn lemma_close_ordering(p: Partition)
    requires
        p.config.encrypted,
        p.lvm.volumes@.len() > 0,
        p.lvm.opened,
    ensures
        partition_close_plan(p).len() == 2,
        partition_close_plan(p)[0] == StepModel::Run(
            lvm::vgchange_cmd(false, p.lvm.partition_label@),
        ),
        partition_close_plan(p)[1] == StepModel::Run(luks::luks_close_cmd(p.config@.label)),
{
}


} // verus!
