//! The volume-manager layer: a volume group scoped to its partition's
//! label, and the logical volumes carved from it.

use vstd::prelude::*;

use crate::error::{Error, ErrorModel};
use crate::gpt;
use crate::strutil;
use crate::traits::{Configurable, Mountable, Openable, Validate};
use crate::{Cmd, CmdModel, Step, StepModel};

verus! {

/// Configuration of one logical volume.
#[derive(Debug)]
pub struct Config {
    /// Identifier of the volume.
    pub id: u32,
    /// Requested size; zero means "use all free space".
    pub size: gpt::Bytesize,
    /// Type tag of the volume.
    pub volume_type: String,
    /// Whether the volume is encrypted.
    pub encrypted: bool,
    /// Filesystem type tag of the volume.
    pub fs_type: String,
    /// Label of the volume.
    pub label: String,
    /// Whether the volume is the root filesystem.
    pub is_root: bool,
    /// Resolved block device of the volume; empty until creation.
    pub device: Option<String>,
}

/// Mathematical model of a logical-volume configuration.
pub struct VolumeConfigModel {
    pub id: u32,
    pub size: gpt::Bytesize,
    pub volume_type: Seq<char>,
    pub encrypted: bool,
    pub fs_type: Seq<char>,
    pub label: Seq<char>,
    pub is_root: bool,
    pub device: Option<Seq<char>>,
}

impl View for Config {
    type V = VolumeConfigModel;

    open spec fn view(&self) -> VolumeConfigModel {
        VolumeConfigModel {
            id: self.id,
            size: self.size,
            volume_type: self.volume_type@,
            encrypted: self.encrypted,
            fs_type: self.fs_type@,
            label: self.label@,
            is_root: self.is_root,
            device: self.device.deep_view(),
        }
    }
}

impl DeepView for Config {
    type V = VolumeConfigModel;

    open spec fn deep_view(&self) -> VolumeConfigModel {
        self.view()
    }
}

impl Clone for Config {
    fn clone(&self) -> (r: Self)
        ensures
            r@ == self@,
    {
        let device = match &self.device {
            Some(d) => Some(d.clone()),
            None => None,
        };
        let r = Config {
            id: self.id,
            size: self.size,
            volume_type: self.volume_type.clone(),
            encrypted: self.encrypted,
            fs_type: self.fs_type.clone(),
            label: self.label.clone(),
            is_root: self.is_root,
            device,
        };
        r
    }
}

/// The name of the volume group scoped to a partition's label.
pub open spec fn vg_name(partition_label: Seq<char>) -> Seq<char> {
    "vg-"@ + partition_label
}

/// The resolved device path of a logical volume inside its group.
pub open spec fn volume_device(partition_label: Seq<char>, volume_label: Seq<char>) -> Seq<char> {
    "/dev/vg-"@ + partition_label + "/"@ + volume_label
}

/// The command that creates one logical volume: a fixed size where one is
/// requested, all free space otherwise.
pub open spec fn lvcreate_cmd(
    size: gpt::Bytesize,
    volume_label: Seq<char>,
    partition_label: Seq<char>,
) -> CmdModel {
    CmdModel {
        program: "lvcreate"@,
        args: seq![
            if size.value == 0 {
                "-l"@
            } else {
                "-L"@
            },
            if size.value == 0 {
                "100%FREE"@
            } else {
                gpt::bytesize_string(size)
            },
            "-n"@,
            volume_label,
            vg_name(partition_label),
        ],
        stdin: None,
    }
}

/// The command that turns a device into a physical volume.
pub open spec fn pvcreate_cmd(device: Seq<char>) -> CmdModel {
    CmdModel { program: "pvcreate"@, args: seq!["-y"@, "-ff"@, device], stdin: None }
}

/// The command that creates the volume group for a label on a device.
pub open spec fn vgcreate_cmd(device: Seq<char>, label: Seq<char>) -> CmdModel {
    CmdModel { program: "vgcreate"@, args: seq![vg_name(label), device], stdin: None }
}

/// The command that activates or deactivates the volume group of a label.
pub open spec fn vgchange_cmd(active: bool, partition_label: Seq<char>) -> CmdModel {
    CmdModel {
        program: "vgchange"@,
        args: seq![
            "-a"@,
            if active {
                "y"@
            } else {
                "n"@
            },
            vg_name(partition_label),
        ],
        stdin: None,
    }
}

/// One logical volume at run time.
#[derive(Debug)]
pub struct Volume {
    /// Configuration of the volume.
    pub config: Config,
    /// Whether the volume is mounted.
    pub mounted: bool,
}

/// A volume can be formatted when its device is resolved and its
/// filesystem type tag is recognized and is not the volume-manager tag.
pub open spec fn volume_formattable(v: Volume) -> bool {
    &&& v.config@.device is Some
    &&& gpt::fs_type_of(v.config@.fs_type) matches Some(t) && !(t is Lvm)
}

/// The plan that formats one volume on its resolved device.
pub open spec fn volume_format_plan(v: Volume) -> Seq<StepModel> {
    gpt::format_partition_plan(
        v.config@.device.unwrap(),
        gpt::fs_type_of(v.config@.fs_type).unwrap(),
        v.config@.label,
    )
}

/// The error reported for a volume that cannot be formatted.
pub open spec fn volume_format_error(v: Volume) -> ErrorModel {
    if v.config@.device is None {
        ErrorModel { description: "No volume device"@, kind: crate::error::ErrorKindModel::Generic }
    } else if gpt::fs_type_of(v.config@.fs_type) is None {
        ErrorModel {
            description: "Invalid enum value "@ + v.config@.fs_type,
            kind: crate::error::ErrorKindModel::Generic,
        }
    } else {
        ErrorModel {
            description: "Invalid partition format"@,
            kind: crate::error::ErrorKindModel::Generic,
        }
    }
}

impl Volume {
    /// The command that creates this volume inside the group of the given
    /// partition label, recording the volume's resolved device path.
    pub fn create(&mut self, partition_label: &str) -> (r: Cmd)
        ensures
            r@ == lvcreate_cmd(old(self).config@.size, old(self).config@.label, partition_label@),
            final(self).config@ == (VolumeConfigModel {
                device: Some(volume_device(partition_label@, old(self).config@.label)),
                ..old(self).config@
            }),
            final(self).mounted == old(self).mounted,
    {
        let null = self.config.size.is_null();
        let opt_size: &str = if null {
            "-l"
        } else {
            "-L"
        };
        let size: String = if null {
            "100%FREE".to_owned()
        } else {
            self.config.size.to_string()
        };
        let vg = strutil::concat2("vg-", partition_label);
        let c = Cmd::new("lvcreate").arg(opt_size).arg(size.as_str()).arg("-n").arg(
            self.config.label.as_str(),
        ).arg(vg.as_str());
        proof {
            assert(c@.args =~= lvcreate_cmd(
                self.config@.size,
                self.config@.label,
                partition_label@,
            ).args);
        }
        let device = strutil::concat4("/dev/vg-", partition_label, "/", self.config.label.as_str());
        self.config.device = Some(device);
        c
    }

    /// The plan that formats this volume according to its filesystem type
    /// tag, on its resolved device.
    pub fn format(&self) -> (r: Result<Vec<Step>, Error>)
        ensures
            volume_formattable(*self) ==> (r matches Ok(p) && p.deep_view() == volume_format_plan(
                *self,
            )),
            !volume_formattable(*self) ==> (r matches Err(e) && e@ == volume_format_error(*self)),
    {
        let device = match &self.config.device {
            Some(d) => d,
            None => {
                return Err(Error::generic("No volume device"));
            },
        };
        gpt::format_partition(device.as_str(), self.config.fs_type.as_str(), self.config.label.as_str())
    }
}

impl Configurable<Config> for Volume {
    open spec fn config_spec(&self) -> VolumeConfigModel {
        self.config@
    }

    open spec fn normalize_spec(c: VolumeConfigModel) -> VolumeConfigModel {
        c
    }

    open spec fn fresh_spec(&self) -> bool {
        !self.mounted
    }

    fn from_config(config: &Config) -> (r: Self) {
        Volume { config: config.clone(), mounted: false }
    }

    fn config(&self) -> (r: Result<Config, Error>) {
        Ok(self.config.clone())
    }
}

impl Mountable for Volume {
    open spec fn mounted_spec(&self) -> bool {
        self.mounted
    }

    open spec fn mount_device_spec(&self) -> Option<Seq<char>> {
        self.config@.device
    }

    open spec fn mount_cmd_spec(&self, mountpoint: Seq<char>) -> CmdModel {
        CmdModel {
            program: "mount"@,
            args: seq![self.config@.device.unwrap(), mountpoint],
            stdin: None,
        }
    }

    open spec fn unmount_cmd_spec(&self) -> CmdModel {
        CmdModel { program: "umount"@, args: seq![self.config@.device.unwrap()], stdin: None }
    }

    open spec fn with_mounted_spec(&self, m: bool) -> Self {
        Volume { mounted: m, ..*self }
    }

    open spec fn no_device_error_spec(&self) -> Seq<char> {
        "No device for volume"@
    }

    fn mount(&mut self, mountpoint: &str) -> (r: Result<Option<Cmd>, Error>) {
        if self.mounted {
            return Ok(None);
        }
        let device = match &self.config.device {
            Some(d) => d,
            None => {
                return Err(Error::generic("No device for volume"));
            },
        };
        let c = Cmd::new("mount").arg(device.as_str()).arg(mountpoint);
        proof {
            assert(c@.args =~= old(self).mount_cmd_spec(mountpoint@).args);
        }
        self.mounted = true;
        Ok(Some(c))
    }

    fn unmount(&mut self) -> (r: Result<Option<Cmd>, Error>) {
        if !self.mounted {
            return Ok(None);
        }
        let device = match &self.config.device {
            Some(d) => d,
            None => {
                return Err(Error::generic("No device for volume"));
            },
        };
        let c = Cmd::new("umount").arg(device.as_str());
        proof {
            assert(c@.args =~= old(self).unmount_cmd_spec().args);
        }
        self.mounted = false;
        Ok(Some(c))
    }
}

/// The plan that creates the first `i` volumes of a group, in order.
pub open spec fn volumes_create_plan_upto(
    volumes: Seq<Volume>,
    partition_label: Seq<char>,
    i: int,
) -> Seq<CmdModel>
    decreases i,
{
    if i <= 0 {
        Seq::empty()
    } else {
        volumes_create_plan_upto(volumes, partition_label, i - 1).push(
            lvcreate_cmd(volumes[i - 1].config@.size, volumes[i - 1].config@.label, partition_label),
        )
    }
}

/// The plan that formats the first `i` volumes of a group, in order.
pub open spec fn volumes_format_plan_upto(volumes: Seq<Volume>, i: int) -> Seq<StepModel>
    decreases i,
{
    if i <= 0 {
        Seq::empty()
    } else {
        volumes_format_plan_upto(volumes, i - 1) + volume_format_plan(volumes[i - 1])
    }
}

/// The volume-manager layer of one partition: a volume group named after
/// the partition's label, holding the logical volumes.
#[derive(Debug)]
pub struct Lvm {
    /// Whether the group is activated.
    pub opened: bool,
    /// Label of the owning partition.
    pub partition_label: String,
    /// The logical volumes, in configuration order.
    pub volumes: Vec<Volume>,
}

impl Lvm {
    /// Build the volume-manager layer from the volume configurations,
    /// with fresh in-memory state.
    pub fn from_config(lvms: &Vec<Config>, partition_label: &str) -> (r: Self)
        ensures
            !r.opened,
            r.partition_label@ == partition_label@,
            r.volumes@.len() == lvms@.len(),
            forall|i: int| 0 <= i < lvms@.len() ==> {
                &&& (#[trigger] r.volumes@[i]).config@ == lvms.deep_view()[i]
                &&& !r.volumes@[i].mounted
            },
    {
        let mut volumes: Vec<Volume> = Vec::new();
        let n = lvms.len();
        let mut i: usize = 0;
        while i < n
            invariant
                n == lvms@.len(),
                i <= n,
                volumes@.len() == i,
                forall|j: int| 0 <= j < i ==> {
                    &&& (#[trigger] volumes@[j]).config@ == lvms.deep_view()[j]
                    &&& !volumes@[j].mounted
                },
            decreases n - i,
        {
            let v = Volume::from_config(&lvms[i]);
            volumes.push(v);
            i = i + 1;
        }
        Lvm { opened: false, partition_label: partition_label.to_owned(), volumes }
    }

    /// Convert back to the volume configurations.
    pub fn config(&self) -> (r: Result<Vec<Config>, Error>)
        ensures
            r matches Ok(cs) && cs.deep_view() == self.volumes@.map_values(
                |v: Volume| v.config@,
            ),
    {
        let mut configs: Vec<Config> = Vec::new();
        let n = self.volumes.len();
        let mut i: usize = 0;
        while i < n
            invariant
                n == self.volumes@.len(),
                i <= n,
                configs.deep_view().len() == i,
                forall|j: int| 0 <= j < i ==> configs.deep_view()[j] == (
                #[trigger] self.volumes@[j]).config@,
            decreases n - i,
        {
            match self.volumes[i].config() {
                Ok(c) => configs.push(c),
                Err(e) => {
                    return Err(e);
                },
            }
            i = i + 1;
        }
        proof {
            assert(configs.deep_view() =~= self.volumes@.map_values(|v: Volume| v.config@));
        }
        Ok(configs)
    }

    /// The command that creates the physical volume on a device.
    pub fn pv_create(&self, device: &str) -> (r: Cmd)
        ensures
            r@ == pvcreate_cmd(device@),
    {
        let c = Cmd::new("pvcreate").arg("-y").arg("-ff").arg(device);
        proof {
            assert(c@.args =~= pvcreate_cmd(device@).args);
        }
        c
    }

    /// The command that creates the volume group for a label on a device.
    pub fn vg_create(&self, device: &str, label: &str) -> (r: Cmd)
        ensures
            r@ == vgcreate_cmd(device@, label@),
    {
        let vg = strutil::concat2("vg-", label);
        let c = Cmd::new("vgcreate").arg(vg.as_str()).arg(device);
        proof {
            assert(c@.args =~= vgcreate_cmd(device@, label@).args);
        }
        c
    }

    /// The plan that creates every logical volume, in order, recording
    /// each volume's resolved device path.
    pub fn volumes_create(&mut self, partition_label: &str) -> (r: Vec<Cmd>)
        ensures
            r.deep_view() == volumes_create_plan_upto(
                old(self).volumes@,
                partition_label@,
                old(self).volumes@.len() as int,
            ),
            final(self).opened == old(self).opened,
            final(self).partition_label == old(self).partition_label,
            final(self).volumes@.len() == old(self).volumes@.len(),
            forall|i: int| 0 <= i < old(self).volumes@.len() ==> {
                &&& (#[trigger] final(self).volumes@[i]).config@ == (VolumeConfigModel {
                    device: Some(
                        volume_device(partition_label@, old(self).volumes@[i].config@.label),
                    ),
                    ..old(self).volumes@[i].config@
                })
                &&& final(self).volumes@[i].mounted == old(self).volumes@[i].mounted
            },
    {
        let mut plan: Vec<Cmd> = Vec::new();
        let n = self.volumes.len();
        let mut i: usize = 0;
        while i < n
            invariant
                n == old(self).volumes@.len(),
                n == self.volumes@.len(),
                i <= n,
                self.opened == old(self).opened,
                self.partition_label == old(self).partition_label,
                plan.deep_view() == volumes_create_plan_upto(
                    old(self).volumes@,
                    partition_label@,
                    i as int,
                ),
                forall|j: int| i <= j < n ==> #[trigger] self.volumes@[j] == old(
                    self,
                ).volumes@[j],
                forall|j: int| 0 <= j < i ==> {
                    &&& (#[trigger] self.volumes@[j]).config@ == (VolumeConfigModel {
                        device: Some(
                            volume_device(partition_label@, old(self).volumes@[j].config@.label),
                        ),
                        ..old(self).volumes@[j].config@
                    })
                    &&& self.volumes@[j].mounted == old(self).volumes@[j].mounted
                },
            decreases n - i,
        {
            let ghost pre_dv = plan.deep_view();
            let c = self.volumes[i].create(partition_label);
            plan.push(c);
            proof {
                assert(plan.deep_view() =~= pre_dv.push(c@));
            }
            i = i + 1;
        }
        plan
    }

    /// The plan that creates the whole volume-manager layer on a device:
    /// physical volume, volume group, then each logical volume. A layer
    /// with no volumes asks for nothing and stays as it is.
    pub fn create(&mut self, device: &str, label: &str) -> (r: Vec<Cmd>)
        ensures
            old(self).volumes@.len() == 0 ==> r.deep_view() == Seq::<CmdModel>::empty()
                && *final(self) == *old(self),
            old(self).volumes@.len() > 0 ==> {
                &&& r.deep_view() == seq![pvcreate_cmd(device@), vgcreate_cmd(device@, label@)]
                    + volumes_create_plan_upto(
                    old(self).volumes@,
                    label@,
                    old(self).volumes@.len() as int,
                )
                &&& final(self).opened
                &&& final(self).partition_label == old(self).partition_label
                &&& final(self).volumes@.len() == old(self).volumes@.len()
                &&& forall|i: int| 0 <= i < old(self).volumes@.len() ==> {
                    &&& (#[trigger] final(self).volumes@[i]).config@ == (VolumeConfigModel {
                        device: Some(volume_device(label@, old(self).volumes@[i].config@.label)),
                        ..old(self).volumes@[i].config@
                    })
                    &&& final(self).volumes@[i].mounted == old(self).volumes@[i].mounted
                }
            },
    {
        if !(self.volumes.len() > 0) {
            let r: Vec<Cmd> = Vec::new();
            assert(r.deep_view() =~= Seq::<CmdModel>::empty());
            return r;
        }
        let mut plan: Vec<Cmd> = Vec::new();
        plan.push(self.pv_create(device));
        plan.push(self.vg_create(device, label));
        let ghost pre_dv = plan.deep_view();
        let mut rest = self.volumes_create(label);
        let ghost rest_dv = rest.deep_view();
        let ghost rest_v = rest@;
        plan.append(&mut rest);
        self.opened = true;
        proof {
            assert(forall|j: int|
                0 <= j < rest_v.len() ==> #[trigger] rest_v[j].deep_view() == rest_dv[j]);
            assert(pre_dv =~= seq![pvcreate_cmd(device@), vgcreate_cmd(device@, label@)]);
            assert(plan.deep_view() =~= pre_dv + rest_dv);
        }
        plan
    }

    /// The plan that formats every logical volume, in order; the first
    /// volume that cannot be formatted aborts the whole operation with
    /// its error.
    pub fn format_volumes(&self) -> (r: Result<Vec<Step>, Error>)
        ensures
            (forall|i: int| 0 <= i < self.volumes@.len() ==> volume_formattable(
                #[trigger] self.volumes@[i],
            )) ==> (r matches Ok(p) && p.deep_view() == volumes_format_plan_upto(
                self.volumes@,
                self.volumes@.len() as int,
            )),
            !(forall|i: int| 0 <= i < self.volumes@.len() ==> volume_formattable(
                #[trigger] self.volumes@[i],
            )) ==> (r matches Err(e) && exists|k: int|
                0 <= k < self.volumes@.len() && !volume_formattable(#[trigger] self.volumes@[k])
                    && (forall|j: int| 0 <= j < k ==> volume_formattable(#[trigger] self.volumes@[j]))
                    && e@ == volume_format_error(self.volumes@[k])),
    {
        let mut plan: Vec<Step> = Vec::new();
        let n = self.volumes.len();
        let mut i: usize = 0;
        while i < n
            invariant
                n == self.volumes@.len(),
                i <= n,
                plan.deep_view() == volumes_format_plan_upto(self.volumes@, i as int),
                forall|j: int| 0 <= j < i ==> volume_formattable(#[trigger] self.volumes@[j]),
            decreases n - i,
        {
            match self.volumes[i].format() {
                Ok(mut steps) => {
                    let ghost pre_dv = plan.deep_view();
                    let ghost steps_dv = steps.deep_view();
                    let ghost steps_v = steps@;
                    plan.append(&mut steps);
                    proof {
                        assert(forall|j: int|
                            0 <= j < steps_v.len() ==> #[trigger] steps_v[j].deep_view()
                                == steps_dv[j]);
                        assert(plan.deep_view() =~= pre_dv + steps_dv);
                        assert(volume_formattable(self.volumes@[i as int]));
                    }
                },
                Err(e) => {
                    return Err(e);
                },
            }
            i = i + 1;
        }
        Ok(plan)
    }
}

impl Validate for Lvm {
    open spec fn valid_spec(&self) -> bool {
        self.volumes@.len() > 0
    }

    fn is_valid(&self) -> (r: bool) {
        self.volumes.len() > 0
    }
}

impl Openable for Lvm {
    open spec fn opened_spec(&self) -> bool {
        self.opened
    }

    open spec fn can_open_spec(&self) -> bool {
        true
    }

    open spec fn open_plan_spec(&self, passphrase: Seq<char>) -> Seq<StepModel> {
        seq![StepModel::Run(vgchange_cmd(true, self.partition_label@))]
    }

    open spec fn open_next_spec(&self) -> Self {
        Lvm { opened: true, ..*self }
    }

    open spec fn close_plan_spec(&self) -> Seq<StepModel> {
        seq![StepModel::Run(vgchange_cmd(false, self.partition_label@))]
    }

    open spec fn close_next_spec(&self) -> Self {
        Lvm { opened: false, ..*self }
    }

    fn open(&mut self, passphrase: &str) -> (r: Vec<Step>) {
        if self.opened {
            let r: Vec<Step> = Vec::new();
            assert(r.deep_view() =~= Seq::<StepModel>::empty());
            return r;
        }
        let vg = strutil::concat2("vg-", self.partition_label.as_str());
        let c = Cmd::new("vgchange").arg("-a").arg("y").arg(vg.as_str());
        proof {
            assert(c@.args =~= vgchange_cmd(true, self.partition_label@).args);
        }
        self.opened = true;
        let mut r: Vec<Step> = Vec::new();
        r.push(Step::Run(c));
        proof {
            assert(r.deep_view() =~= old(self).open_plan_spec(passphrase@));
        }
        r
    }

    fn close(&mut self) -> (r: Vec<Step>) {
        if !self.opened {
            let r: Vec<Step> = Vec::new();
            assert(r.deep_view() =~= Seq::<StepModel>::empty());
            return r;
        }
        let vg = strutil::concat2("vg-", self.partition_label.as_str());
        let c = Cmd::new("vgchange").arg("-a").arg("n").arg(vg.as_str());
        proof {
            assert(c@.args =~= vgchange_cmd(false, self.partition_label@).args);
        }
        self.opened = false;
        let mut r: Vec<Step> = Vec::new();
        r.push(Step::Run(c));
        proof {
            assert(r.deep_view() =~= old(self).close_plan_spec());
        }
        r
    }
}

} // verus!
