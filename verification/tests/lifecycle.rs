use nixos_setup::disk;
use nixos_setup::disk::{Disk, RoleHandle};
use nixos_setup::filesystem::{Config as LayoutConfig, Filesystem};
use nixos_setup::gpt::Bytesize;
use nixos_setup::lvm;
use nixos_setup::partition::{Config, Partition};
use nixos_setup::traits::{Configurable, Mountable, Openable, Validate};
use nixos_setup::zfs;
use nixos_setup::Step;

fn plain_config(id: u32, label: &str) -> Config {
    Config {
        id,
        size: Bytesize::from("0"),
        partition_type: "linux".to_string(),
        encrypted: false,
        fs_type: "ext4".to_string(),
        label: label.to_string(),
        is_system: false,
        is_root: false,
        lvm: Vec::new(),
        zfs: Vec::new(),
        device: None,
        device_name: None,
        device_by_id: None,
        device_by_partlabel: None,
        luks_mapper: None,
    }
}

fn volume_config(id: u32, label: &str, is_root: bool) -> lvm::Config {
    lvm::Config {
        id,
        size: Bytesize::from("0"),
        volume_type: "linux".to_string(),
        encrypted: false,
        fs_type: "ext4".to_string(),
        label: label.to_string(),
        is_root,
        device: None,
    }
}

const FDISK_OUTPUT: &str = "Device     Start       End   Sectors  Size Type\n\
/dev/sda1   2048   1050623   1048576  512M EFI System\n\
/dev/sda2 1050624 209715166 208664543 99.5G Linux filesystem\n";

const BYID_LISTING: &str = "lrwxrwxrwx 1 root root  9 x ata-DISK -> ../../sda\n\
lrwxrwxrwx 1 root root 10 x ata-DISK-part1 -> ../../sda1\n\
lrwxrwxrwx 1 root root 10 x ata-DISK-part2 -> ../../sda2\n";

fn boot_and_root_layout(encrypted_root: bool) -> LayoutConfig {
    let mut boot = plain_config(1, "boot");
    boot.partition_type = "efi".to_string();
    boot.fs_type = "fat32".to_string();
    boot.size = Bytesize::from("512M");
    let mut root = plain_config(2, "root");
    root.is_root = true;
    root.encrypted = encrypted_root;
    LayoutConfig {
        disks: vec![disk::Config {
            device: "/dev/sda".to_string(),
            read_only: false,
            contains_system: true,
            partitions: vec![root, boot],
        }],
    }
}

#[test]
fn validation_accepts_the_layout_and_rejects_broken_fields() {
    let layout = boot_and_root_layout(false);
    assert!(layout.is_valid());
    let mut broken = boot_and_root_layout(false);
    broken.disks[0].partitions[0].id = 0;
    assert!(!broken.is_valid());
    let mut broken = boot_and_root_layout(false);
    broken.disks[0].partitions[0].label = String::new();
    assert!(!broken.is_valid());
    let mut broken = boot_and_root_layout(false);
    broken.disks[0].partitions[0].fs_type = "btrfs".to_string();
    assert!(!broken.is_valid());
    let mut broken = boot_and_root_layout(false);
    broken.disks[0].device = String::new();
    assert!(!broken.is_valid());
}

#[test]
fn loading_sorts_partitions_by_id() {
    let layout = boot_and_root_layout(false);
    // partitions are given root (id 2) first, boot (id 1) second
    let fs = Filesystem::from_config(&layout).unwrap();
    assert_eq!(fs.disks[0].partitions[0].config.id, 1);
    assert_eq!(fs.disks[0].partitions[1].config.id, 2);
    assert_eq!(fs.disks[0].config.partitions[0].id, 1);
}

#[test]
fn loading_rejects_an_invalid_layout() {
    let mut layout = boot_and_root_layout(false);
    layout.disks[0].partitions[0].partition_type = "mbr".to_string();
    let e = Filesystem::from_config(&layout).unwrap_err();
    assert_eq!(e.description, "Filesystem configuration is not valid");
}

#[test]
fn configuration_round_trip_is_identity() {
    let layout = boot_and_root_layout(false);
    let fs = Filesystem::from_config(&layout).unwrap();
    let saved = fs.to_config().unwrap();
    // reloading the saved configuration yields the same configuration
    let fs2 = Filesystem::from_config(&saved).unwrap();
    let saved2 = fs2.to_config().unwrap();
    assert_eq!(saved.disks.len(), saved2.disks.len());
    for (a, b) in saved.disks.iter().zip(saved2.disks.iter()) {
        assert_eq!(a.device, b.device);
        assert_eq!(a.read_only, b.read_only);
        assert_eq!(a.contains_system, b.contains_system);
        assert_eq!(a.partitions.len(), b.partitions.len());
        for (pa, pb) in a.partitions.iter().zip(b.partitions.iter()) {
            assert_eq!(pa.id, pb.id);
            assert_eq!(pa.label, pb.label);
            assert_eq!(pa.partition_type, pb.partition_type);
            assert_eq!(pa.fs_type, pb.fs_type);
            assert_eq!(pa.encrypted, pb.encrypted);
            assert_eq!(pa.is_system, pb.is_system);
            assert_eq!(pa.is_root, pb.is_root);
            assert_eq!(pa.device, pb.device);
            assert_eq!(pa.device_by_id, pb.device_by_id);
            assert_eq!(pa.device_by_partlabel, pb.device_by_partlabel);
            assert_eq!(pa.luks_mapper, pb.luks_mapper);
        }
    }
}

fn opened_partition() -> Partition {
    let mut config = plain_config(2, "cryptroot");
    config.encrypted = true;
    config.lvm = vec![volume_config(1, "home", false)];
    config.device_by_id = Some("/dev/disk/by-id/ata-DISK-part2".to_string());
    Partition {
        lvm: lvm::Lvm::from_config(&config.lvm, &config.label),
        zfs: zfs::Filesystems::from_config(&config.label, &config.zfs),
        config,
        opened: false,
        mounted: false,
    }
}

#[test]
fn open_is_idempotent() {
    let mut p = opened_partition();
    let plan = p.open("secret");
    assert_eq!(plan.len(), 2);
    assert!(p.opened);
    // the second call changes nothing and runs nothing
    let plan2 = p.open("secret");
    assert!(plan2.is_empty());
    assert!(p.opened);
}

#[test]
fn close_is_idempotent() {
    let mut p = opened_partition();
    p.open("secret");
    let plan = p.close();
    assert_eq!(plan.len(), 2);
    assert!(!p.opened);
    let plan2 = p.close();
    assert!(plan2.is_empty());
    assert!(!p.opened);
}

#[test]
fn open_orders_encryption_before_group_activation() {
    let mut p = opened_partition();
    let plan = p.open("secret");
    match &plan[0] {
        Step::RunIfNotActive { label, cmd } => {
            assert_eq!(label, "cryptroot");
            assert_eq!(cmd.args[0], "luksOpen");
        }
        _ => panic!("the encryption open must come first"),
    }
    match &plan[1] {
        Step::Run(c) => {
            assert_eq!(c.program, "vgchange");
            assert_eq!(c.args, vec!["-a", "y", "vg-cryptroot"]);
        }
        _ => panic!("the group activation must come second"),
    }
}

#[test]
fn close_orders_group_deactivation_before_encryption_close() {
    let mut p = opened_partition();
    p.open("secret");
    let plan = p.close();
    match &plan[0] {
        Step::Run(c) => {
            assert_eq!(c.program, "vgchange");
            assert_eq!(c.args, vec!["-a", "n", "vg-cryptroot"]);
        }
        _ => panic!("the group deactivation must come first"),
    }
    match &plan[1] {
        Step::Run(c) => {
            assert_eq!(c.program, "cryptsetup");
            assert_eq!(c.args[0], "luksClose");
        }
        _ => panic!("the encryption close must come second"),
    }
}

#[test]
fn mount_and_unmount_are_idempotent() {
    let mut p = opened_partition();
    let first = p.mount("/mnt/root").unwrap().unwrap();
    assert_eq!(first.program, "mount");
    assert_eq!(first.args, vec!["/dev/disk/by-id/ata-DISK-part2", "/mnt/root"]);
    assert!(p.mount("/mnt/root").unwrap().is_none());
    let u = p.unmount().unwrap().unwrap();
    assert_eq!(u.program, "umount");
    assert!(p.unmount().unwrap().is_none());
}

#[test]
fn find_root_returns_the_single_flagged_node() {
    let layout = boot_and_root_layout(false);
    let fs = Filesystem::from_config(&layout).unwrap();
    let handle = fs.disks[0].find_root_partition().unwrap();
    assert!(matches!(handle, RoleHandle::Partition(1)));
}

#[test]
fn find_root_descends_into_system_partitions() {
    let mut root_vol = plain_config(2, "system");
    root_vol.fs_type = "lvm".to_string();
    root_vol.is_system = true;
    root_vol.lvm = vec![volume_config(1, "swap", false), volume_config(2, "rootfs", true)];
    let disk_cfg = disk::Config {
        device: "/dev/sda".to_string(),
        read_only: false,
        contains_system: true,
        partitions: vec![root_vol],
    };
    let d = Disk::from_config(&disk_cfg);
    let handle = d.find_root_partition().unwrap();
    assert!(matches!(handle, RoleHandle::Volume(0, 1)));
}

#[test]
fn find_root_fails_without_a_flag() {
    let mut layout = boot_and_root_layout(false);
    layout.disks[0].partitions[0].is_root = false;
    let fs = Filesystem::from_config(&layout).unwrap();
    let e = fs.disks[0].find_root_partition().unwrap_err();
    assert_eq!(e.description, "Root partition not found");
}

#[test]
fn find_efi_returns_the_boot_partition() {
    let layout = boot_and_root_layout(false);
    let fs = Filesystem::from_config(&layout).unwrap();
    let handle = fs.disks[0].find_efi_partition().unwrap();
    assert!(matches!(handle, RoleHandle::Partition(0)));
}

#[test]
fn find_efi_fails_without_a_boot_partition() {
    let mut layout = boot_and_root_layout(false);
    layout.disks[0].partitions[1].partition_type = "linux".to_string();
    let fs = Filesystem::from_config(&layout).unwrap();
    let e = fs.disks[0].find_efi_partition().unwrap_err();
    assert_eq!(e.description, "EFI partition not found");
}

#[test]
fn whole_disk_creation_plain_layout() {
    let layout = boot_and_root_layout(false);
    let mut fs = Filesystem::from_config(&layout).unwrap();
    let outputs = vec![vec![FDISK_OUTPUT.to_string(), FDISK_OUTPUT.to_string()]];
    let listings = vec![vec![BYID_LISTING.to_string(), BYID_LISTING.to_string()]];
    let plan = fs
        .create("/tmp/disk.key", "secret", "", &outputs, &listings)
        .unwrap();
    // two table entries with settles, then the two formats with settles
    let programs: Vec<String> = plan
        .iter()
        .filter_map(|s| match s {
            Step::Run(c) => Some(c.program.clone()),
            _ => None,
        })
        .collect();
    assert_eq!(
        programs,
        vec!["sgdisk", "sgdisk", "sgdisk", "mkfs.fat", "mkfs.ext4"]
    );
    // the boot partition resolved to a stable identity
    assert_eq!(
        fs.disks[0].partitions[0].config.device_by_id.as_deref(),
        Some("/dev/disk/by-id/ata-DISK-part1")
    );
    // the root partition's by-id path is its mount device, unwrapped
    let by_id = fs.disks[0].partitions[1]
        .config
        .device_by_id
        .clone()
        .unwrap();
    assert_eq!(by_id, "/dev/disk/by-id/ata-DISK-part2");
    let ext4 = plan
        .iter()
        .find_map(|s| match s {
            Step::Run(c) if c.program == "mkfs.ext4" => Some(c.args.clone()),
            _ => None,
        })
        .unwrap();
    assert_eq!(ext4, vec!["-L", "root", "/dev/disk/by-id/ata-DISK-part2"]);
    let mount = fs.disks[0].partitions[1].mount("/mnt/root").unwrap().unwrap();
    assert_eq!(mount.args[0], "/dev/disk/by-id/ata-DISK-part2");
    assert!(fs.disks[0].partitions[1].config.luks_mapper.is_none());
}

#[test]
fn whole_disk_creation_encrypted_root() {
    let layout = boot_and_root_layout(true);
    let mut fs = Filesystem::from_config(&layout).unwrap();
    let outputs = vec![vec![FDISK_OUTPUT.to_string(), FDISK_OUTPUT.to_string()]];
    let listings = vec![vec![BYID_LISTING.to_string(), BYID_LISTING.to_string()]];
    let plan = fs
        .create("/tmp/disk.key", "secret", "", &outputs, &listings)
        .unwrap();
    // the format sequence of the root partition: encryption format,
    // add-key, guarded open, then the filesystem on the mapper path
    let root_steps: Vec<&Step> = plan
        .iter()
        .skip_while(|s| !matches!(s, Step::Run(c) if c.program == "cryptsetup"))
        .collect();
    match root_steps[0] {
        Step::Run(c) => assert_eq!(c.args[0], "luksFormat"),
        _ => panic!("expected the encryption format first"),
    }
    match root_steps[1] {
        Step::Run(c) => assert_eq!(c.args[0], "luksAddKey"),
        _ => panic!("expected the key-file credential second"),
    }
    match root_steps[2] {
        Step::RunIfNotActive { label, .. } => assert_eq!(label, "root"),
        _ => panic!("expected the guarded open third"),
    }
    match root_steps[3] {
        Step::Run(c) => {
            assert_eq!(c.program, "mkfs.ext4");
            assert_eq!(c.args, vec!["-L", "root", "/dev/mapper/root"]);
        }
        _ => panic!("expected the filesystem on the mapper path"),
    }
    assert_eq!(
        fs.disks[0].partitions[1].config.luks_mapper.as_deref(),
        Some("/dev/mapper/root")
    );
}

#[test]
fn device_mapping_resolves_placeholders() {
    let mut layout = boot_and_root_layout(false);
    layout.disks[0].device = "#main".to_string();
    let mut fs = Filesystem::from_config(&layout).unwrap();
    let mapping = vec![("main".to_string(), "/dev/nvme0n1".to_string())];
    fs.set_device_mapping(&mapping);
    assert_eq!(fs.disks[0].config.device, "/dev/nvme0n1");
    // an unmapped placeholder and a plain device stay as they are
    let mut fs2 = Filesystem::from_config(&layout).unwrap();
    fs2.set_device_mapping(&vec![("other".to_string(), "/dev/sdb".to_string())]);
    assert_eq!(fs2.disks[0].config.device, "#main");
}

#[test]
fn find_system_disk_picks_the_flagged_disk() {
    let mut layout = boot_and_root_layout(false);
    layout.disks.insert(
        0,
        disk::Config {
            device: "/dev/sdb".to_string(),
            read_only: true,
            contains_system: false,
            partitions: Vec::new(),
        },
    );
    let fs = Filesystem::from_config(&layout).unwrap();
    assert_eq!(fs.find_system_disk().unwrap(), 1);
    let empty = Filesystem::from_config(&LayoutConfig { disks: Vec::new() }).unwrap();
    assert_eq!(
        empty.find_system_disk().unwrap_err().description,
        "System disk not found"
    );
}

#[test]
fn layout_open_and_close_order() {
    let layout = boot_and_root_layout(true);
    let mut fs = Filesystem::from_config(&layout).unwrap();
    fs.disks[0].partitions[1].config.device_by_id =
        Some("/dev/disk/by-id/ata-DISK-part2".to_string());
    let plan = fs.open("secret");
    // the root partition's guarded open comes before the pool import
    assert!(matches!(&plan[0], Step::RunIfNotActive { label, .. } if label == "root"));
    match plan.last().unwrap() {
        Step::Run(c) => assert_eq!(c.args, vec!["import", "-a"]),
        _ => panic!("expected the pool import last"),
    }
    let close_plan = fs.close();
    match &close_plan[0] {
        Step::Run(c) => assert_eq!(c.args, vec!["export", "-a"]),
        _ => panic!("expected the pool export first"),
    }
}

#[test]
fn pooled_filesystem_mounts_by_pool_path() {
    let mut f = zfs::Filesystem::from_config(
        "tank",
        &zfs::Config {
            name: "home".to_string(),
            mountpoint: "/home".to_string(),
            is_root: false,
        },
    );
    let m = f.mount("/mnt/home").unwrap().unwrap();
    assert_eq!(m.program, "mount");
    assert_eq!(m.args, vec!["-t", "zfs", "tank/home", "/mnt/home"]);
    assert!(f.mount("/mnt/home").unwrap().is_none());
    let u = f.unmount().unwrap().unwrap();
    assert_eq!(u.args, vec!["tank/home"]);
    let c = f.create();
    assert_eq!(c.args, vec!["create", "tank/home", "-o", "mountpoint=legacy"]);
}

#[test]
fn locators_for_archive_and_keyfile() {
    let layout = boot_and_root_layout(false);
    let fs = Filesystem::from_config(&layout).unwrap();
    let initramfs = nixos_setup::initramfs::Command::new();
    let target = initramfs.generate_initramfs(&fs).unwrap();
    assert_eq!(target.0, 0);
    assert!(matches!(target.1, RoleHandle::Partition(1)));
    let secrets = nixos_setup::secrets::Command::new();
    let target = secrets.install_keyfile(&fs).unwrap();
    assert_eq!(target.0, 0);
    assert!(matches!(target.1, RoleHandle::Partition(1)));
}

#[test]
fn zfs_layout_queries() {
    let mut layout = boot_and_root_layout(false);
    layout.disks[0].partitions[0].fs_type = "zfs".to_string();
    layout.disks[0].partitions[0].zfs = vec![zfs::Config {
        name: "rootfs".to_string(),
        mountpoint: "/".to_string(),
        is_root: true,
    }];
    let fs = Filesystem::from_config(&layout).unwrap();
    let cmd = nixos_setup::filesystems::Command::new();
    assert!(cmd.has_zfs(&fs));
    assert!(cmd.is_root_zfs(&fs));
    let plain = Filesystem::from_config(&boot_and_root_layout(false)).unwrap();
    assert!(!cmd.has_zfs(&plain));
    assert!(!cmd.is_root_zfs(&plain));
}
