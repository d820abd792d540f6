use nixos_setup::gpt::Bytesize;
use nixos_setup::lvm;
use nixos_setup::partition::{idline_capture, resolve_transient, Config, Partition};
use nixos_setup::zfs;
use nixos_setup::traits::Configurable;

fn plain_config(id: u32, label: &str) -> Config {
    Config {
        id,
        size: Bytesize::from("0"),
        partition_type: "linux".to_string(),
        encrypted: false,
        fs_type: "ext4".to_string(),
        label: label.to_string(),
        is_system: false,
        is_root: false,
        lvm: Vec::new(),
        zfs: Vec::new(),
        device: None,
        device_name: None,
        device_by_id: None,
        device_by_partlabel: None,
        luks_mapper: None,
    }
}

fn partition_from(config: Config) -> Partition {
    Partition {
        lvm: lvm::Lvm::from_config(&config.lvm, &config.label),
        zfs: zfs::Filesystems::from_config(&config.label, &config.zfs),
        config,
        opened: false,
        mounted: false,
    }
}

const FDISK_OUTPUT: &str = "Disk /dev/sda: 100 GiB\n\
Device     Start       End   Sectors  Size Type\n\
/dev/sda1   2048   1050623   1048576  512M EFI System\n\
/dev/sda2 1050624 209715166 208664543 99.5G Linux filesystem\n";

const BYID_LISTING: &str = "total 0\n\
lrwxrwxrwx 1 root root  9 Jan  1 00:00 ata-SAMSUNG_SSD -> ../../sda\n\
lrwxrwxrwx 1 root root 10 Jan  1 00:00 ata-SAMSUNG_SSD-part1 -> ../../sda1\n\
lrwxrwxrwx 1 root root 10 Jan  1 00:00 ata-SAMSUNG_SSD-part2 -> ../../sda2\n";

#[test]
fn resolve_transient_finds_the_partition_device() {
    let r = resolve_transient(FDISK_OUTPUT, "/dev/sda", "1").unwrap();
    assert_eq!(r, "/dev/sda1");
    let r = resolve_transient(FDISK_OUTPUT, "/dev/sda", "2").unwrap();
    assert_eq!(r, "/dev/sda2");
    assert!(resolve_transient(FDISK_OUTPUT, "/dev/sdb", "1").is_none());
    assert!(resolve_transient("nothing here", "/dev/sda", "1").is_none());
}

#[test]
fn idline_capture_reads_the_symlink_name() {
    let line = "lrwxrwxrwx 1 root root 10 Jan  1 00:00 ata-SAMSUNG_SSD-part1 -> ../../sda1";
    let c = idline_capture(line, "sda1").unwrap();
    assert_eq!(c, "ata-SAMSUNG_SSD-part1");
    assert!(idline_capture(line, "sda2").is_none());
    assert!(idline_capture("no arrow in here sda1", "sda1").is_none());
}

#[test]
fn identify_records_transient_device_and_base_name() {
    let mut p = partition_from(plain_config(1, "boot"));
    p.identify("/dev/sda", FDISK_OUTPUT).unwrap();
    assert_eq!(p.config.device.as_deref(), Some("/dev/sda1"));
    assert_eq!(p.config.device_name.as_deref(), Some("sda1"));
}

#[test]
fn identify_fails_without_a_match() {
    let mut p = partition_from(plain_config(9, "boot"));
    let e = p.identify("/dev/sda", FDISK_OUTPUT).unwrap_err();
    assert_eq!(e.description, "Cannot identify partition");
    assert!(p.config.device.is_none());
}

#[test]
fn identify_id_records_stable_paths() {
    let mut p = partition_from(plain_config(2, "root"));
    p.config.device_name = Some("sda2".to_string());
    p.identify_id(BYID_LISTING).unwrap();
    assert_eq!(
        p.config.device_by_id.as_deref(),
        Some("/dev/disk/by-id/ata-SAMSUNG_SSD-part2")
    );
    assert_eq!(
        p.config.device_by_partlabel.as_deref(),
        Some("/dev/disk/by-partlabel/root")
    );
}

#[test]
fn identify_id_fails_when_no_line_matches() {
    let mut p = partition_from(plain_config(2, "root"));
    p.config.device_name = Some("sdz9".to_string());
    let e = p.identify_id(BYID_LISTING).unwrap_err();
    assert_eq!(e.description, "Cannot find partition ID");
}

#[test]
fn create_resolves_everything_and_assigns_the_mapper() {
    let mut config = plain_config(1, "boot");
    config.partition_type = "efi".to_string();
    config.fs_type = "fat32".to_string();
    config.size = Bytesize::from("512M");
    let mut p = partition_from(config);
    let plan = p.create("/dev/sda", FDISK_OUTPUT, BYID_LISTING).unwrap();
    assert_eq!(plan.len(), 2);
    match &plan[0] {
        nixos_setup::Step::Run(c) => {
            assert_eq!(c.program, "sgdisk");
            assert_eq!(
                c.args,
                vec!["-n", "0:0:+512M", "-t", "0:ef00", "-c", "0:boot", "/dev/sda"]
            );
        }
        _ => panic!("expected the table-entry command"),
    }
    assert!(matches!(plan[1], nixos_setup::Step::Settle(1)));
    assert_eq!(
        p.config.device_by_id.as_deref(),
        Some("/dev/disk/by-id/ata-SAMSUNG_SSD-part1")
    );
    assert!(p.config.luks_mapper.is_none());

    let mut config = plain_config(2, "cryptroot");
    config.encrypted = true;
    let mut p = partition_from(config);
    p.create("/dev/sda", FDISK_OUTPUT, BYID_LISTING).unwrap();
    assert_eq!(p.config.luks_mapper.as_deref(), Some("/dev/mapper/cryptroot"));
}

#[test]
fn create_rejects_a_bad_partition_type() {
    let mut config = plain_config(1, "boot");
    config.partition_type = "mbr".to_string();
    let mut p = partition_from(config);
    let e = p.create("/dev/sda", FDISK_OUTPUT, BYID_LISTING).unwrap_err();
    assert_eq!(e.description, "Invalid partition type");
}

#[test]
fn identify_id_rejects_an_empty_identity() {
    let mut p = partition_from(plain_config(2, "root"));
    p.config.device_name = Some("sda2".to_string());
    // the line ends with the device but nothing precedes the arrow
    let e = p.identify_id(" -> ../../sda2\n").unwrap_err();
    assert_eq!(e.description, "No partition id");
}

#[test]
fn volume_format_needs_a_resolved_device() {
    let v = lvm::Volume {
        config: lvm::Config {
            id: 1,
            size: Bytesize::from("1G"),
            volume_type: "linux".to_string(),
            encrypted: false,
            fs_type: "ext4".to_string(),
            label: "home".to_string(),
            is_root: false,
            device: None,
        },
        mounted: false,
    };
    let e = v.format().unwrap_err();
    assert_eq!(e.description, "No volume device");
}

#[test]
fn disk_creation_aborts_on_an_unresolvable_partition() {
    let config = nixos_setup::disk::Config {
        device: "/dev/sdb".to_string(),
        read_only: false,
        contains_system: true,
        partitions: vec![plain_config(1, "solo")],
    };
    let mut d = nixos_setup::disk::Disk::from_config(&config);
    // the enumeration output never mentions this disk
    let e = d
        .create(
            "/tmp/disk.key",
            "secret",
            &vec![FDISK_OUTPUT.to_string()],
            &vec![BYID_LISTING.to_string()],
        )
        .unwrap_err();
    assert_eq!(e.description, "Cannot identify partition");
}
