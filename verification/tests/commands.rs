use nixos_setup::gpt;
use nixos_setup::luks;
use nixos_setup::lvm;
use nixos_setup::zfs;
use nixos_setup::{Cmd, Step};

fn args(c: &Cmd) -> Vec<String> {
    c.args.clone()
}

#[test]
fn wipeout_builds_sgdisk_zap() {
    let c = gpt::wipeout("/dev/sda");
    assert_eq!(c.program, "sgdisk");
    assert_eq!(args(&c), vec!["-Z", "/dev/sda"]);
    assert!(c.stdin.is_none());
}

#[test]
fn create_partition_builds_full_entry() {
    let size = gpt::Bytesize::from("512M");
    let c = gpt::create_partition("/dev/sda", &size, &gpt::PartitionType::Efi, "boot");
    assert_eq!(c.program, "sgdisk");
    assert_eq!(
        args(&c),
        vec!["-n", "0:0:+512M", "-t", "0:ef00", "-c", "0:boot", "/dev/sda"]
    );
}

#[test]
fn create_partition_remaining_space_uses_zero() {
    let size = gpt::Bytesize::from("0");
    let c = gpt::create_partition("/dev/sda", &size, &gpt::PartitionType::Linux, "root");
    assert_eq!(
        args(&c),
        vec!["-n", "0:0:0", "-t", "0:8300", "-c", "0:root", "/dev/sda"]
    );
}

#[test]
fn format_commands_name_their_tools() {
    let c = gpt::format_fat32("/dev/sda1", "boot");
    assert_eq!(c.program, "mkfs.fat");
    assert_eq!(args(&c), vec!["-F", "32", "-n", "boot", "/dev/sda1"]);
    let c = gpt::format_ext4("/dev/sda2", "root");
    assert_eq!(c.program, "mkfs.ext4");
    assert_eq!(args(&c), vec!["-L", "root", "/dev/sda2"]);
    let c = gpt::format_swap("/dev/sda3", "swap");
    assert_eq!(c.program, "mkswap");
    assert_eq!(args(&c), vec!["-L", "swap", "/dev/sda3"]);
}

#[test]
fn format_partition_dispatches_on_tag() {
    let plan = gpt::format_partition("/dev/sda2", "ext4", "root").unwrap();
    assert_eq!(plan.len(), 2);
    assert!(matches!(&plan[0], Step::Run(c) if c.program == "mkfs.ext4"));
    assert!(matches!(&plan[1], Step::Settle(1)));

    let plan = gpt::format_partition("/dev/sda2", "zfs", "tank").unwrap();
    assert!(matches!(&plan[0], Step::PoolCreate { name, device }
        if name == "tank" && device == "/dev/sda2"));

    let e = gpt::format_partition("/dev/sda2", "lvm", "x").unwrap_err();
    assert_eq!(e.description, "Invalid partition format");
    let e = gpt::format_partition("/dev/sda2", "nope", "x").unwrap_err();
    assert_eq!(e.description, "Invalid enum value nope");
}

#[test]
fn luks_commands_pipe_the_passphrase() {
    let c = luks::format("/dev/disk/by-id/x", "secret");
    assert_eq!(c.program, "cryptsetup");
    assert_eq!(c.args[0], "luksFormat");
    assert_eq!(c.args[c.args.len() - 2], "/dev/disk/by-id/x");
    assert_eq!(c.stdin.as_deref(), Some("secret"));

    let c = luks::add_key("/dev/disk/by-id/x", "secret", "/tmp/key");
    assert_eq!(args(&c), vec!["luksAddKey", "/dev/disk/by-id/x", "/tmp/key", "-"]);
    assert_eq!(c.stdin.as_deref(), Some("secret"));

    let s = luks::open("/dev/disk/by-id/x", "secret", "root");
    match s {
        Step::RunIfNotActive { label, cmd } => {
            assert_eq!(label, "root");
            assert_eq!(cmd.args, vec!["luksOpen", "/dev/disk/by-id/x", "root", "-"]);
        }
        _ => panic!("expected a guarded open step"),
    }

    let c = luks::close("root");
    assert_eq!(args(&c), vec!["luksClose", "/dev/mapper/root"]);
    let c = luks::status("root");
    assert_eq!(args(&c), vec!["status", "/dev/mapper/root"]);
}

#[test]
fn luks_status_output_reading() {
    assert!(luks::is_opened("/dev/mapper/root is active and is in use.\n"));
    assert!(!luks::is_opened("/dev/mapper/root is inactive.\n"));
}

#[test]
fn pool_create_extends_a_visible_pool() {
    let plan = zfs::pool_create("tank", "/dev/sda2", true);
    assert_eq!(plan.len(), 1);
    assert_eq!(plan[0].program, "zpool");
    assert_eq!(plan[0].args, vec!["add", "-f", "tank", "/dev/sda2"]);
}

#[test]
fn pool_create_makes_a_fresh_pool_when_none_is_visible() {
    let plan = zfs::pool_create("tank", "/dev/sda2", false);
    assert_eq!(plan.len(), 2);
    assert_eq!(plan[0].args, vec!["export", "-a"]);
    assert_eq!(
        plan[1].args,
        vec!["create", "-o", "ashift=12", "-O", "compression=lz4", "-m", "none", "tank", "/dev/sda2"]
    );
}

#[test]
fn pool_helpers_build_expected_commands() {
    assert_eq!(zfs::pool_destroy("tank").args, vec!["destroy", "-f", "tank"]);
    assert_eq!(zfs::pool_import_all().args, vec!["import", "-a"]);
    assert_eq!(zfs::pool_export_all().args, vec!["export", "-a"]);
    assert_eq!(zfs::pool_exists("tank").args, vec!["list", "tank"]);
    assert_eq!(zfs::pool_list().args, vec!["list", "-H", "-o", "name"]);
    assert_eq!(
        zfs::zfs_create("tank", "home").args,
        vec!["create", "tank/home", "-o", "mountpoint=legacy"]
    );
}

#[test]
fn pool_wipeout_destroys_each_listed_pool() {
    let plan = zfs::wipeout("tank\nbackup\n");
    assert_eq!(plan.len(), 2);
    assert_eq!(plan[0].args, vec!["destroy", "-f", "tank"]);
    assert_eq!(plan[1].args, vec!["destroy", "-f", "backup"]);
    assert!(zfs::wipeout("").is_empty());
}

#[test]
fn lvm_commands_scope_the_group_to_the_label() {
    let volume_cfg = lvm::Config {
        id: 1,
        size: gpt::Bytesize::from("10G"),
        volume_type: "linux".to_string(),
        encrypted: false,
        fs_type: "ext4".to_string(),
        label: "home".to_string(),
        is_root: false,
        device: None,
    };
    let mut l = lvm::Lvm::from_config(&vec![volume_cfg], "system");
    let plan = l.create("/dev/mapper/system", "system");
    assert_eq!(plan.len(), 3);
    assert_eq!(plan[0].program, "pvcreate");
    assert_eq!(plan[0].args, vec!["-y", "-ff", "/dev/mapper/system"]);
    assert_eq!(plan[1].program, "vgcreate");
    assert_eq!(plan[1].args, vec!["vg-system", "/dev/mapper/system"]);
    assert_eq!(plan[2].program, "lvcreate");
    assert_eq!(plan[2].args, vec!["-L", "10G", "-n", "home", "vg-system"]);
    assert_eq!(
        l.volumes[0].config.device.as_deref(),
        Some("/dev/vg-system/home")
    );
    let fmt = l.format_volumes().unwrap();
    assert!(matches!(&fmt[0], Step::Run(c) if c.program == "mkfs.ext4"
        && c.args == vec!["-L", "home", "/dev/vg-system/home"]));
}

#[test]
fn lvm_volume_with_no_size_takes_all_free_space() {
    let mut v = lvm::Volume {
        config: lvm::Config {
            id: 1,
            size: gpt::Bytesize::from("0"),
            volume_type: "linux".to_string(),
            encrypted: false,
            fs_type: "ext4".to_string(),
            label: "root".to_string(),
            is_root: true,
            device: None,
        },
        mounted: false,
    };
    let c = v.create("system");
    assert_eq!(c.args, vec!["-l", "100%FREE", "-n", "root", "vg-system"]);
}

#[test]
fn environment_commands() {
    let mut e = nixos_setup::env::Command::new();
    let kb = e.setup_keyboard_layout();
    assert_eq!(kb.program, "loadkeys");
    assert_eq!(kb.args, vec!["fr"]);
    assert!(e.setup_wpa_supplicant().is_none());
    e.wpa_ssid = "net".to_string();
    e.wpa_password = "pass".to_string();
    let (generate, restart) = e.setup_wpa_supplicant().unwrap();
    assert_eq!(generate.program, "wpa_passphrase");
    assert_eq!(generate.args, vec!["net", "pass"]);
    assert_eq!(restart.args, vec!["restart", "wpa_supplicant"]);
    assert_eq!(nixos_setup::env::key_file_path("/tmp", "disk.key"), "/tmp/disk.key");
}

#[test]
fn install_command_decisions() {
    let mut c = nixos_setup::install::Command::new();
    c.repo = "/etc/nixos-config".to_string();
    let (clone, source) = c.repository_source();
    assert!(clone.is_none());
    assert_eq!(source, "/etc/nixos-config");
    c.repo = "https://github.com/someone/config".to_string();
    let (clone, source) = c.repository_source();
    let clone = clone.unwrap();
    assert_eq!(clone.program, "git");
    assert_eq!(
        clone.args,
        vec!["clone", "https://github.com/someone/config", "/tmp/repo-nixos"]
    );
    assert_eq!(source, "/tmp/repo-nixos");
    let cp = c.install_repository("/tmp/repo-nixos", "/mnt/root/etc");
    assert_eq!(cp.args, vec!["-rf", "/tmp/repo-nixos", "/mnt/root/etc"]);
    let run = c.run_nixos_installer("/mnt/root");
    assert_eq!(run.program, "nixos-install");
    assert_eq!(run.args, vec!["--no-root-passwd", "--root", "/mnt/root"]);
}

#[test]
fn hardware_command_paths() {
    let mut h = nixos_setup::hardware::Command::new();
    h.hardware = "lenovo_t480".to_string();
    let gen = h.create_configuration("/tmp/scratch");
    assert_eq!(gen.program, "nixos-generate-config");
    assert_eq!(gen.args, vec!["--root", "/tmp/scratch"]);
    let segments = h.move_destination();
    assert_eq!(segments, vec!["lenovo", "-readonly.nix"]);
}

#[test]
fn partitioning_device_mapping_arguments() {
    let (name, replacement) =
        nixos_setup::partitioning::parse_device_mapping("main=/dev/sda").unwrap();
    assert_eq!(name, "main");
    assert_eq!(replacement, "/dev/sda");
    assert!(nixos_setup::partitioning::parse_device_mapping("nodevice").is_err());
    assert!(nixos_setup::partitioning::parse_device_mapping("a=b=c").is_err());
}

#[test]
fn secrets_command_paths() {
    let mut s = nixos_setup::secrets::Command::new();
    s.key_filename = "disk.key".to_string();
    assert_eq!(
        s.keyfile_destination("/mnt/root"),
        "/mnt/root/etc/secrets/disks/disk.key"
    );
    let c = s.chmod_keyfile("/mnt/root/etc/secrets/disks/disk.key");
    assert_eq!(c.program, "chmod");
    assert_eq!(c.args, vec!["000", "/mnt/root/etc/secrets/disks/disk.key"]);
}

#[test]
fn filesystems_command_host_id() {
    let f = nixos_setup::filesystems::Command::new();
    let c = f.get_host_id();
    assert_eq!(c.program, "head");
    assert_eq!(c.args, vec!["-c", "8", "/etc/machine-id"]);
}
