use nixos_setup::luks::Command;
use nixos_setup::traits::Validate;

#[test]
fn key_command_defaults_and_validity() {
    let mut c = Command::new();
    assert_eq!(c.key_size, 4096);
    assert!(!c.is_valid());
    c.iterations = 1;
    c.key_size = 32;
    c.output = "/tmp/disk.key".to_string();
    c.password = "hunter2".to_string();
    c.salt = "/tmp/salt".to_string();
    assert!(c.is_valid());
    c.iterations = 0;
    assert!(!c.is_valid());
}

#[test]
fn derive_key_produces_the_requested_length() {
    let mut c = Command::new();
    c.iterations = 1;
    c.key_size = 32;
    c.password = "hunter2".to_string();
    let salt = b"saltsaltsalt".to_vec();
    let key = c.derive_key(&salt).unwrap();
    assert_eq!(key.len(), 32);
    // the digest is not the password or the salt handed back
    assert_ne!(key.as_slice(), b"hunter2".as_slice());
    assert_ne!(key.as_slice(), salt.as_slice());
    // deterministic in its inputs
    let again = c.derive_key(&salt).unwrap();
    assert_eq!(key, again);
    // and sensitive to the salt
    let other = c.derive_key(&b"pepperpepper".to_vec()).unwrap();
    assert_ne!(key, other);
}

#[test]
fn derive_key_rejects_a_short_salt() {
    let mut c = Command::new();
    c.iterations = 1;
    c.key_size = 32;
    c.password = "hunter2".to_string();
    let e = c.derive_key(&b"tiny".to_vec()).unwrap_err();
    assert_eq!(e.description, "Error while trying to hash password");
}

#[test]
fn fill_with_env_takes_the_key_file_path() {
    let config = nixos_setup::env::Config {
        nixos: nixos_setup::env::NixOSConfig {
            host: "machine".to_string(),
            hardware: "laptop".to_string(),
            key_file: "/tmp/disk.key".to_string(),
            key_filename: "disk.key".to_string(),
        },
    };
    assert!(config.is_valid());
    let mut c = Command::new();
    c.fill_with_env(&config);
    assert_eq!(c.output, "/tmp/disk.key");
}
