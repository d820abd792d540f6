//! The partitioning command: the argument decisions around the
//! layout-wide creation.

use vstd::prelude::*;

use crate::env;
use crate::error::Error;
use crate::traits::Validate;

verus! {

/// The partitioning command: loads the layout description, resolves
/// placeholder devices, creates the whole layout, and saves the
/// resolved description back. The loading and saving are the caller's
/// work; the decisions live in the layout itself.
#[derive(Debug)]
pub struct Command {
    /// Name of the host of the machine to set up.
    pub host: String,
    /// Password used to encrypt disks.
    pub password: String,
    /// Key file used to decrypt disks.
    pub key_file: String,
}

impl Validate for Command {
    open spec fn valid_spec(&self) -> bool {
        self.host@.len() > 0 && self.key_file@.len() > 0
    }

    fn is_valid(&self) -> (r: bool) {
        !self.host.as_str().is_empty() && !self.key_file.as_str().is_empty()
    }
}

impl Command {
    /// Create an instance with everything still to fill in.
    pub fn new() -> (r: Self)
        ensures
            r.host@.len() == 0,
            r.password@.len() == 0,
            r.key_file@.len() == 0,
    {
        Command { host: String::new(), password: String::new(), key_file: String::new() }
    }

    /// Take the host name and key file path from the environment
    /// document.
    pub fn fill_with_env(&mut self, config: &env::Config)
        ensures
            final(self).host@ == config@.host,
            final(self).key_file@ == config@.key_file,
            final(self).password == old(self).password,
    {
        self.host = config.nixos.host.clone();
        self.key_file = config.nixos.key_file.clone();
    }
}

/// Parse one device-mapping argument of the form NAME=REPLACEMENT:
/// there must be exactly one equals sign.
pub fn parse_device_mapping(value: &str) -> (r: Result<(String, String), Error>)
    ensures
        r matches Ok(p) ==> exists|i: int|
            {
                &&& 0 <= i < value@.len()
                &&& value@[i] == '='
                &&& forall|j: int| 0 <= j < value@.len() && j != i ==> value@[j] != '='
                &&& p.0@ == value@.subrange(0, i)
                &&& p.1@ == value@.subrange(i + 1, value@.len() as int)
            },
        r matches Err(e) ==> e@.kind matches crate::error::ErrorKindModel::InvalidValue(f) && f
            == "device"@ && !(exists|i: int|
            0 <= i < value@.len() && value@[i] == '=' && (forall|j: int|
                0 <= j < value@.len() && j != i ==> value@[j] != '=')),
{
    let m = value.unicode_len();
    match crate::strutil::find_char(value, '=') {
        None => Err(Error::invalid_value("device")),
        Some(i) => {
            let rest = value.substring_char(i + 1, m);
            match crate::strutil::find_char(rest, '=') {
                Some(k) => {
                    proof {
                        assert(value@[i + 1 + k] == '=');
                    }
                    Err(Error::invalid_value("device"))
                },
                None => {
                    let name = value.substring_char(0, i).to_owned();
                    let replacement = rest.to_owned();
                    proof {
                        assert forall|j: int|
                            0 <= j < value@.len() && j != i implies value@[j] != '=' by {
                            if j > i {
                                assert(rest@[j - i - 1] == value@[j]);
                            }
                        }
                    }
                    Ok((name, replacement))
                },
            }
        },
    }
}

} // verus!
