//! The hardware-configuration command: generation and placement of
//! the machine's hardware description.

use vstd::prelude::*;

use crate::env;
use crate::strutil;
use crate::traits::Validate;
use crate::{Cmd, CmdModel};

verus! {

/// The hardware-configuration command: generates the machine's hardware
/// description into a scratch directory and moves it to its place under
/// the hardware tree.
#[derive(Debug)]
pub struct Command {
    /// Name of the hardware.
    pub hardware: String,
}

impl Validate for Command {
    open spec fn valid_spec(&self) -> bool {
        self.hardware@.len() > 0
    }

    fn is_valid(&self) -> (r: bool) {
        !self.hardware.as_str().is_empty()
    }
}

/// The command that generates the hardware description under a scratch
/// root.
pub open spec fn generate_config_cmd(root: Seq<char>) -> CmdModel {
    CmdModel { program: "nixos-generate-config"@, args: seq!["--root"@, root], stdin: None }
}

/// The destination path segments of a hardware description, derived
/// from the hardware name: its underscore-separated fields, with any
/// field carrying the description suffix replaced by the read-only
/// file name.
pub open spec fn destination_segments(hardware: Seq<char>) -> Seq<Seq<char>> {
    strutil::fields_of(hardware + ".nix"@, '_').map_values(
        |t: Seq<char>| if strutil::contains_seq(t, ".nix"@) {
            "-readonly.nix"@
        } else {
            t
        },
    )
}

impl Command {
    /// Create an instance with everything still to fill in.
    pub fn new() -> (r: Self)
        ensures
            r.hardware@.len() == 0,
    {
        Command { hardware: String::new() }
    }

    /// Take the hardware name from the environment document.
    pub fn fill_with_env(&mut self, config: &env::Config)
        ensures
            final(self).hardware@ == config@.hardware,
    {
        self.hardware = config.nixos.hardware.clone();
    }

    /// The command that generates the hardware description under the
    /// given scratch directory.
    pub fn create_configuration(&self, temp_dir: &str) -> (r: Cmd)
        ensures
            r@ == generate_config_cmd(temp_dir@),
    {
        let c = Cmd::new("nixos-generate-config").arg("--root").arg(temp_dir);
        proof {
            assert(c@.args =~= generate_config_cmd(temp_dir@).args);
        }
        c
    }

    /// The path segments, under the hardware tree, where the generated
    /// description is placed.
    pub fn move_destination(&self) -> (r: Vec<String>)
        ensures
            r.deep_view() == destination_segments(self.hardware@),
    {
        let name = strutil::concat2(self.hardware.as_str(), ".nix");
        let tokens = strutil::split_sep(name.as_str(), '_');
        let mut segments: Vec<String> = Vec::new();
        let n = tokens.len();
        let mut i: usize = 0;
        while i < n
            invariant
                n == tokens@.len(),
                tokens.deep_view() == strutil::fields_of(self.hardware@ + ".nix"@, '_'),
                i <= n,
                segments.deep_view().len() == i,
                forall|j: int| 0 <= j < i ==> #[trigger] segments.deep_view()[j] == (
                if strutil::contains_seq(tokens.deep_view()[j], ".nix"@) {
                    "-readonly.nix"@
                } else {
                    tokens.deep_view()[j]
                }),
            decreases n - i,
        {
            proof {
                assert(tokens@[i as int]@ == tokens.deep_view()[i as int]);
            }
            let ghost pre = segments.deep_view();
            if strutil::contains_sub(tokens[i].as_str(), ".nix") {
                segments.push("-readonly.nix".to_owned());
            } else {
                segments.push(tokens[i].clone());
            }
            proof {
                assert(segments.deep_view() =~= pre.push(segments.deep_view()[i as int]));
            }
            i = i + 1;
        }
        proof {
            assert(segments.deep_view() =~= destination_segments(self.hardware@));
        }
        segments
    }
}

} // verus!
