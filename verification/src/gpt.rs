//! The partition-table vocabulary (sizes, partition and filesystem
//! types) and the commands that wipe, create and format partitions.

use vstd::prelude::*;

use crate::error::{Error, ErrorKindModel};
use crate::strutil;
use crate::{Cmd, CmdModel, Step, StepModel};

verus! {

/// Unit of a partition or volume size.
#[derive(Clone, Copy, Debug, PartialEq, Eq, Structural)]
pub enum SizeUnit {
    Byte,
    Kilo,
    Mega,
    Giga,
    Tera,
    Peta,
}

/// The unit denoted by a one-letter suffix; anything unknown means bytes.
pub open spec fn unit_of_seq(s: Seq<char>) -> SizeUnit {
    if s == "K"@ {
        SizeUnit::Kilo
    } else if s == "M"@ {
        SizeUnit::Mega
    } else if s == "G"@ {
        SizeUnit::Giga
    } else if s == "T"@ {
        SizeUnit::Tera
    } else if s == "P"@ {
        SizeUnit::Peta
    } else {
        SizeUnit::Byte
    }
}

/// The one-letter suffix of a unit; bytes have none.
pub open spec fn unit_string(u: SizeUnit) -> Seq<char> {
    match u {
        SizeUnit::Byte => ""@,
        SizeUnit::Kilo => "K"@,
        SizeUnit::Mega => "M"@,
        SizeUnit::Giga => "G"@,
        SizeUnit::Tera => "T"@,
        SizeUnit::Peta => "P"@,
    }
}

impl SizeUnit {
    /// Parse a one-letter unit suffix; anything unknown means bytes.
    pub fn from(s: &str) -> (r: Self)
        ensures
            r == unit_of_seq(s@),
    {
        if strutil::str_eq(s, "K") {
            SizeUnit::Kilo
        } else if strutil::str_eq(s, "M") {
            SizeUnit::Mega
        } else if strutil::str_eq(s, "G") {
            SizeUnit::Giga
        } else if strutil::str_eq(s, "T") {
            SizeUnit::Tera
        } else if strutil::str_eq(s, "P") {
            SizeUnit::Peta
        } else {
            SizeUnit::Byte
        }
    }

    /// Render the unit as its suffix letter.
    pub fn to_string(&self) -> (r: String)
        ensures
            r@ == unit_string(*self),
    {
        match self {
            SizeUnit::Byte => "".to_owned(),
            SizeUnit::Kilo => "K".to_owned(),
            SizeUnit::Mega => "M".to_owned(),
            SizeUnit::Giga => "G".to_owned(),
            SizeUnit::Tera => "T".to_owned(),
            SizeUnit::Peta => "P".to_owned(),
        }
    }
}

/// A single unit character, as written inside a size string.
pub open spec fn is_unit_char(c: char) -> bool {
    c == 'B' || c == 'K' || c == 'M' || c == 'G' || c == 'T' || c == 'P'
}

/// The unit denoted by a single suffix character ('B' means bytes).
pub open spec fn unit_of_char(c: char) -> SizeUnit {
    if c == 'K' {
        SizeUnit::Kilo
    } else if c == 'M' {
        SizeUnit::Mega
    } else if c == 'G' {
        SizeUnit::Giga
    } else if c == 'T' {
        SizeUnit::Tera
    } else if c == 'P' {
        SizeUnit::Peta
    } else {
        SizeUnit::Byte
    }
}

/// Whether a character is a decimal digit.
pub open spec fn is_digit(c: char) -> bool {
    c == '0' || c == '1' || c == '2' || c == '3' || c == '4' || c == '5' || c == '6' || c == '7'
        || c == '8' || c == '9'
}

/// Numeric value of a decimal digit character; zero for anything else.
pub open spec fn digit_val(c: char) -> nat {
    if c == '1' {
        1
    } else if c == '2' {
        2
    } else if c == '3' {
        3
    } else if c == '4' {
        4
    } else if c == '5' {
        5
    } else if c == '6' {
        6
    } else if c == '7' {
        7
    } else if c == '8' {
        8
    } else if c == '9' {
        9
    } else {
        0
    }
}

/// All characters of the sequence are decimal digits.
pub open spec fn all_digits(s: Seq<char>) -> bool {
    forall|i: int| 0 <= i < s.len() ==> is_digit(#[trigger] s[i])
}

/// The number written by a sequence of decimal digits.
pub open spec fn digits_val(s: Seq<char>) -> nat
    decreases s.len(),
{
    if s.len() == 0 {
        0
    } else {
        digits_val(s.take(s.len() - 1)) * 10 + digit_val(s[s.len() - 1])
    }
}

/// A digit prefix never writes a larger number than the whole sequence.
pub proof fn lemma_digits_val_mono(s: Seq<char>, k: int)
    requires
        0 <= k <= s.len(),
    ensures
        digits_val(s.take(k)) <= digits_val(s),
    decreases s.len() - k,
{
    if k == s.len() {
        assert(s.take(k) =~= s);
    } else {
        lemma_digits_val_mono(s, k + 1);
        assert(s.take(k + 1).take(k) =~= s.take(k));
        assert(digits_val(s.take(k + 1)) == digits_val(s.take(k)) * 10 + digit_val(s[k]));
    }
}

/// The digit part of a size string: everything before an optional unit
/// suffix.
pub open spec fn size_digits(s: Seq<char>) -> Seq<char> {
    if s.len() > 0 && is_unit_char(s.last()) {
        s.drop_last()
    } else {
        s
    }
}

/// The unit part of a size string.
pub open spec fn size_unit(s: Seq<char>) -> SizeUnit {
    if s.len() > 0 && is_unit_char(s.last()) {
        unit_of_char(s.last())
    } else {
        SizeUnit::Byte
    }
}

/// A size string is well formed when it has at least one digit, only
/// digits before the unit suffix, and a value that fits 64 bits.
pub open spec fn valid_size(s: Seq<char>) -> bool {
    let d = size_digits(s);
    d.len() >= 1 && all_digits(d) && digits_val(d) <= u64::MAX
}

/// The size written by a size string; anything malformed reads as zero
/// bytes.
pub open spec fn bytesize_of(s: Seq<char>) -> Bytesize {
    if valid_size(s) {
        Bytesize { unit: size_unit(s), value: digits_val(size_digits(s)) as u64 }
    } else {
        Bytesize { unit: SizeUnit::Byte, value: 0 }
    }
}

/// Rendering of a size: the decimal value followed by the unit suffix;
/// zero always renders as a bare "0".
pub open spec fn bytesize_string(b: Bytesize) -> Seq<char> {
    if b.value == 0 {
        strutil::dec_str(0)
    } else {
        strutil::dec_str(b.value as nat) + unit_string(b.unit)
    }
}

/// Rendering of a size for the partition-table tool: "0" asks for the
/// remaining space, "+SIZE" for a fixed size.
pub open spec fn gpt_size_string(b: Bytesize) -> Seq<char> {
    if b.value == 0 {
        strutil::dec_str(0)
    } else {
        "+"@ + bytesize_string(b)
    }
}

/// A requested size: a value and a unit. A zero value means "use the
/// remaining space".
#[derive(Clone, Copy, Debug, PartialEq, Eq, Structural)]
pub struct Bytesize {
    pub unit: SizeUnit,
    pub value: u64,
}

impl Bytesize {
    /// Whether this size asks for the remaining space.
    pub fn is_null(&self) -> (r: bool)
        ensures
            r == (self.value == 0),
    {
        self.value == 0
    }

    /// Render the size for the partition-table tool.
    pub fn to_gpt_string(&self) -> (r: String)
        ensures
            r@ == gpt_size_string(*self),
    {
        if self.value == 0 {
            strutil::u64_to_string(0)
        } else {
            let s = self.to_string();
            strutil::concat2("+", s.as_str())
        }
    }

    /// Parse a size string; anything malformed reads as zero bytes.
    pub fn from(s: &str) -> (r: Self)
        ensures
            r == bytesize_of(s@),
    {
        let none = Bytesize { unit: SizeUnit::Byte, value: 0 };
        let m = s.unicode_len();
        if m == 0 {
            return none;
        }
        let last = s.get_char(m - 1);
        let has_unit: bool = last == 'B' || last == 'K' || last == 'M' || last == 'G' || last
            == 'T' || last == 'P';
        let d_len: usize = if has_unit {
            m - 1
        } else {
            m
        };
        let unit: SizeUnit = if has_unit {
            if last == 'K' {
                SizeUnit::Kilo
            } else if last == 'M' {
                SizeUnit::Mega
            } else if last == 'G' {
                SizeUnit::Giga
            } else if last == 'T' {
                SizeUnit::Tera
            } else if last == 'P' {
                SizeUnit::Peta
            } else {
                SizeUnit::Byte
            }
        } else {
            SizeUnit::Byte
        };
        proof {
            assert(size_digits(s@) =~= if has_unit {
                s@.drop_last()
            } else {
                s@
            });
            assert(unit == size_unit(s@));
        }
        if d_len == 0 {
            return none;
        }
        let ghost d = size_digits(s@);
        let mut acc: u64 = 0;
        let mut i: usize = 0;
        while i < d_len
            invariant
                d == size_digits(s@),
                d_len == d.len(),
                d_len <= s@.len(),
                m == s@.len(),
                forall|j: int| 0 <= j < d_len ==> d[j] == s@[j],
                i <= d_len,
                all_digits(d.take(i as int)),
                acc == digits_val(d.take(i as int)),
            decreases d_len - i,
        {
            let c = s.get_char(i);
            proof {
                assert(d[i as int] == s@[i as int]);
            }
            let dv: u64 = if c == '0' {
                0
            } else if c == '1' {
                1
            } else if c == '2' {
                2
            } else if c == '3' {
                3
            } else if c == '4' {
                4
            } else if c == '5' {
                5
            } else if c == '6' {
                6
            } else if c == '7' {
                7
            } else if c == '8' {
                8
            } else if c == '9' {
                9
            } else {
                proof {
                    assert(!is_digit(d[i as int]));
                    assert(!all_digits(d));
                }
                return Bytesize { unit: SizeUnit::Byte, value: 0 };
            };
            proof {
                assert(is_digit(d[i as int]) && digit_val(d[i as int]) == dv);
                assert(d.take(i + 1).take(i as int) =~= d.take(i as int));
                assert(d.take(i + 1).last() == d[i as int]);
            }
            if acc > (u64::MAX - dv) / 10 {
                proof {
                    assert(digits_val(d.take(i + 1)) == acc * 10 + dv);
                    lemma_digits_val_mono(d, i + 1);
                    assert(digits_val(d) > u64::MAX);
                }
                return Bytesize { unit: SizeUnit::Byte, value: 0 };
            }
            acc = acc * 10 + dv;
            i = i + 1;
            proof {
                assert(all_digits(d.take(i as int)));
            }
        }
        proof {
            assert(d.take(d_len as int) =~= d);
            assert(valid_size(s@));
        }
        Bytesize { unit, value: acc }
    }

    /// Render the size as text.
    pub fn to_string(&self) -> (r: String)
        ensures
            r@ == bytesize_string(*self),
    {
        if self.value == 0 {
            strutil::u64_to_string(0)
        } else {
            let v = strutil::u64_to_string(self.value);
            let u = self.unit.to_string();
            strutil::concat2(v.as_str(), u.as_str())
        }
    }
}

/// Kind of a partition, as understood by the boot firmware.
#[derive(Clone, Copy, Debug, PartialEq, Eq, Structural)]
pub enum PartitionType {
    Efi,
    Linux,
}

/// The partition type written by a type tag, if the tag is recognized.
pub open spec fn partition_type_of(s: Seq<char>) -> Option<PartitionType> {
    if s == "efi"@ || s == "ef00"@ {
        Some(PartitionType::Efi)
    } else if s == "linux"@ || s == "8300"@ {
        Some(PartitionType::Linux)
    } else {
        None
    }
}

/// The partition-table tool's code for a partition type.
pub open spec fn partition_type_gpt_string(t: PartitionType) -> Seq<char> {
    match t {
        PartitionType::Efi => "ef00"@,
        PartitionType::Linux => "8300"@,
    }
}

/// The canonical tag of a partition type.
pub open spec fn partition_type_string(t: PartitionType) -> Seq<char> {
    match t {
        PartitionType::Efi => "efi"@,
        PartitionType::Linux => "linux"@,
    }
}

impl PartitionType {
    /// The partition-table tool's code for this type.
    pub fn to_gpt_string(&self) -> (r: String)
        ensures
            r@ == partition_type_gpt_string(*self),
    {
        match self {
            PartitionType::Efi => "ef00".to_owned(),
            PartitionType::Linux => "8300".to_owned(),
        }
    }

    /// Parse a partition type tag.
    pub fn from_str(input: &str) -> (r: Result<Self, Error>)
        ensures
            match partition_type_of(input@) {
                Some(t) => r matches Ok(got) && got == t,
                None => r matches Err(e) && e@.kind is Generic && e@.description
                    == "Invalid partition type"@,
            },
    {
        if strutil::str_eq(input, "efi") || strutil::str_eq(input, "ef00") {
            Ok(PartitionType::Efi)
        } else if strutil::str_eq(input, "linux") || strutil::str_eq(input, "8300") {
            Ok(PartitionType::Linux)
        } else {
            Err(Error::generic("Invalid partition type"))
        }
    }

    /// The canonical tag of this type.
    pub fn to_string(&self) -> (r: String)
        ensures
            r@ == partition_type_string(*self),
    {
        match self {
            PartitionType::Efi => "efi".to_owned(),
            PartitionType::Linux => "linux".to_owned(),
        }
    }
}

/// Kind of filesystem carried by a partition or volume.
#[derive(Clone, Copy, Debug, PartialEq, Eq, Structural)]
pub enum FsType {
    Ext4,
    Fat32,
    Zfs,
    Lvm,
    Swap,
}

/// The filesystem type written by a tag, if the tag is recognized.
pub open spec fn fs_type_of(s: Seq<char>) -> Option<FsType> {
    if s == "ext4"@ {
        Some(FsType::Ext4)
    } else if s == "fat32"@ {
        Some(FsType::Fat32)
    } else if s == "zfs"@ {
        Some(FsType::Zfs)
    } else if s == "lvm"@ {
        Some(FsType::Lvm)
    } else if s == "swap"@ {
        Some(FsType::Swap)
    } else {
        None
    }
}

impl FsType {
    /// Parse a filesystem type tag.
    pub fn from_str(input: &str) -> (r: Result<Self, Error>)
        ensures
            match fs_type_of(input@) {
                Some(t) => r matches Ok(got) && got == t,
                None => r matches Err(e) && e@.kind is Generic && e@.description
                    == "Invalid enum value "@ + input@,
            },
    {
        if strutil::str_eq(input, "ext4") {
            Ok(FsType::Ext4)
        } else if strutil::str_eq(input, "fat32") {
            Ok(FsType::Fat32)
        } else if strutil::str_eq(input, "zfs") {
            Ok(FsType::Zfs)
        } else if strutil::str_eq(input, "lvm") {
            Ok(FsType::Lvm)
        } else if strutil::str_eq(input, "swap") {
            Ok(FsType::Swap)
        } else {
            let msg = strutil::concat2("Invalid enum value ", input);
            Err(Error::generic(msg.as_str()))
        }
    }
}

/// The command that erases a device's partition table and signatures.
pub open spec fn wipeout_cmd(device: Seq<char>) -> CmdModel {
    CmdModel { program: "sgdisk"@, args: seq!["-Z"@, device], stdin: None }
}

/// Build the whole-disk wipe command.
pub fn wipeout(device: &str) -> (r: Cmd)
    ensures
        r@ == wipeout_cmd(device@),
{
    let c = Cmd::new("sgdisk").arg("-Z").arg(device);
    proof {
        assert(c@.args =~= wipeout_cmd(device@).args);
    }
    c
}

/// The command that appends one partition-table entry: size, type code
/// and label, each scoped to the next free slot.
pub open spec fn create_partition_cmd(
    device: Seq<char>,
    size: Bytesize,
    t: PartitionType,
    label: Seq<char>,
) -> CmdModel {
    CmdModel {
        program: "sgdisk"@,
        args: seq![
            "-n"@,
            "0:0:"@ + gpt_size_string(size),
            "-t"@,
            "0:"@ + partition_type_gpt_string(t),
            "-c"@,
            "0:"@ + label,
            device,
        ],
        stdin: None,
    }
}

/// Build the command that creates one partition.
pub fn create_partition(
    device: &str,
    size: &Bytesize,
    partition_type: &PartitionType,
    label: &str,
) -> (r: Cmd)
    ensures
        r@ == create_partition_cmd(device@, *size, *partition_type, label@),
{
    let size_str = size.to_gpt_string();
    let size_arg = strutil::concat2("0:0:", size_str.as_str());
    let type_str = partition_type.to_gpt_string();
    let type_arg = strutil::concat2("0:", type_str.as_str());
    let label_arg = strutil::concat2("0:", label);
    let c = Cmd::new("sgdisk")
        .arg("-n")
        .arg(size_arg.as_str())
        .arg("-t")
        .arg(type_arg.as_str())
        .arg("-c")
        .arg(label_arg.as_str())
        .arg(device);
    proof {
        assert(c@.args =~= create_partition_cmd(device@, *size, *partition_type, label@).args);
    }
    c
}

/// The command that formats a FAT32 filesystem.
pub open spec fn fat32_cmd(device: Seq<char>, label: Seq<char>) -> CmdModel {
    CmdModel { program: "mkfs.fat"@, args: seq!["-F"@, "32"@, "-n"@, label, device], stdin: None }
}

/// Build the FAT32 format command.
pub fn format_fat32(device: &str, label: &str) -> (r: Cmd)
    ensures
        r@ == fat32_cmd(device@, label@),
{
    let c = Cmd::new("mkfs.fat").arg("-F").arg("32").arg("-n").arg(label).arg(device);
    proof {
        assert(c@.args =~= fat32_cmd(device@, label@).args);
    }
    c
}

/// The command that formats an ext4 filesystem.
pub open spec fn ext4_cmd(device: Seq<char>, label: Seq<char>) -> CmdModel {
    CmdModel { program: "mkfs.ext4"@, args: seq!["-L"@, label, device], stdin: None }
}

/// Build the ext4 format command.
pub fn format_ext4(device: &str, label: &str) -> (r: Cmd)
    ensures
        r@ == ext4_cmd(device@, label@),
{
    let c = Cmd::new("mkfs.ext4").arg("-L").arg(label).arg(device);
    proof {
        assert(c@.args =~= ext4_cmd(device@, label@).args);
    }
    c
}

/// The command that initializes a swap area.
pub open spec fn swap_cmd(device: Seq<char>, label: Seq<char>) -> CmdModel {
    CmdModel { program: "mkswap"@, args: seq!["-L"@, label, device], stdin: None }
}

/// Build the swap format command.
pub fn format_swap(device: &str, label: &str) -> (r: Cmd)
    ensures
        r@ == swap_cmd(device@, label@),
{
    let c = Cmd::new("mkswap").arg("-L").arg(label).arg(device);
    proof {
        assert(c@.args =~= swap_cmd(device@, label@).args);
    }
    c
}

/// Formatting a partition as pooled storage adds its device to the pool
/// named after the label (creating the pool when none is visible).
pub fn format_zfs(device: &str, label: &str) -> (r: Step)
    ensures
        r@ == (StepModel::PoolCreate { name: label@, device: device@ }),
{
    Step::PoolCreate { name: label.to_owned(), device: device.to_owned() }
}

/// The plan that formats one device according to a recognized, formattable
/// filesystem type, followed by a settle wait.
pub open spec fn format_partition_plan(device: Seq<char>, t: FsType, label: Seq<char>) -> Seq<
    StepModel,
> {
    match t {
        FsType::Fat32 => seq![StepModel::Run(fat32_cmd(device, label)), StepModel::Settle(1)],
        FsType::Ext4 => seq![StepModel::Run(ext4_cmd(device, label)), StepModel::Settle(1)],
        FsType::Swap => seq![StepModel::Run(swap_cmd(device, label)), StepModel::Settle(1)],
        FsType::Zfs => seq![
            StepModel::PoolCreate { name: label, device: device },
            StepModel::Settle(1),
        ],
        FsType::Lvm => seq![],
    }
}

/// Build the plan that formats one device according to its filesystem
/// type tag. Unrecognized tags and the volume-manager tag (which has no
/// direct format) are rejected.
pub fn format_partition(device: &str, format: &str, label: &str) -> (r: Result<Vec<Step>, Error>)
    ensures
        match fs_type_of(format@) {
            Some(t) => if t is Lvm {
                r matches Err(e) && e@.kind is Generic && e@.description
                    == "Invalid partition format"@
            } else {
                r matches Ok(p) && p.deep_view() == format_partition_plan(device@, t, label@)
            },
            None => r matches Err(e) && e@.kind is Generic && e@.description
                == "Invalid enum value "@ + format@,
        },
{
    let fs_type = FsType::from_str(format)?;
    let step: Step = match fs_type {
        FsType::Fat32 => Step::Run(format_fat32(device, label)),
        FsType::Ext4 => Step::Run(format_ext4(device, label)),
        FsType::Swap => Step::Run(format_swap(device, label)),
        FsType::Zfs => format_zfs(device, label),
        FsType::Lvm => {
            return Err(Error::generic("Invalid partition format"));
        },
    };
    let mut plan: Vec<Step> = Vec::new();
    plan.push(step);
    plan.push(Step::Settle(1));
    proof {
        assert(plan.deep_view() =~= format_partition_plan(
            device@,
            fs_type_of(format@).unwrap(),
            label@,
        ));
    }
    Ok(plan)
}

} // verus!
