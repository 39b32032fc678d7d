//! The machine options of a guest: its type, its processors and its memory.

use vstd::prelude::*;
use vstd::string::StringExecFns;
use crate::errors::{ConfigError, ErrorModel};
use crate::cmd_parser::{CmdParser, ParserModel};
use crate::text::{
    chars_of, str_eq, has_char, without_first, parse_decimal, to_lowercase, lowercase, decimal,
    remove_first, remove_char, without_char, is_digit, digits_value, find_char, lemma_find_char,
};

verus! {

/// Processors of a machine that is given none.
pub const DEFAULT_CPUS: u8 = 1;

/// Memory of a machine that is given none, in MiB.
pub const DEFAULT_MEMSIZE: u64 = 256;

/// The most processors a machine can have.
pub const MAX_NR_CPUS: u64 = 254;

/// The fewest processors a machine can have.
pub const MIN_NR_CPUS: u64 = 1;

/// The most memory a machine can have, in bytes: 512 GiB.
pub const MAX_MEMSIZE: u64 = 549_755_813_888;

/// The least memory a machine can have, in bytes: 256 MiB.
pub const MIN_MEMSIZE: u64 = 268_435_456;

/// Bytes in a MiB.
pub const M: u64 = 1_048_576;

/// Bytes in a GiB.
pub const G: u64 = 1_073_741_824;

/// Host memory nodes a zone can be bound to.
pub const MAX_NODES: u32 = 128;

/// The longest text a field may hold, in bytes.
pub const MAX_STRING_LENGTH: usize = 255;

/// The kind of machine to build.
#[derive(Clone, Copy, Debug, PartialEq, Eq, Structural)]
pub enum MachineType {
    NoneVm,
    MicroVm,
    StandardVm,
}

/// The machine type a lower-case name stands for: `none`, `microvm`, or
/// `q35` for the standard machine.
pub open spec fn machine_type_of(lower: Seq<char>) -> Result<MachineType, ()> {
    if lower == "none"@ {
        Ok(MachineType::NoneVm)
    } else if lower == "microvm"@ {
        Ok(MachineType::MicroVm)
    } else if lower == "q35"@ {
        Ok(MachineType::StandardVm)
    } else {
        Err(())
    }
}

impl MachineType {
    /// The machine type that the lower-case name `lower` stands for.
    pub fn from_lowercase(lower: &str) -> (r: Result<MachineType, ()>)
        ensures
            r == machine_type_of(lower@),
    {
        if str_eq(lower, "none") {
            Ok(MachineType::NoneVm)
        } else if str_eq(lower, "microvm") {
            Ok(MachineType::MicroVm)
        } else if str_eq(lower, "q35") {
            Ok(MachineType::StandardVm)
        } else {
            Err(())
        }
    }

    /// The machine type that `s` names, in any mix of upper and lower case.
    pub fn from_str(s: &str) -> (r: Result<MachineType, ()>)
        ensures
            r == machine_type_of(lowercase(s@)),
    {
        let lower: String = to_lowercase(s);
        MachineType::from_lowercase(lower.as_str())
    }
}

impl std::str::FromStr for MachineType {
    type Err = ();

    /// The machine type that `s` names, in any mix of upper and lower case.
    fn from_str(s: &str) -> (r: Result<MachineType, ()>)
        ensures
            r == machine_type_of(lowercase(s@)),
    {
        MachineType::from_str(s)
    }
}

/// How the host places the memory of a zone.
#[derive(Clone, Copy, Debug, PartialEq, Eq, Structural)]
pub enum HostMemPolicy {
    Default,
    Preferred,
    Bind,
    Interleave,
    Local,
    NotSupported,
}

/// The placement a lower-case name stands for.
pub open spec fn host_mem_policy_of(lower: Seq<char>) -> HostMemPolicy {
    if lower == "default"@ {
        HostMemPolicy::Default
    } else if lower == "preferred"@ {
        HostMemPolicy::Preferred
    } else if lower == "bind"@ {
        HostMemPolicy::Bind
    } else if lower == "interleave"@ {
        HostMemPolicy::Interleave
    } else if lower == "local"@ {
        HostMemPolicy::Local
    } else {
        HostMemPolicy::NotSupported
    }
}

impl HostMemPolicy {
    /// The placement that the lower-case name `lower` stands for.
    pub fn from_lowercase(lower: &str) -> (r: HostMemPolicy)
        ensures
            r == host_mem_policy_of(lower@),
    {
        if str_eq(lower, "default") {
            HostMemPolicy::Default
        } else if str_eq(lower, "preferred") {
            HostMemPolicy::Preferred
        } else if str_eq(lower, "bind") {
            HostMemPolicy::Bind
        } else if str_eq(lower, "interleave") {
            HostMemPolicy::Interleave
        } else if str_eq(lower, "local") {
            HostMemPolicy::Local
        } else {
            HostMemPolicy::NotSupported
        }
    }

    /// The number the host knows this placement by.
    pub fn code(self) -> (r: u32)
        ensures
            r == match self {
                HostMemPolicy::Default => 0u32,
                HostMemPolicy::Preferred => 1u32,
                HostMemPolicy::Bind => 2u32,
                HostMemPolicy::Interleave => 3u32,
                HostMemPolicy::Local => 4u32,
                HostMemPolicy::NotSupported => 5u32,
            },
    {
        match self {
            HostMemPolicy::Default => 0,
            HostMemPolicy::Preferred => 1,
            HostMemPolicy::Bind => 2,
            HostMemPolicy::Interleave => 3,
            HostMemPolicy::Local => 4,
            HostMemPolicy::NotSupported => 5,
        }
    }
}

impl From<String> for HostMemPolicy {
    /// The placement that `name` names, in any mix of upper and lower case.
    fn from(name: String) -> (r: HostMemPolicy) {
        let lower: String = to_lowercase(name.as_str());
        HostMemPolicy::from_lowercase(lower.as_str())
    }
}

impl vstd::std_specs::convert::FromSpecImpl<String> for HostMemPolicy {
    open spec fn obeys_from_spec() -> bool {
        true
    }

    open spec fn from_spec(name: String) -> HostMemPolicy {
        host_mem_policy_of(lowercase(name@))
    }
}

/// Whether `s` ends in one of the two letters of a unit and holds only one
/// of the two.
pub open spec fn has_unit(s: Seq<char>, upper: char, lower: char) -> bool {
    &&& s.len() > 0
    &&& (s.last() == upper || s.last() == lower)
    &&& s.contains(upper) != s.contains(lower)
}

/// `s` without the first letter of its unit.
pub open spec fn without_unit(s: Seq<char>, upper: char, lower: char) -> Seq<char> {
    remove_first(remove_first(s, upper), lower)
}

/// The number `digits` denotes, times `unit`: for the size text `origin`.
pub open spec fn scaled(origin: Seq<char>, digits: Seq<char>, unit: u64) -> Result<
    u64,
    ErrorModel,
> {
    match decimal(digits, u64::MAX) {
        None => Err(ErrorModel::ConvertValueFailed(origin, "u64"@)),
        Some(n) => if n * unit > u64::MAX {
            Err(ErrorModel::IntegerOverflow("-m"@))
        } else {
            Ok((n * unit) as u64)
        },
    }
}

/// The bytes a size text stands for: a decimal number, followed by `M` or
/// `m` for MiB, by `G` or `g` for GiB, or by nothing, which is MiB too.
pub open spec fn memory_size(s: Seq<char>) -> Result<u64, ErrorModel> {
    if has_unit(s, 'M', 'm') {
        scaled(s, without_unit(s, 'M', 'm'), M)
    } else if has_unit(s, 'G', 'g') {
        scaled(s, without_unit(s, 'G', 'g'), G)
    } else {
        scaled(s, s, M)
    }
}

/// The bytes in one unit of a size text with the suffix `suffix`.
pub open spec fn unit_of(suffix: char) -> u64 {
    if suffix == 'G' || suffix == 'g' {
        G
    } else {
        M
    }
}

/// A decimal number that fits 64 bits stands for that many MiB.
pub proof fn law_plain_number_is_mebibytes(digits: Seq<char>)
    requires
        digits.len() > 0,
        forall|i: int| 0 <= i < digits.len() ==> is_digit(#[trigger] digits[i]),
        digits_value(digits) <= u64::MAX,
    ensures
        memory_size(digits) == if digits_value(digits) * M > u64::MAX {
            Err::<u64, ErrorModel>(ErrorModel::IntegerOverflow("-m"@))
        } else {
            Ok::<u64, ErrorModel>((digits_value(digits) * M) as u64)
        },
{
    assert(is_digit(digits.last()));
    assert(!has_unit(digits, 'M', 'm'));
    assert(!has_unit(digits, 'G', 'g'));
    assert(is_digit(digits[0]));
}

/// Digits hold no letter, and digits with one letter behind them hold no
/// other letter: taking such a letter out changes nothing.
proof fn lemma_no_such_letter(digits: Seq<char>, suffix: char, c: char)
    requires
        forall|i: int| 0 <= i < digits.len() ==> is_digit(#[trigger] digits[i]),
        !is_digit(c),
    ensures
        !digits.contains(c),
        remove_first(digits, c) == digits,
        c != suffix ==> !digits.push(suffix).contains(c) && remove_first(digits.push(suffix), c)
            == digits.push(suffix),
{
    let s = digits.push(suffix);
    lemma_find_char(digits, c, 0);
    lemma_find_char(s, c, 0);
    if digits.contains(c) {
        let i = choose|i: int| 0 <= i < digits.len() && digits[i] == c;
        assert(is_digit(digits[i]));
    }
    if find_char(digits, c, 0) < digits.len() {
        assert(is_digit(digits[find_char(digits, c, 0)]));
    }
    if c != suffix {
        if s.contains(c) {
            let i = choose|i: int| 0 <= i < s.len() && s[i] == c;
            assert(i < digits.len());
            assert(s[i] == digits[i]);
            assert(is_digit(digits[i]));
        }
        if find_char(s, c, 0) < s.len() {
            assert(s.contains(c));
        }
    }
}

/// A decimal number that fits 64 bits, followed by one of `M`, `m`, `G`
/// and `g`, stands for that many MiB or GiB.
pub proof fn law_number_with_unit(digits: Seq<char>, suffix: char)
    requires
        digits.len() > 0,
        forall|i: int| 0 <= i < digits.len() ==> is_digit(#[trigger] digits[i]),
        digits_value(digits) <= u64::MAX,
        suffix == 'M' || suffix == 'm' || suffix == 'G' || suffix == 'g',
    ensures
        memory_size(digits.push(suffix)) == if digits_value(digits) * unit_of(suffix) > u64::MAX {
            Err::<u64, ErrorModel>(ErrorModel::IntegerOverflow("-m"@))
        } else {
            Ok::<u64, ErrorModel>((digits_value(digits) * unit_of(suffix)) as u64)
        },
{
    let s = digits.push(suffix);
    let n = digits.len() as int;
    assert(s.last() == suffix);
    assert(s[n] == suffix);
    assert(s.contains(suffix));
    assert(is_digit(digits[0]));
    lemma_find_char(s, suffix, 0);
    assert(find_char(s, suffix, 0) == n) by {
        if find_char(s, suffix, 0) < n {
            assert(s[find_char(s, suffix, 0)] == digits[find_char(s, suffix, 0)]);
            assert(is_digit(digits[find_char(s, suffix, 0)]));
        }
    }
    assert(remove_first(s, suffix) =~= digits);
    lemma_no_such_letter(digits, suffix, 'M');
    lemma_no_such_letter(digits, suffix, 'm');
    lemma_no_such_letter(digits, suffix, 'G');
    lemma_no_such_letter(digits, suffix, 'g');
}

/// Whether `result` is `expected`, with the error taken by its view.
pub open spec fn yields<T>(result: Result<T, ConfigError>, expected: Result<T, ErrorModel>) -> bool {
    match result {
        Ok(v) => expected == Ok::<T, ErrorModel>(v),
        Err(e) => expected == Err::<T, ErrorModel>(e@),
    }
}

/// The value inside `outer`, or the overflow error if there is none.
pub fn get_inner<T>(outer: Option<T>) -> (r: Result<T, ConfigError>)
    ensures
        yields(
            r,
            match outer {
                Some(x) => Ok(x),
                None => Err(ErrorModel::IntegerOverflow("-m"@)),
            },
        ),
{
    if let Some(x) = outer {
        Ok(x)
    } else {
        Err(ConfigError::IntegerOverflow(String::from_str("-m")))
    }
}

/// Whether `chars` has the unit of the letters `upper` and `lower`.
fn ends_in_unit(chars: &Vec<char>, upper: char, lower: char) -> (r: bool)
    ensures
        r == has_unit(chars@, upper, lower),
{
    let n: usize = chars.len();
    if n == 0 {
        return false;
    }
    let last: char = chars[n - 1];
    (last == upper || last == lower) && (has_char(chars, upper) != has_char(chars, lower))
}

/// Reads `digits` as a number and multiplies it by `unit`.
fn scale(origin: &str, digits: &Vec<char>, unit: u64) -> (r: Result<u64, ConfigError>)
    ensures
        yields(r, scaled(origin@, digits@, unit)),
{
    match parse_decimal(digits, u64::MAX) {
        None => Err(
            ConfigError::ConvertValueFailed(String::from_str(origin), String::from_str("u64")),
        ),
        Some(n) => get_inner(n.checked_mul(unit)),
    }
}

/// Converts a memory size text to bytes.
pub fn memory_unit_conversion(origin_value: &str) -> (r: Result<u64, ConfigError>)
    ensures
        yields(r, memory_size(origin_value@)),
{
    let chars: Vec<char> = chars_of(origin_value);
    if ends_in_unit(&chars, 'M', 'm') {
        let digits: Vec<char> = without_first(&without_first(&chars, 'M'), 'm');
        scale(origin_value, &digits, M)
    } else if ends_in_unit(&chars, 'G', 'g') {
        let digits: Vec<char> = without_first(&without_first(&chars, 'G'), 'g');
        scale(origin_value, &digits, G)
    } else {
        scale(origin_value, &chars, M)
    }
}

/// A memory zone with its texts taken as character sequences.
pub struct ZoneModel {
    pub id: Seq<char>,
    pub size: u64,
    pub host_numa_node: Option<u32>,
    pub policy: Seq<char>,
}

/// A memory zone of the guest, backed by host memory.
#[derive(Clone, Debug)]
pub struct MemZoneConfig {
    pub id: String,
    pub size: u64,
    pub host_numa_node: Option<u32>,
    pub policy: String,
}

impl View for MemZoneConfig {
    type V = ZoneModel;

    open spec fn view(&self) -> ZoneModel {
        ZoneModel {
            id: self.id@,
            size: self.size,
            host_numa_node: self.host_numa_node,
            policy: self.policy@,
        }
    }
}

impl Default for MemZoneConfig {
    /// A zone without name or size, bound to no node.
    fn default() -> (r: MemZoneConfig)
        ensures
            r@ == (ZoneModel { id: Seq::empty(), size: 0, host_numa_node: None, policy: "bind"@ }),
    {
        MemZoneConfig {
            id: String::new(),
            size: 0,
            host_numa_node: None,
            policy: String::from_str("bind"),
        }
    }
}

/// The memory of a machine with its texts taken as character sequences.
pub struct MemModel {
    pub mem_size: u64,
    pub mem_path: Option<Seq<char>>,
    pub dump_guest_core: bool,
    pub mem_share: bool,
    pub mem_prealloc: bool,
    pub mem_zones: Option<Seq<ZoneModel>>,
}

/// The memory of a machine that is given no memory option: 256 MiB of
/// private memory, not backed by a file, dumped with the guest, without
/// zones.
pub open spec fn default_memory() -> MemModel {
    MemModel {
        mem_size: 268_435_456,
        mem_path: None,
        dump_guest_core: true,
        mem_share: false,
        mem_prealloc: false,
        mem_zones: None,
    }
}

/// The memory of a machine.
#[derive(Clone, Debug)]
pub struct MachineMemConfig {
    pub mem_size: u64,
    pub mem_path: Option<String>,
    pub dump_guest_core: bool,
    pub mem_share: bool,
    pub mem_prealloc: bool,
    pub mem_zones: Option<Vec<MemZoneConfig>>,
}

/// The models of a list of zones, in order.
pub open spec fn zones_view(zones: Seq<MemZoneConfig>) -> Seq<ZoneModel> {
    Seq::new(zones.len(), |i: int| zones[i]@)
}

impl View for MachineMemConfig {
    type V = MemModel;

    open spec fn view(&self) -> MemModel {
        MemModel {
            mem_size: self.mem_size,
            mem_path: match self.mem_path {
                Some(p) => Some(p@),
                None => None,
            },
            dump_guest_core: self.dump_guest_core,
            mem_share: self.mem_share,
            mem_prealloc: self.mem_prealloc,
            mem_zones: match self.mem_zones {
                Some(z) => Some(zones_view(z@)),
                None => None,
            },
        }
    }
}

impl Default for MachineMemConfig {
    /// 256 MiB of private memory, not backed by a file, dumped with the
    /// guest, without zones.
    fn default() -> (r: MachineMemConfig)
        ensures
            r@ == default_memory(),
    {
        MachineMemConfig {
            mem_size: DEFAULT_MEMSIZE * M,
            mem_path: None,
            dump_guest_core: true,
            mem_share: false,
            mem_prealloc: false,
            mem_zones: None,
        }
    }
}

/// A machine with its texts taken as character sequences.
pub struct MachineModel {
    pub mach_type: MachineType,
    pub nr_cpus: u8,
    pub mem_config: MemModel,
}

/// The machine that is given no option: a micro machine with one
/// processor and the default memory.
pub open spec fn default_machine() -> MachineModel {
    MachineModel { mach_type: MachineType::MicroVm, nr_cpus: 1, mem_config: default_memory() }
}

/// The type, the processors and the memory of a machine.
#[derive(Clone, Debug)]
pub struct MachineConfig {
    pub mach_type: MachineType,
    pub nr_cpus: u8,
    pub mem_config: MachineMemConfig,
}

impl View for MachineConfig {
    type V = MachineModel;

    open spec fn view(&self) -> MachineModel {
        MachineModel {
            mach_type: self.mach_type,
            nr_cpus: self.nr_cpus,
            mem_config: self.mem_config@,
        }
    }
}

impl Default for MachineConfig {
    /// A micro machine with one processor and the default memory.
    fn default() -> (r: MachineConfig)
        ensures
            r@ == default_machine(),
    {
        MachineConfig {
            mach_type: MachineType::MicroVm,
            nr_cpus: DEFAULT_CPUS,
            mem_config: MachineMemConfig::default(),
        }
    }
}

impl MachineConfig {
    /// Checks that the memory size is one a machine can have.
    pub fn check(&self) -> (r: Result<(), ConfigError>)
        ensures
            yields(
                r,
                if MIN_MEMSIZE <= self.mem_config.mem_size <= MAX_MEMSIZE {
                    Ok(())
                } else {
                    Err(ErrorModel::MemSizeOutOfRange(self.mem_config.mem_size))
                },
            ),
    {
        if self.mem_config.mem_size < MIN_MEMSIZE || self.mem_config.mem_size > MAX_MEMSIZE {
            return Err(ConfigError::MemSizeOutOfRange(self.mem_config.mem_size));
        }
        Ok(())
    }
}

/// The configuration of a virtual machine.
#[derive(Clone, Debug)]
pub struct VmConfig {
    pub machine_config: MachineConfig,
}

impl View for VmConfig {
    type V = MachineModel;

    open spec fn view(&self) -> MachineModel {
        self.machine_config@
    }
}

impl Default for VmConfig {
    /// The configuration of the default machine.
    fn default() -> (r: VmConfig)
        ensures
            r@ == default_machine(),
    {
        VmConfig { machine_config: MachineConfig::default() }
    }
}

/// The parser of the memory option: an unnamed size, or `size`.
pub open spec fn memory_parser() -> ParserModel {
    (ParserModel { name: "m"@, fields: Seq::empty() }).declare(""@).declare("size"@)
}

/// The bytes the memory option `cmd` asks for: the unnamed size if there
/// is one, else the field `size`.
pub open spec fn memory_option(cmd: Seq<char>) -> Result<u64, ErrorModel> {
    match memory_parser().parse(cmd) {
        Err(e) => Err(e),
        Ok(p) => match p.value(""@) {
            Some(v) => memory_size(v),
            None => match p.value("size"@) {
                Some(v) => memory_size(v),
                None => Err(ErrorModel::FieldIsMissing("size"@, "memory"@)),
            },
        },
    }
}

/// The parser of the processor option.
pub open spec fn cpu_parser() -> ParserModel {
    (ParserModel { name: "smp"@, fields: Seq::empty() }).declare(""@).declare("sockets"@).declare(
        "cores"@,
    ).declare("threads"@).declare("cpus"@)
}

/// The processors a parsed option that names `cpu` processors asks for:
/// the sockets have to be as many as the processors, cores and threads one
/// each, and the processors between 1 and 254.
pub open spec fn cpu_topology(p: ParserModel, cpu: u64) -> Result<u8, ErrorModel> {
    match p.number("sockets"@, u64::MAX) {
        Err(e) => Err(e),
        Ok(sockets) => if sockets is Some && sockets != Some(cpu) {
            Err(ErrorModel::SocketsMismatch)
        } else {
            match p.number("cores"@, u64::MAX) {
                Err(e) => Err(e),
                Ok(cores) => if cores is Some && cores != Some(1u64) {
                    Err(ErrorModel::CoresUnsupported)
                } else {
                    match p.number("threads"@, u64::MAX) {
                        Err(e) => Err(e),
                        Ok(threads) => if threads is Some && threads != Some(1u64) {
                            Err(ErrorModel::ThreadsUnsupported)
                        } else if cpu < MIN_NR_CPUS || cpu > MAX_NR_CPUS {
                            Err(
                                ErrorModel::IllegalValue(
                                    "CPU number"@,
                                    MIN_NR_CPUS,
                                    true,
                                    MAX_NR_CPUS,
                                    true,
                                ),
                            )
                        } else {
                            Ok(cpu as u8)
                        },
                    }
                },
            }
        },
    }
}

/// The processors the option `cmd` asks for: the unnamed number if there
/// is one, else the field `cpus`.
pub open spec fn cpu_option(cmd: Seq<char>) -> Result<u8, ErrorModel> {
    match cpu_parser().parse(cmd) {
        Err(e) => Err(e),
        Ok(p) => match p.number(""@, u64::MAX) {
            Err(e) => Err(e),
            Ok(Some(cpu)) => cpu_topology(p, cpu),
            Ok(None) => match p.number("cpus"@, u64::MAX) {
                Err(e) => Err(e),
                Ok(Some(cpu)) => cpu_topology(p, cpu),
                Ok(None) => Err(ErrorModel::FieldIsMissing("cpus"@, "smp"@)),
            },
        },
    }
}

/// The parser of the memory zone option.
pub open spec fn zone_parser() -> ParserModel {
    (ParserModel { name: "mem_zone"@, fields: Seq::empty() }).declare(""@).declare("id"@).declare(
        "size"@,
    ).declare("host-nodes"@).declare("policy"@)
}

/// The length of a text in bytes, as the machine stores it.
pub open spec fn byte_len(s: Seq<char>) -> usize {
    vstd::utf8::encode_utf8(s).len() as usize
}

/// The placement part of a zone: the node, which has to be below 128, and
/// the policy, which has to be one the host knows; `bind` if none is given.
pub open spec fn zone_placement(p: ParserModel, id: Seq<char>, size: u64) -> Result<
    ZoneModel,
    ErrorModel,
> {
    match p.number("host-nodes"@, 0xffff_ffff) {
        Err(e) => Err(e),
        Ok(Some(node)) if node >= MAX_NODES => Err(
            ErrorModel::IllegalValue("host_nodes"@, 0, true, 128, false),
        ),
        Ok(node) => {
            let host_numa_node = match node {
                Some(n) => Some(n as u32),
                None => None,
            };
            match p.value("policy"@) {
                Some(policy) => if host_mem_policy_of(lowercase(policy))
                    == HostMemPolicy::NotSupported {
                    Err(ErrorModel::InvalidParam("policy"@, policy))
                } else {
                    Ok(ZoneModel { id, size, host_numa_node, policy })
                },
                None => Ok(ZoneModel { id, size, host_numa_node, policy: "bind"@ }),
            }
        },
    }
}

/// The zone the fields of a parsed option describe: it needs an `id` of
/// at most 255 bytes and a `size`.
pub open spec fn zone_fields(p: ParserModel) -> Result<ZoneModel, ErrorModel> {
    match p.value("id"@) {
        None => Err(ErrorModel::FieldIsMissing("id"@, "memory-backend-ram"@)),
        Some(id) => if byte_len(id) > MAX_STRING_LENGTH {
            Err(ErrorModel::StringLengthTooLong("id"@, MAX_STRING_LENGTH))
        } else {
            match p.value("size"@) {
                None => Err(ErrorModel::FieldIsMissing("size"@, "memory-backend-ram"@)),
                Some(text) => match memory_size(text) {
                    Err(e) => Err(e),
                    Ok(size) => zone_placement(p, id, size),
                },
            }
        },
    }
}

/// The zone the option `cmd` describes.
pub open spec fn zone_option(cmd: Seq<char>) -> Result<ZoneModel, ErrorModel> {
    match zone_parser().parse(cmd) {
        Err(e) => Err(e),
        Ok(p) => zone_fields(p),
    }
}

/// The parser of the machine option.
pub open spec fn machine_parser() -> ParserModel {
    (ParserModel { name: "machine"@, fields: Seq::empty() }).declare(""@).declare("type"@).declare(
        "accel"@,
    ).declare("usb"@).declare("dump-guest-core"@).declare("mem-share"@)
}

/// Whether `accel` is an accelerator a machine can use.
pub open spec fn accel_supported(accel: Seq<char>) -> bool {
    accel == "kvm:tcg"@ || accel == "tcg"@ || accel == "kvm"@
}

/// The machine type after the field `key`: the type the field names, or
/// `current` if the field has no value.
pub open spec fn machine_type_field(p: ParserModel, key: Seq<char>, current: MachineType) -> Result<
    MachineType,
    ErrorModel,
> {
    match p.value(key) {
        None => Ok(current),
        Some(name) => match machine_type_of(lowercase(name)) {
            Ok(t) => Ok(t),
            Err(_) => Err(ErrorModel::UnrecognizedMachineType),
        },
    }
}

/// A machine and the error that stopped an option from taking effect in
/// full, if one did.
pub struct Applied {
    pub config: MachineModel,
    pub error: Option<ErrorModel>,
}

/// The machine `m` with the machine type `t`.
pub open spec fn with_type(m: MachineModel, t: MachineType) -> MachineModel {
    MachineModel { mach_type: t, ..m }
}

/// The machine `m` with guest memory dumped or not.
pub open spec fn with_dump(m: MachineModel, on: bool) -> MachineModel {
    MachineModel { mem_config: MemModel { dump_guest_core: on, ..m.mem_config }, ..m }
}

/// The machine `m` with guest memory shared or not.
pub open spec fn with_share(m: MachineModel, on: bool) -> MachineModel {
    MachineModel { mem_config: MemModel { mem_share: on, ..m.mem_config }, ..m }
}

/// The machine `m` with `bytes` of memory.
pub open spec fn with_mem_size(m: MachineModel, bytes: u64) -> MachineModel {
    MachineModel { mem_config: MemModel { mem_size: bytes, ..m.mem_config }, ..m }
}

/// The machine `m` with its memory backed by the file `path`.
pub open spec fn with_mem_path(m: MachineModel, path: Seq<char>) -> MachineModel {
    MachineModel { mem_config: MemModel { mem_path: Some(path), ..m.mem_config }, ..m }
}

/// The machine `m` with its memory allocated up front.
pub open spec fn with_prealloc(m: MachineModel) -> MachineModel {
    MachineModel { mem_config: MemModel { mem_prealloc: true, ..m.mem_config }, ..m }
}

/// The machine `m` with `n` processors.
pub open spec fn with_cpus(m: MachineModel, n: u8) -> MachineModel {
    MachineModel { nr_cpus: n, ..m }
}

/// The machine `m` with `zone` as its last memory zone.
pub open spec fn with_zone(m: MachineModel, zone: ZoneModel) -> MachineModel {
    let zones = match m.mem_config.mem_zones {
        Some(z) => z.push(zone),
        None => seq![zone],
    };
    MachineModel { mem_config: MemModel { mem_zones: Some(zones), ..m.mem_config }, ..m }
}

/// The last two fields of the machine option, applied to `m`: whether
/// guest memory is dumped, then whether it is shared.
pub open spec fn machine_switches(p: ParserModel, m: MachineModel) -> Applied {
    match p.switch("dump-guest-core"@) {
        Err(e) => Applied { config: m, error: Some(e) },
        Ok(dump) => {
            let dumped = match dump {
                Some(on) => with_dump(m, on),
                None => m,
            };
            match p.switch("mem-share"@) {
                Err(e) => Applied { config: dumped, error: Some(e) },
                Ok(Some(on)) => Applied { config: with_share(dumped, on), error: None },
                Ok(None) => Applied { config: dumped, error: None },
            }
        },
    }
}

/// The fields of the machine option that name the type, applied to `m`:
/// the unnamed field, then `type`; then the switches.
pub open spec fn machine_types(p: ParserModel, m: MachineModel) -> Applied {
    match machine_type_field(p, ""@, m.mach_type) {
        Err(e) => Applied { config: m, error: Some(e) },
        Ok(unnamed) => match machine_type_field(p, "type"@, unnamed) {
            Err(e) => Applied { config: with_type(m, unnamed), error: Some(e) },
            Ok(named) => machine_switches(p, with_type(m, named)),
        },
    }
}

/// The machine option `cmd` applied to `m`. The accelerator has to be a
/// supported one and `usb` off; the fields behind them take effect one by
/// one, so an error leaves the earlier ones applied.
pub open spec fn machine_option(m: MachineModel, cmd: Seq<char>) -> Applied {
    match machine_parser().parse(cmd) {
        Err(e) => Applied { config: m, error: Some(e) },
        Ok(p) => if p.value("accel"@) matches Some(accel) && !accel_supported(accel) {
            Applied { config: m, error: Some(ErrorModel::UnsupportedAccel) }
        } else {
            match p.switch("usb"@) {
                Err(e) => Applied { config: m, error: Some(e) },
                Ok(Some(true)) => Applied { config: m, error: Some(ErrorModel::UsbEnabled) },
                Ok(_) => machine_types(p, m),
            }
        },
    }
}

/// Reads the machine type that the field `key` names.
fn read_machine_type(parser: &CmdParser, key: &str, current: MachineType) -> (r: Result<
    MachineType,
    ConfigError,
>)
    ensures
        yields(r, machine_type_field(parser@, key@, current)),
{
    match parser.get_value(key) {
        None => Ok(current),
        Some(name) => match MachineType::from_str(name.as_str()) {
            Ok(t) => Ok(t),
            Err(_) => Err(ConfigError::UnrecognizedMachineType),
        },
    }
}

/// Checks the topology fields of a processor option that names `cpu`
/// processors.
fn read_cpu_topology(parser: &CmdParser, cpu: u64) -> (r: Result<u8, ConfigError>)
    ensures
        yields(r, cpu_topology(parser@, cpu)),
{
    if let Some(sockets) = parser.get_number("sockets", u64::MAX)? {
        if sockets != cpu {
            return Err(ConfigError::SocketsMismatch);
        }
    }
    if let Some(cores) = parser.get_number("cores", u64::MAX)? {
        if cores != 1 {
            return Err(ConfigError::CoresUnsupported);
        }
    }
    if let Some(threads) = parser.get_number("threads", u64::MAX)? {
        if threads != 1 {
            return Err(ConfigError::ThreadsUnsupported);
        }
    }
    if cpu < MIN_NR_CPUS || cpu > MAX_NR_CPUS {
        return Err(
            ConfigError::IllegalValue(
                String::from_str("CPU number"),
                MIN_NR_CPUS,
                true,
                MAX_NR_CPUS,
                true,
            ),
        );
    }
    Ok(cpu as u8)
}

/// Reads the node and the policy of a zone.
fn read_zone_placement(parser: &CmdParser, id: String, size: u64) -> (r: Result<
    MemZoneConfig,
    ConfigError,
>)
    ensures
        match r {
            Ok(zone) => zone_placement(parser@, id@, size) == Ok::<ZoneModel, ErrorModel>(zone@),
            Err(e) => zone_placement(parser@, id@, size) == Err::<ZoneModel, ErrorModel>(e@),
        },
{
    let mut host_numa_node: Option<u32> = None;
    if let Some(node) = parser.get_number("host-nodes", 0xffff_ffff)? {
        if node >= MAX_NODES as u64 {
            return Err(
                ConfigError::IllegalValue(
                    String::from_str("host_nodes"),
                    0,
                    true,
                    MAX_NODES as u64,
                    false,
                ),
            );
        }
        host_numa_node = Some(node as u32);
    }
    let mut policy: String = String::from_str("bind");
    if let Some(given) = parser.get_value("policy") {
        if HostMemPolicy::from(given.clone()) == HostMemPolicy::NotSupported {
            return Err(ConfigError::InvalidParam(String::from_str("policy"), given.clone()));
        }
        policy = given.clone();
    }
    Ok(MemZoneConfig { id, size, host_numa_node, policy })
}

/// Reads a zone from a parsed zone option.
fn read_zone(parser: &CmdParser) -> (r: Result<MemZoneConfig, ConfigError>)
    ensures
        match r {
            Ok(zone) => zone_fields(parser@) == Ok::<ZoneModel, ErrorModel>(zone@),
            Err(e) => zone_fields(parser@) == Err::<ZoneModel, ErrorModel>(e@),
        },
{
    let id: String = match parser.get_value("id") {
        Some(id) => {
            if id.as_str().len() > MAX_STRING_LENGTH {
                return Err(
                    ConfigError::StringLengthTooLong(String::from_str("id"), MAX_STRING_LENGTH),
                );
            }
            id.clone()
        },
        None => {
            return Err(
                ConfigError::FieldIsMissing(
                    String::from_str("id"),
                    String::from_str("memory-backend-ram"),
                ),
            );
        },
    };
    let size: u64 = match parser.get_value("size") {
        Some(text) => memory_unit_conversion(text.as_str())?,
        None => {
            return Err(
                ConfigError::FieldIsMissing(
                    String::from_str("size"),
                    String::from_str("memory-backend-ram"),
                ),
            );
        },
    };
    read_zone_placement(parser, id, size)
}

/// A copy of `zone`.
fn copy_zone(zone: &MemZoneConfig) -> (r: MemZoneConfig)
    ensures
        r@ == zone@,
{
    MemZoneConfig {
        id: zone.id.clone(),
        size: zone.size,
        host_numa_node: zone.host_numa_node,
        policy: zone.policy.clone(),
    }
}

impl VmConfig {
    /// Applies the machine option `mach_config`: the machine type, and
    /// whether guest memory is dumped and shared.
    pub fn add_machine(&mut self, mach_config: &str) -> (r: Result<(), ConfigError>)
        ensures
            final(self)@ == machine_option(old(self)@, mach_config@).config,
            match r {
                Ok(()) => machine_option(old(self)@, mach_config@).error is None,
                Err(e) => machine_option(old(self)@, mach_config@).error == Some(e@),
            },
    {
        let parser = CmdParser::new("machine").push("").push("type").push("accel").push("usb").push(
            "dump-guest-core",
        ).push("mem-share");
        let parser = parser.parse(mach_config)?;
        if let Some(accel) = parser.get_value("accel") {
            if !str_eq(accel.as_str(), "kvm:tcg") && !str_eq(accel.as_str(), "tcg") && !str_eq(
                accel.as_str(),
                "kvm",
            ) {
                return Err(ConfigError::UnsupportedAccel);
            }
        }
        if let Some(usb) = parser.get_switch("usb")? {
            if usb {
                return Err(ConfigError::UsbEnabled);
            }
        }
        let unnamed = read_machine_type(&parser, "", self.machine_config.mach_type)?;
        self.machine_config.mach_type = unnamed;
        let named = read_machine_type(&parser, "type", unnamed)?;
        self.machine_config.mach_type = named;
        if let Some(dump_guest) = parser.get_switch("dump-guest-core")? {
            self.machine_config.mem_config.dump_guest_core = dump_guest;
        }
        if let Some(mem_share) = parser.get_switch("mem-share")? {
            self.machine_config.mem_config.mem_share = mem_share;
        }
        Ok(())
    }

    /// Applies the memory option `mem_config`: the size of the guest's
    /// memory.
    pub fn add_memory(&mut self, mem_config: &str) -> (r: Result<(), ConfigError>)
        ensures
            match r {
                Ok(()) => memory_option(mem_config@) matches Ok(bytes) && final(self)@
                    == with_mem_size(old(self)@, bytes),
                Err(e) => memory_option(mem_config@) == Err::<u64, ErrorModel>(e@) && final(self)@
                    == old(self)@,
            },
    {
        let parser = CmdParser::new("m").push("").push("size");
        let parser = parser.parse(mem_config)?;
        let mem: u64 = if let Some(mem_size) = parser.get_value("") {
            memory_unit_conversion(mem_size.as_str())?
        } else if let Some(mem_size) = parser.get_value("size") {
            memory_unit_conversion(mem_size.as_str())?
        } else {
            return Err(
                ConfigError::FieldIsMissing(String::from_str("size"), String::from_str("memory")),
            );
        };
        self.machine_config.mem_config.mem_size = mem;
        Ok(())
    }

    /// Applies the processor option `cpu_config`: the number of
    /// processors.
    pub fn add_cpu(&mut self, cpu_config: &str) -> (r: Result<(), ConfigError>)
        ensures
            match r {
                Ok(()) => cpu_option(cpu_config@) matches Ok(n) && final(self)@ == with_cpus(
                    old(self)@,
                    n,
                ),
                Err(e) => cpu_option(cpu_config@) == Err::<u8, ErrorModel>(e@) && final(self)@
                    == old(self)@,
            },
    {
        let parser = CmdParser::new("smp").push("").push("sockets").push("cores").push(
            "threads",
        ).push("cpus");
        let parser = parser.parse(cpu_config)?;
        let cpu: u64 = if let Some(cpu) = parser.get_number("", u64::MAX)? {
            cpu
        } else if let Some(cpu) = parser.get_number("cpus", u64::MAX)? {
            cpu
        } else {
            return Err(
                ConfigError::FieldIsMissing(String::from_str("cpus"), String::from_str("smp")),
            );
        };
        let nr_cpus: u8 = read_cpu_topology(&parser, cpu)?;
        self.machine_config.nr_cpus = nr_cpus;
        Ok(())
    }

    /// Backs the guest's memory by the file `mem_path`, read without its
    /// double quotes.
    pub fn add_mem_path(&mut self, mem_path: &str) -> (r: Result<(), ConfigError>)
        ensures
            r is Ok,
            final(self)@ == with_mem_path(old(self)@, without_char(mem_path@, '"')),
    {
        self.machine_config.mem_config.mem_path = Some(remove_char(mem_path, '"'));
        Ok(())
    }

    /// Has the guest's memory allocated up front.
    pub fn enable_mem_prealloc(&mut self)
        ensures
            final(self)@ == with_prealloc(old(self)@),
    {
        self.machine_config.mem_config.mem_prealloc = true;
    }

    /// Adds the memory zone that the option `mem_zone` describes, and
    /// returns it.
    pub fn add_mem_zone(&mut self, mem_zone: &str) -> (r: Result<MemZoneConfig, ConfigError>)
        ensures
            match r {
                Ok(zone) => zone_option(mem_zone@) == Ok::<ZoneModel, ErrorModel>(zone@)
                    && final(self)@ == with_zone(old(self)@, zone@),
                Err(e) => zone_option(mem_zone@) == Err::<ZoneModel, ErrorModel>(e@)
                    && final(self)@ == old(self)@,
            },
    {
        let parser = CmdParser::new("mem_zone").push("").push("id").push("size").push(
            "host-nodes",
        ).push("policy");
        let parser = parser.parse(mem_zone)?;
        let zone_config: MemZoneConfig = read_zone(&parser)?;
        let stored: MemZoneConfig = copy_zone(&zone_config);
        let ghost before = self.machine_config.mem_config.mem_zones;
        match &mut self.machine_config.mem_config.mem_zones {
            Some(zones) => {
                zones.push(stored);
            },
            None => {
                let mut zones: Vec<MemZoneConfig> = Vec::new();
                zones.push(stored);
                self.machine_config.mem_config.mem_zones = Some(zones);
            },
        }
        proof {
            let after = self.machine_config.mem_config.mem_zones;
            match before {
                Some(z) => {
                    assert(zones_view(after->0@) =~= zones_view(z@).push(zone_config@));
                },
                None => {
                    assert(zones_view(after->0@) =~= seq![zone_config@]);
                },
            }
        }
        Ok(zone_config)
    }
}

} // verus!
