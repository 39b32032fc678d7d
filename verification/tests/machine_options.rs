use vmm_machine::errors::ConfigError;
use vmm_machine::machine_config::{
    get_inner, memory_unit_conversion, HostMemPolicy, MachineConfig, MachineMemConfig,
    MachineType, MemZoneConfig, VmConfig, MAX_MEMSIZE, MAX_NR_CPUS, MIN_MEMSIZE, MIN_NR_CPUS,
};

#[test]
fn test_health_check() {
    let memory_config = MachineMemConfig {
        mem_size: MIN_MEMSIZE,
        mem_path: None,
        mem_share: false,
        dump_guest_core: false,
        mem_prealloc: false,
        mem_zones: None,
    };
    let mut machine_config = MachineConfig {
        mach_type: MachineType::MicroVm,
        nr_cpus: MIN_NR_CPUS as u8,
        mem_config: memory_config,
    };
    assert!(machine_config.check().is_ok());

    machine_config.nr_cpus = MAX_NR_CPUS as u8;
    machine_config.mem_config.mem_size = MAX_MEMSIZE;
    assert!(machine_config.check().is_ok());

    machine_config.nr_cpus = MIN_NR_CPUS as u8;
    machine_config.mem_config.mem_size = MIN_MEMSIZE - 1;
    assert!(!machine_config.check().is_ok());
    machine_config.mem_config.mem_size = MAX_MEMSIZE + 1;
    assert!(!machine_config.check().is_ok());
    machine_config.mem_config.mem_size = MIN_MEMSIZE;

    assert!(machine_config.check().is_ok());
}

#[test]
fn test_memory_unit_conversion() {
    let test_string = "6G";
    let ret = memory_unit_conversion(test_string);
    assert!(ret.is_ok());
    let ret = ret.unwrap();
    assert_eq!(ret, 6 * 1024 * 1024 * 1024);

    let test_string = "6g";
    let ret = memory_unit_conversion(test_string);
    assert!(ret.is_ok());
    let ret = ret.unwrap();
    assert_eq!(ret, 6 * 1024 * 1024 * 1024);

    let test_string = "6M";
    let ret = memory_unit_conversion(test_string);
    assert!(ret.is_ok());
    let ret = ret.unwrap();
    assert_eq!(ret, 6 * 1024 * 1024);

    let test_string = "6m";
    let ret = memory_unit_conversion(test_string);
    assert!(ret.is_ok());
    let ret = ret.unwrap();
    assert_eq!(ret, 6 * 1024 * 1024);

    // default unit is MiB
    let test_string = "6";
    let ret = memory_unit_conversion(test_string);
    assert!(ret.is_ok());
    let ret = ret.unwrap();
    assert_eq!(ret, 6 * 1024 * 1024);

    let test_string = "G6";
    let ret = memory_unit_conversion(test_string);
    assert!(ret.is_err());

    let test_string = "G6G";
    let ret = memory_unit_conversion(test_string);
    assert!(ret.is_err());

    let test_string = "6Gg";
    let ret = memory_unit_conversion(test_string);
    assert!(ret.is_err());

    let test_string = "6gG";
    let ret = memory_unit_conversion(test_string);
    assert!(ret.is_err());

    let test_string = "g6G";
    let ret = memory_unit_conversion(test_string);
    assert!(ret.is_err());

    let test_string = "G6g";
    let ret = memory_unit_conversion(test_string);
    assert!(ret.is_err());

    let test_string = "M6";
    let ret = memory_unit_conversion(test_string);
    assert!(ret.is_err());

    let test_string = "M6M";
    let ret = memory_unit_conversion(test_string);
    assert!(ret.is_err());

    let test_string = "6Mm";
    let ret = memory_unit_conversion(test_string);
    assert!(ret.is_err());

    let test_string = "6mM";
    let ret = memory_unit_conversion(test_string);
    assert!(ret.is_err());

    let test_string = "m6M";
    let ret = memory_unit_conversion(test_string);
    assert!(ret.is_err());

    let test_string = "M6m";
    let ret = memory_unit_conversion(test_string);
    assert!(ret.is_err());
}

#[test]
fn test_machine_type() {
    let test_string = "none";
    let machine_type = MachineType::from_str(test_string);
    assert!(machine_type.is_ok());
    let machine_type = machine_type.unwrap();
    assert_eq!(machine_type, MachineType::NoneVm);

    let test_string = "None";
    let machine_type = MachineType::from_str(test_string);
    assert!(machine_type.is_ok());
    let machine_type = machine_type.unwrap();
    assert_eq!(machine_type, MachineType::NoneVm);

    let test_string = "NONE";
    let machine_type = MachineType::from_str(test_string);
    assert!(machine_type.is_ok());
    let machine_type = machine_type.unwrap();
    assert_eq!(machine_type, MachineType::NoneVm);

    let test_string = "no";
    let machine_type = MachineType::from_str(test_string);
    assert!(machine_type.is_err());

    let test_string = "microvm";
    let machine_type = MachineType::from_str(test_string);
    assert!(machine_type.is_ok());
    let machine_type = machine_type.unwrap();
    assert_eq!(machine_type, MachineType::MicroVm);

    let test_string = "MICROVM";
    let machine_type = MachineType::from_str(test_string);
    assert!(machine_type.is_ok());
    let machine_type = machine_type.unwrap();
    assert_eq!(machine_type, MachineType::MicroVm);

    let test_string = "machine";
    let machine_type = MachineType::from_str(test_string);
    assert!(machine_type.is_err());

    let test_string = "q35";
    let machine_type = MachineType::from_str(test_string);
    assert!(machine_type.is_ok());
    let machine_type = machine_type.unwrap();
    assert_eq!(machine_type, MachineType::StandardVm);

    let test_string = "Q35";
    let machine_type = MachineType::from_str(test_string);
    assert!(machine_type.is_ok());
    let machine_type = machine_type.unwrap();
    assert_eq!(machine_type, MachineType::StandardVm);

    let test_string = "virt";
    let machine_type = MachineType::from_str(test_string);
    assert!(machine_type.is_err());
}

#[test]
fn test_add_memory() {
    let mut vm_config = VmConfig::default();
    let memory_cfg = "size=8";
    let mem_cfg_ret = vm_config.add_memory(memory_cfg);
    assert!(mem_cfg_ret.is_ok());
    let mem_size = vm_config.machine_config.mem_config.mem_size;
    assert_eq!(mem_size, 8 * 1024 * 1024);

    let memory_cfg = "size=8m";
    let mem_cfg_ret = vm_config.add_memory(memory_cfg);
    assert!(mem_cfg_ret.is_ok());
    let mem_size = vm_config.machine_config.mem_config.mem_size;
    assert_eq!(mem_size, 8 * 1024 * 1024);

    let memory_cfg = "size=8G";
    let mem_cfg_ret = vm_config.add_memory(memory_cfg);
    assert!(mem_cfg_ret.is_ok());
    let mem_size = vm_config.machine_config.mem_config.mem_size;
    assert_eq!(mem_size, 8 * 1024 * 1024 * 1024);
}

#[test]
fn test_add_machine() {
    let mut vm_config = VmConfig::default();
    let memory_cfg_str = "type=none,dump-guest-core=on,mem-share=on,accel=kvm,usb=off";
    let machine_cfg_ret = vm_config.add_machine(memory_cfg_str);
    assert!(machine_cfg_ret.is_ok());
    let machine_cfg = vm_config.machine_config;
    assert_eq!(machine_cfg.mach_type, MachineType::NoneVm);
    assert_eq!(machine_cfg.mem_config.dump_guest_core, true);
    assert_eq!(machine_cfg.mem_config.mem_share, true);

    let mut vm_config = VmConfig::default();
    let memory_cfg_str = "type=none,dump-guest-core=off,mem-share=off,accel=kvm,usb=off";
    let machine_cfg_ret = vm_config.add_machine(memory_cfg_str);
    assert!(machine_cfg_ret.is_ok());
    let machine_cfg = vm_config.machine_config;
    assert_eq!(machine_cfg.mach_type, MachineType::NoneVm);
    assert_eq!(machine_cfg.mem_config.dump_guest_core, false);
    assert_eq!(machine_cfg.mem_config.mem_share, false);

    let mut vm_config = VmConfig::default();
    let memory_cfg_str = "type=none,accel=kvm-tcg";
    let machine_cfg_ret = vm_config.add_machine(memory_cfg_str);
    assert!(machine_cfg_ret.is_err());

    let mut vm_config = VmConfig::default();
    let memory_cfg_str = "type=none,usb=on";
    let machine_cfg_ret = vm_config.add_machine(memory_cfg_str);
    assert!(machine_cfg_ret.is_err());
}

#[test]
fn test_add_mem_path() {
    let mut vm_config = VmConfig::default();
    let memory_path_str = "/path/to/memory-backend";
    let mem_path = vm_config.machine_config.mem_config.mem_path.clone();
    // defalut value is none.
    assert!(mem_path.is_none());
    let mem_cfg_ret = vm_config.add_mem_path(memory_path_str);
    assert!(mem_cfg_ret.is_ok());
    let mem_path = vm_config.machine_config.mem_config.mem_path;
    assert!(mem_path.is_some());
    let mem_path = mem_path.unwrap();
    assert_eq!(mem_path, memory_path_str);
}

#[test]
fn test_enable_memory_prealloc() {
    let mut vm_config = VmConfig::default();
    let mem_prealloc = vm_config.machine_config.mem_config.mem_prealloc;
    // default value is false.
    assert_eq!(mem_prealloc, false);
    vm_config.enable_mem_prealloc();
    let mem_prealloc = vm_config.machine_config.mem_config.mem_prealloc;
    assert_eq!(mem_prealloc, true);
}

#[test]
fn test_add_cpu() {
    let mut vm_config = VmConfig::default();
    let cpu_cfg_str = "cpus=8,sockets=8,cores=1,threads=1";
    let cpu_cfg_ret = vm_config.add_cpu(cpu_cfg_str);
    assert!(cpu_cfg_ret.is_ok());
    let nr_cpu = vm_config.machine_config.nr_cpus;
    assert_eq!(nr_cpu, 8);

    let mut vm_config = VmConfig::default();
    let cpu_cfg_str = "cpus=9,sockets=8,cores=1,threads=1";
    let cpu_cfg_ret = vm_config.add_cpu(cpu_cfg_str);
    assert!(cpu_cfg_ret.is_err());

    let mut vm_config = VmConfig::default();
    let cpu_cfg_str = "cpus=0,sockets=0,cores=1,threads=1";
    let cpu_cfg_ret = vm_config.add_cpu(cpu_cfg_str);
    assert!(cpu_cfg_ret.is_err());

    let mut vm_config = VmConfig::default();
    let cpu_cfg_str = "cpus=254,sockets=254,cores=1,threads=1";
    let cpu_cfg_ret = vm_config.add_cpu(cpu_cfg_str);
    assert!(cpu_cfg_ret.is_ok());
    let nr_cpu = vm_config.machine_config.nr_cpus;
    assert_eq!(nr_cpu, 254);

    let mut vm_config = VmConfig::default();
    let cpu_cfg_str = "cpus=255,sockets=255,cores=1,threads=1";
    let cpu_cfg_ret = vm_config.add_cpu(cpu_cfg_str);
    assert!(cpu_cfg_ret.is_err());

    // not supported yet
    let mut vm_config = VmConfig::default();
    let cpu_cfg_str = "cpus=8,sockets=4,cores=2,threads=1";
    let cpu_cfg_ret = vm_config.add_cpu(cpu_cfg_str);
    assert!(cpu_cfg_ret.is_err());

    // not supported yet
    let mut vm_config = VmConfig::default();
    let cpu_cfg_str = "cpus=8,sockets=2,cores=2,threads=2";
    let cpu_cfg_ret = vm_config.add_cpu(cpu_cfg_str);
    assert!(cpu_cfg_ret.is_err());

    // not supported yet
    let mut vm_config = VmConfig::default();
    let cpu_cfg_str = "cpus=8,sockets=1,cores=4,threads=2";
    let cpu_cfg_ret = vm_config.add_cpu(cpu_cfg_str);
    assert!(cpu_cfg_ret.is_err());

    // not supported yet
    let mut vm_config = VmConfig::default();
    let cpu_cfg_str = "cpus=8,sockets=1,cores=2,threads=4";
    let cpu_cfg_ret = vm_config.add_cpu(cpu_cfg_str);
    assert!(cpu_cfg_ret.is_err());
}

#[test]
fn test_add_mem_zone() {
    let mut vm_config = VmConfig::default();
    let zone_config_1 = vm_config
        .add_mem_zone("-object memory-backend-ram,size=2G,id=mem1,host-nodes=1,policy=bind")
        .unwrap();
    assert_eq!(zone_config_1.id, "mem1");
    assert_eq!(zone_config_1.size, 2147483648);
    assert_eq!(zone_config_1.host_numa_node, Some(1));
    assert_eq!(zone_config_1.policy, "bind");

    let zone_config_2 = vm_config
        .add_mem_zone("-object memory-backend-ram,size=2G,id=mem1")
        .unwrap();
    assert_eq!(zone_config_2.host_numa_node, None);
    assert_eq!(zone_config_2.policy, "bind");

    assert!(vm_config
        .add_mem_zone("-object memory-backend-ram,size=2G")
        .is_err());
    assert!(vm_config
        .add_mem_zone("-object memory-backend-ram,id=mem1")
        .is_err());
}

#[test]
fn test_host_mem_policy() {
    let policy = HostMemPolicy::from(String::from("default"));
    assert!(policy == HostMemPolicy::Default);

    let policy = HostMemPolicy::from(String::from("interleave"));
    assert!(policy == HostMemPolicy::Interleave);

    let policy = HostMemPolicy::from(String::from("error"));
    assert!(policy == HostMemPolicy::NotSupported);
}

fn text(s: &str) -> String {
    String::from(s)
}

#[test]
fn default_machine_is_micro_with_one_cpu_and_256_mib() {
    let vm_config = VmConfig::default();
    let machine = vm_config.machine_config;
    assert_eq!(machine.mach_type, MachineType::MicroVm);
    assert_eq!(machine.nr_cpus, 1);
    assert_eq!(machine.mem_config.mem_size, 268_435_456);
    assert_eq!(machine.mem_config.mem_path, None);
    assert!(machine.mem_config.dump_guest_core);
    assert!(!machine.mem_config.mem_share);
    assert!(!machine.mem_config.mem_prealloc);
    assert!(machine.mem_config.mem_zones.is_none());
    let zone = MemZoneConfig::default();
    assert_eq!(zone.id, "");
    assert_eq!(zone.size, 0);
    assert_eq!(zone.host_numa_node, None);
    assert_eq!(zone.policy, "bind");
}

#[test]
fn memory_size_accepts_plus_sign_and_leading_zeros() {
    assert_eq!(memory_unit_conversion("+6"), Ok(6 * 1024 * 1024));
    assert_eq!(memory_unit_conversion("0006M"), Ok(6 * 1024 * 1024));
    assert_eq!(memory_unit_conversion("0"), Ok(0));
    assert_eq!(memory_unit_conversion("0G"), Ok(0));
}

#[test]
fn memory_size_refuses_text_that_is_no_number() {
    let failed = |s: &str| Err(ConfigError::ConvertValueFailed(text(s), text("u64")));
    assert_eq!(memory_unit_conversion(""), failed(""));
    assert_eq!(memory_unit_conversion("+"), failed("+"));
    assert_eq!(memory_unit_conversion("-6"), failed("-6"));
    assert_eq!(memory_unit_conversion("6 "), failed("6 "));
    assert_eq!(memory_unit_conversion("M"), failed("M"));
    assert_eq!(memory_unit_conversion("6K"), failed("6K"));
    assert_eq!(memory_unit_conversion("6MG"), failed("6MG"));
    assert_eq!(memory_unit_conversion("6mm"), failed("6mm"));
    assert_eq!(
        memory_unit_conversion("18446744073709551616"),
        failed("18446744073709551616")
    );
}

#[test]
fn memory_size_reports_overflow() {
    let overflow = Err(ConfigError::IntegerOverflow(text("-m")));
    assert_eq!(memory_unit_conversion("17592186044416"), overflow);
    assert_eq!(memory_unit_conversion("17592186044415"), Ok(17592186044415 * 1024 * 1024));
    assert_eq!(memory_unit_conversion("17179869184G"), overflow);
    assert_eq!(memory_unit_conversion("17179869183g"), Ok(17179869183 * 1024 * 1024 * 1024));
    assert_eq!(memory_unit_conversion("18446744073709551615"), overflow);
}

#[test]
fn get_inner_passes_a_value_and_reports_overflow() {
    assert_eq!(get_inner(Some(7u64)), Ok(7u64));
    assert_eq!(get_inner(Some("x")), Ok("x"));
    assert_eq!(get_inner::<u64>(None), Err(ConfigError::IntegerOverflow(text("-m"))));
}

#[test]
fn machine_type_from_lowercase_is_exact() {
    assert_eq!(MachineType::from_lowercase("none"), Ok(MachineType::NoneVm));
    assert_eq!(MachineType::from_lowercase("microvm"), Ok(MachineType::MicroVm));
    assert_eq!(MachineType::from_lowercase("q35"), Ok(MachineType::StandardVm));
    assert_eq!(MachineType::from_lowercase("None"), Err(()));
    assert_eq!(MachineType::from_lowercase("Q35"), Err(()));
    assert_eq!(MachineType::from_lowercase(""), Err(()));
}

#[test]
fn machine_type_parses_like_any_text() {
    assert_eq!("q35".parse::<MachineType>(), Ok(MachineType::StandardVm));
    assert_eq!("MicroVM".parse::<MachineType>(), Ok(MachineType::MicroVm));
    assert_eq!("pc".parse::<MachineType>(), Err(()));
}

#[test]
fn host_mem_policy_names_and_codes() {
    assert_eq!(HostMemPolicy::from_lowercase("default"), HostMemPolicy::Default);
    assert_eq!(HostMemPolicy::from_lowercase("preferred"), HostMemPolicy::Preferred);
    assert_eq!(HostMemPolicy::from_lowercase("bind"), HostMemPolicy::Bind);
    assert_eq!(HostMemPolicy::from_lowercase("interleave"), HostMemPolicy::Interleave);
    assert_eq!(HostMemPolicy::from_lowercase("local"), HostMemPolicy::Local);
    assert_eq!(HostMemPolicy::from_lowercase("Bind"), HostMemPolicy::NotSupported);
    assert_eq!(HostMemPolicy::from(text("BIND")), HostMemPolicy::Bind);
    assert_eq!(HostMemPolicy::from(text("Local")), HostMemPolicy::Local);
    assert_eq!(HostMemPolicy::Default.code(), 0);
    assert_eq!(HostMemPolicy::Preferred.code(), 1);
    assert_eq!(HostMemPolicy::Bind.code(), 2);
    assert_eq!(HostMemPolicy::Interleave.code(), 3);
    assert_eq!(HostMemPolicy::Local.code(), 4);
    assert_eq!(HostMemPolicy::NotSupported.code(), 5);
}

#[test]
fn check_reports_the_size_out_of_range() {
    let mut machine = MachineConfig::default();
    assert_eq!(machine.check(), Ok(()));
    machine.mem_config.mem_size = MIN_MEMSIZE - 1;
    assert_eq!(machine.check(), Err(ConfigError::MemSizeOutOfRange(MIN_MEMSIZE - 1)));
    machine.mem_config.mem_size = MAX_MEMSIZE + 1;
    assert_eq!(machine.check(), Err(ConfigError::MemSizeOutOfRange(MAX_MEMSIZE + 1)));
}

#[test]
fn add_memory_takes_the_unnamed_size_first() {
    let mut vm_config = VmConfig::default();
    assert_eq!(vm_config.add_memory("512"), Ok(()));
    assert_eq!(vm_config.machine_config.mem_config.mem_size, 512 * 1024 * 1024);
    assert_eq!(vm_config.add_memory("1G,size=2G"), Ok(()));
    assert_eq!(vm_config.machine_config.mem_config.mem_size, 1024 * 1024 * 1024);
}

#[test]
fn add_memory_errors_leave_the_size() {
    let mut vm_config = VmConfig::default();
    // The first item without `=` is the unnamed value, and no number.
    assert_eq!(
        vm_config.add_memory("size"),
        Err(ConfigError::ConvertValueFailed(text("size"), text("u64")))
    );
    assert_eq!(
        vm_config.add_memory("size="),
        Err(ConfigError::InvalidParam(text("size="), text("m")))
    );
    assert_eq!(
        vm_config.add_memory("size=1,size=2"),
        Err(ConfigError::FieldRepeat(text("m"), text("size")))
    );
    assert_eq!(
        vm_config.add_memory("length=1"),
        Err(ConfigError::InvalidParam(text("length"), text("m")))
    );
    assert_eq!(
        vm_config.add_memory(",size=1"),
        Err(ConfigError::InvalidParam(text(",size=1"), text("m")))
    );
    assert_eq!(
        vm_config.add_memory("size=1,"),
        Err(ConfigError::InvalidParam(text("size=1,"), text("m")))
    );
    assert_eq!(
        vm_config.add_memory("=1"),
        Err(ConfigError::InvalidParam(text("=1"), text("m")))
    );
    assert_eq!(
        vm_config.add_memory("size=x"),
        Err(ConfigError::ConvertValueFailed(text("x"), text("u64")))
    );
    assert_eq!(
        vm_config.add_memory("size=17592186044416"),
        Err(ConfigError::IntegerOverflow(text("-m")))
    );
    assert_eq!(vm_config.machine_config.mem_config.mem_size, 268_435_456);
}

#[test]
fn add_memory_reads_items_without_equals_sign() {
    let mut vm_config = VmConfig::default();
    // A key without `=` behind the first item has the empty text as value.
    assert_eq!(vm_config.add_memory("1,size"), Ok(()));
    assert_eq!(vm_config.machine_config.mem_config.mem_size, 1024 * 1024);
    // An empty option is an empty unnamed value, which is no number.
    assert_eq!(
        vm_config.add_memory(""),
        Err(ConfigError::ConvertValueFailed(text(""), text("u64")))
    );
}

#[test]
fn add_mem_path_drops_double_quotes() {
    let mut vm_config = VmConfig::default();
    assert_eq!(vm_config.add_mem_path("\"/dev/shm/guest\""), Ok(()));
    assert_eq!(vm_config.machine_config.mem_config.mem_path, Some(text("/dev/shm/guest")));
    assert_eq!(vm_config.add_mem_path("a\"\"b\"c"), Ok(()));
    assert_eq!(vm_config.machine_config.mem_config.mem_path, Some(text("abc")));
    assert_eq!(vm_config.add_mem_path(""), Ok(()));
    assert_eq!(vm_config.machine_config.mem_config.mem_path, Some(text("")));
}

#[test]
fn add_cpu_reports_each_error() {
    let mut vm_config = VmConfig::default();
    assert_eq!(
        vm_config.add_cpu("sockets=1"),
        Err(ConfigError::FieldIsMissing(text("cpus"), text("smp")))
    );
    assert_eq!(vm_config.add_cpu("cpus=4,sockets=2"), Err(ConfigError::SocketsMismatch));
    assert_eq!(vm_config.add_cpu("cpus=4,cores=2"), Err(ConfigError::CoresUnsupported));
    assert_eq!(vm_config.add_cpu("cpus=4,threads=2"), Err(ConfigError::ThreadsUnsupported));
    assert_eq!(
        vm_config.add_cpu("cpus=255"),
        Err(ConfigError::IllegalValue(text("CPU number"), 1, true, 254, true))
    );
    assert_eq!(
        vm_config.add_cpu("0"),
        Err(ConfigError::IllegalValue(text("CPU number"), 1, true, 254, true))
    );
    assert_eq!(
        vm_config.add_cpu("four"),
        Err(ConfigError::ConvertValueFailed(text("smp"), text("four")))
    );
    assert_eq!(
        vm_config.add_cpu("cpus=4,sockets=x"),
        Err(ConfigError::ConvertValueFailed(text("sockets"), text("x")))
    );
    assert_eq!(vm_config.machine_config.nr_cpus, 1);
    assert_eq!(vm_config.add_cpu("4,cpus=8"), Ok(()));
    assert_eq!(vm_config.machine_config.nr_cpus, 4);
}

#[test]
fn add_machine_reports_each_error_and_keeps_what_took_effect() {
    let mut vm_config = VmConfig::default();
    assert_eq!(vm_config.add_machine("type=none,accel=kvm-tcg"), Err(ConfigError::UnsupportedAccel));
    assert_eq!(vm_config.machine_config.mach_type, MachineType::MicroVm);
    assert_eq!(vm_config.add_machine("type=none,usb=on"), Err(ConfigError::UsbEnabled));
    assert_eq!(vm_config.machine_config.mach_type, MachineType::MicroVm);
    assert_eq!(
        vm_config.add_machine("type=none,usb=maybe"),
        Err(ConfigError::ConvertValueFailed(text("usb"), text("maybe")))
    );
    assert_eq!(
        vm_config.add_machine("type=virt"),
        Err(ConfigError::UnrecognizedMachineType)
    );
    assert_eq!(vm_config.machine_config.mach_type, MachineType::MicroVm);
    assert_eq!(
        vm_config.add_machine("q35,type=virt"),
        Err(ConfigError::UnrecognizedMachineType)
    );
    assert_eq!(vm_config.machine_config.mach_type, MachineType::StandardVm);
    assert_eq!(
        vm_config.add_machine("type=none,dump-guest-core=off,mem-share=perhaps"),
        Err(ConfigError::ConvertValueFailed(text("mem-share"), text("perhaps")))
    );
    assert_eq!(vm_config.machine_config.mach_type, MachineType::NoneVm);
    assert_eq!(vm_config.machine_config.mem_config.dump_guest_core, false);
    assert_eq!(vm_config.machine_config.mem_config.mem_share, false);
    assert_eq!(vm_config.add_machine("microvm,accel=kvm:tcg,mem-share=yes,usb=no"), Ok(()));
    assert_eq!(vm_config.machine_config.mach_type, MachineType::MicroVm);
    assert_eq!(vm_config.machine_config.mem_config.mem_share, true);
    assert_eq!(vm_config.add_machine("Q35,type=MicroVM,accel=tcg"), Ok(()));
    assert_eq!(vm_config.machine_config.mach_type, MachineType::MicroVm);
}

#[test]
fn add_mem_zone_reports_each_error_and_appends_zones() {
    let mut vm_config = VmConfig::default();
    assert_eq!(
        vm_config.add_mem_zone("x,size=2G").err(),
        Some(ConfigError::FieldIsMissing(text("id"), text("memory-backend-ram")))
    );
    assert_eq!(
        vm_config.add_mem_zone("x,id=a").err(),
        Some(ConfigError::FieldIsMissing(text("size"), text("memory-backend-ram")))
    );
    let long = "i".repeat(256);
    assert_eq!(
        vm_config.add_mem_zone(&format!("x,id={},size=1", long)).err(),
        Some(ConfigError::StringLengthTooLong(text("id"), 255))
    );
    assert_eq!(
        vm_config.add_mem_zone("x,id=a,size=1,host-nodes=128").err(),
        Some(ConfigError::IllegalValue(text("host_nodes"), 0, true, 128, false))
    );
    assert_eq!(
        vm_config.add_mem_zone("x,id=a,size=1,host-nodes=4294967296").err(),
        Some(ConfigError::ConvertValueFailed(text("host-nodes"), text("4294967296")))
    );
    assert_eq!(
        vm_config.add_mem_zone("x,id=a,size=1,policy=strict").err(),
        Some(ConfigError::InvalidParam(text("policy"), text("strict")))
    );
    assert_eq!(
        vm_config.add_mem_zone("x,id=a,size=1q").err(),
        Some(ConfigError::ConvertValueFailed(text("1q"), text("u64")))
    );
    assert!(vm_config.machine_config.mem_config.mem_zones.is_none());

    let wide = "i".repeat(255);
    let first = vm_config.add_mem_zone(&format!("x,id={},size=1,host-nodes=127,policy=Local", wide)).unwrap();
    assert_eq!(first.id, wide);
    assert_eq!(first.size, 1024 * 1024);
    assert_eq!(first.host_numa_node, Some(127));
    assert_eq!(first.policy, "Local");
    let second = vm_config.add_mem_zone("x,size=3m,id=b").unwrap();
    let zones = vm_config.machine_config.mem_config.mem_zones.unwrap();
    assert_eq!(zones.len(), 2);
    assert_eq!(zones[0].id, wide);
    assert_eq!(zones[0].host_numa_node, Some(127));
    assert_eq!(zones[1].id, "b");
    assert_eq!(zones[1].size, second.size);
    assert_eq!(zones[1].size, 3 * 1024 * 1024);
    assert_eq!(zones[1].policy, "bind");
}
