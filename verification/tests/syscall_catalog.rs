use vmm_machine::bpf;
use vmm_machine::bpf::{SeccompData, SeccompOpt, SECCOMP_RET_ALLOW, SECCOMP_RET_TRAP};
use vmm_machine::startup::{after_install, machine_filter, InstallEvent, ThreadStart};
use vmm_machine::compiler::{Policy, BPF_MAXINSNS};
use vmm_machine::ioctls;
use vmm_machine::syscall;
use vmm_machine::syscall::{
    fcntl_rule, futex_rule, ioctl_allow_list, madvise_rule, rule_with_values, syscall_whitelist,
    AbiVariant,
};

fn call(nr: i64, args: [u64; 6]) -> SeccompData {
    SeccompData { nr: nr as u32, arch: 0xc000_003e, instruction_pointer: 0, args }
}

#[test]
fn whitelist_has_61_rules_for_gnu_and_60_for_musl() {
    assert_eq!(syscall_whitelist(AbiVariant::Gnu).len(), 61);
    assert_eq!(syscall_whitelist(AbiVariant::Musl).len(), 60);
}

#[test]
fn whitelist_begins_with_the_most_frequent_calls() {
    for variant in [AbiVariant::Gnu, AbiVariant::Musl] {
        let rules = syscall_whitelist(variant);
        assert_eq!(rules[0].syscall() as i64, libc::SYS_read);
        assert_eq!(rules[1].syscall() as i64, libc::SYS_readv);
        assert_eq!(rules[2].syscall() as i64, libc::SYS_write);
        assert_eq!(rules[3].syscall() as i64, libc::SYS_writev);
        assert_eq!(rules[4].syscall() as i64, libc::SYS_ioctl);
        assert_eq!(rules[4].groups().len(), 1);
        assert_eq!(rules[4].groups()[0].index(), 1);
        assert_eq!(rules[4].groups()[0].values().len(), 71);
    }
    assert_eq!(syscall_whitelist(AbiVariant::Gnu)[5].syscall() as i64, libc::SYS_epoll_wait);
    assert_eq!(syscall_whitelist(AbiVariant::Musl)[5].syscall() as i64, libc::SYS_epoll_pwait);
    assert_eq!(syscall_whitelist(AbiVariant::Musl)[6].syscall() as i64, libc::SYS_epoll_wait);
    assert_eq!(
        syscall_whitelist(AbiVariant::Gnu)[60].syscall() as i64,
        libc::SYS_sched_getaffinity
    );
    assert_eq!(syscall_whitelist(AbiVariant::Musl)[59].syscall() as i64, libc::SYS_setsockopt);
}

#[test]
fn whitelist_compiles_within_the_kernel_limit() {
    let gnu = Policy::new(syscall_whitelist(AbiVariant::Gnu)).unwrap();
    let program = gnu.compile(SeccompOpt::Trap, BPF_MAXINSNS).unwrap();
    // 57 plain rules, ioctl with 71 requests, fcntl with 4 commands, futex
    // with 6 operations, madvise with 3 kinds of advice.
    assert_eq!(program.len(), 3 + 57 * 2 + (5 + 2 * 71) + (5 + 2 * 4) + (5 + 2 * 6) + (5 + 2 * 3));
    let musl = Policy::new(syscall_whitelist(AbiVariant::Musl)).unwrap();
    let program = musl.compile(SeccompOpt::Trap, BPF_MAXINSNS).unwrap();
    assert_eq!(program.len(), 3 + 56 * 2 + (5 + 2 * 71) + (5 + 2 * 4) + (5 + 2 * 5) + (5 + 2 * 4));
}

#[test]
fn whitelist_decides_calls_as_listed() {
    let gnu = Policy::new(syscall_whitelist(AbiVariant::Gnu))
        .unwrap()
        .compile(SeccompOpt::Trap, BPF_MAXINSNS)
        .unwrap();
    let musl = Policy::new(syscall_whitelist(AbiVariant::Musl))
        .unwrap()
        .compile(SeccompOpt::Trap, BPF_MAXINSNS)
        .unwrap();
    for program in [&gnu, &musl] {
        assert!(program.allows(&call(libc::SYS_read, [7; 6])));
        assert!(program.allows(&call(libc::SYS_prctl, [7; 6])));
        assert!(program.allows(&call(libc::SYS_setsockopt, [7; 6])));
        assert!(program.allows(&call(libc::SYS_ioctl, [3, ioctls::KVM_RUN as u64, 0, 0, 0, 0])));
        assert!(program.allows(&call(
            libc::SYS_ioctl,
            [3, ioctls::KVM_GET_DIRTY_LOG as u64, 0, 0, 0, 0]
        )));
        assert!(program.allows(&call(libc::SYS_ioctl, [3, libc::TCGETS as u64, 0, 0, 0, 0])));
        // KVM_CREATE_VM is not on the list.
        assert!(!program.allows(&call(libc::SYS_ioctl, [3, 0xae01, 0, 0, 0, 0])));
        assert!(program.allows(&call(libc::SYS_fcntl, [3, libc::F_SETFL as u64, 0, 0, 0, 0])));
        assert!(program.allows(&call(
            libc::SYS_fcntl,
            [3, libc::F_DUPFD_CLOEXEC as u64, 0, 0, 0, 0]
        )));
        assert!(!program.allows(&call(libc::SYS_fcntl, [3, libc::F_SETLK as u64, 0, 0, 0, 0])));
        assert!(program.allows(&call(
            libc::SYS_madvise,
            [0, 0, libc::MADV_DONTNEED as u64, 0, 0, 0]
        )));
        assert!(!program.allows(&call(
            libc::SYS_madvise,
            [0, 0, libc::MADV_HUGEPAGE as u64, 0, 0, 0]
        )));
        assert!(program.allows(&call(
            libc::SYS_futex,
            [0, (libc::FUTEX_WAKE | libc::FUTEX_PRIVATE_FLAG) as u64, 0, 0, 0, 0]
        )));
        assert!(!program.allows(&call(libc::SYS_futex, [0, libc::FUTEX_WAKE as u64, 0, 0, 0, 0])));
        assert_eq!(program.evaluate(&call(libc::SYS_execve, [0; 6])), Some(SECCOMP_RET_TRAP));
        assert_eq!(program.evaluate(&call(libc::SYS_ptrace, [0; 6])), Some(SECCOMP_RET_TRAP));
        assert_eq!(program.evaluate(&call(libc::SYS_close, [0; 6])), Some(SECCOMP_RET_ALLOW));
    }
    let free = call(libc::SYS_madvise, [0, 0, libc::MADV_FREE as u64, 0, 0, 0]);
    assert!(!gnu.allows(&free));
    assert!(musl.allows(&free));
    let realtime = (libc::FUTEX_WAIT_BITSET | libc::FUTEX_PRIVATE_FLAG | libc::FUTEX_CLOCK_REALTIME)
        as u64;
    assert!(gnu.allows(&call(libc::SYS_futex, [0, realtime, 0, 0, 0, 0])));
    assert!(!musl.allows(&call(libc::SYS_futex, [0, realtime, 0, 0, 0, 0])));
    for (nr, in_gnu, in_musl) in [
        (libc::SYS_tgkill, true, false),
        (libc::SYS_tkill, false, true),
        (libc::SYS_stat, false, true),
        (libc::SYS_clone, false, true),
        (libc::SYS_clone3, true, false),
        (libc::SYS_epoll_pwait, false, true),
        (libc::SYS_rt_sigaction, true, false),
        (libc::SYS_set_robust_list, true, false),
        (libc::SYS_sched_getaffinity, true, false),
    ] {
        assert_eq!(gnu.allows(&call(nr, [0; 6])), in_gnu);
        assert_eq!(musl.allows(&call(nr, [0; 6])), in_musl);
    }
}

#[test]
fn constrained_rules_list_their_values_in_order() {
    let rule = ioctl_allow_list();
    assert_eq!(rule.syscall(), 16);
    assert_eq!(rule.groups()[0].values().as_slice(), &syscall::IOCTL_REQUESTS[..]);
    assert_eq!(rule.groups()[0].values()[0], 0x5401);
    assert_eq!(rule.groups()[0].values()[70], ioctls::KVM_GET_DIRTY_LOG);
    let rule = fcntl_rule();
    assert_eq!(rule.syscall(), 72);
    assert_eq!(rule.groups()[0].index(), 1);
    assert_eq!(rule.groups()[0].values(), &vec![1030, 2, 1, 4]);
    let rule = futex_rule(AbiVariant::Gnu);
    assert_eq!(rule.syscall(), 202);
    assert_eq!(rule.groups()[0].index(), 1);
    assert_eq!(rule.groups()[0].values(), &vec![393, 129, 128, 132, 133, 137]);
    let rule = futex_rule(AbiVariant::Musl);
    assert_eq!(rule.groups()[0].values(), &vec![129, 128, 132, 133, 137]);
    let rule = madvise_rule(AbiVariant::Gnu);
    assert_eq!(rule.syscall(), 28);
    assert_eq!(rule.groups()[0].index(), 2);
    assert_eq!(rule.groups()[0].values(), &vec![4, 3, 16]);
    let rule = madvise_rule(AbiVariant::Musl);
    assert_eq!(rule.groups()[0].values(), &vec![8, 4, 3, 16]);
    let rule = rule_with_values(9, 3, &[]);
    assert_eq!(rule.syscall(), 9);
    assert!(rule.groups().is_empty());
    let rule = rule_with_values(9, 3, &[5, 5, 6]);
    assert_eq!(rule.groups().len(), 1);
    assert_eq!(rule.groups()[0].values(), &vec![5, 5, 6]);
}

#[test]
fn system_call_numbers_are_those_of_the_c_library() {
    let pairs = [
        (syscall::SYS_READ, libc::SYS_read),
        (syscall::SYS_READV, libc::SYS_readv),
        (syscall::SYS_WRITE, libc::SYS_write),
        (syscall::SYS_WRITEV, libc::SYS_writev),
        (syscall::SYS_IOCTL, libc::SYS_ioctl),
        (syscall::SYS_EPOLL_PWAIT, libc::SYS_epoll_pwait),
        (syscall::SYS_EPOLL_WAIT, libc::SYS_epoll_wait),
        (syscall::SYS_IO_GETEVENTS, libc::SYS_io_getevents),
        (syscall::SYS_IO_SUBMIT, libc::SYS_io_submit),
        (syscall::SYS_DUP, libc::SYS_dup),
        (syscall::SYS_CLOSE, libc::SYS_close),
        (syscall::SYS_EVENTFD2, libc::SYS_eventfd2),
        (syscall::SYS_EPOLL_CTL, libc::SYS_epoll_ctl),
        (syscall::SYS_FDATASYNC, libc::SYS_fdatasync),
        (syscall::SYS_RECVMSG, libc::SYS_recvmsg),
        (syscall::SYS_SENDMSG, libc::SYS_sendmsg),
        (syscall::SYS_RECVFROM, libc::SYS_recvfrom),
        (syscall::SYS_MREMAP, libc::SYS_mremap),
        (syscall::SYS_IO_SETUP, libc::SYS_io_setup),
        (syscall::SYS_BRK, libc::SYS_brk),
        (syscall::SYS_FCNTL, libc::SYS_fcntl),
        (syscall::SYS_RT_SIGPROCMASK, libc::SYS_rt_sigprocmask),
        (syscall::SYS_OPEN, libc::SYS_open),
        (syscall::SYS_OPENAT, libc::SYS_openat),
        (syscall::SYS_SIGALTSTACK, libc::SYS_sigaltstack),
        (syscall::SYS_MMAP, libc::SYS_mmap),
        (syscall::SYS_MPROTECT, libc::SYS_mprotect),
        (syscall::SYS_MUNMAP, libc::SYS_munmap),
        (syscall::SYS_ACCEPT4, libc::SYS_accept4),
        (syscall::SYS_LSEEK, libc::SYS_lseek),
        (syscall::SYS_FUTEX, libc::SYS_futex),
        (syscall::SYS_EXIT, libc::SYS_exit),
        (syscall::SYS_EXIT_GROUP, libc::SYS_exit_group),
        (syscall::SYS_RT_SIGRETURN, libc::SYS_rt_sigreturn),
        (syscall::SYS_TKILL, libc::SYS_tkill),
        (syscall::SYS_STAT, libc::SYS_stat),
        (syscall::SYS_TGKILL, libc::SYS_tgkill),
        (syscall::SYS_GETTID, libc::SYS_gettid),
        (syscall::SYS_GETPID, libc::SYS_getpid),
        (syscall::SYS_FSTAT, libc::SYS_fstat),
        (syscall::SYS_NEWFSTATAT, libc::SYS_newfstatat),
        (syscall::SYS_PREAD64, libc::SYS_pread64),
        (syscall::SYS_PWRITE64, libc::SYS_pwrite64),
        (syscall::SYS_STATX, libc::SYS_statx),
        (syscall::SYS_MKDIR, libc::SYS_mkdir),
        (syscall::SYS_UNLINK, libc::SYS_unlink),
        (syscall::SYS_MADVISE, libc::SYS_madvise),
        (syscall::SYS_MSYNC, libc::SYS_msync),
        (syscall::SYS_READLINKAT, libc::SYS_readlinkat),
        (syscall::SYS_READLINK, libc::SYS_readlink),
        (syscall::SYS_SOCKET, libc::SYS_socket),
        (syscall::SYS_CONNECT, libc::SYS_connect),
        (syscall::SYS_GETCWD, libc::SYS_getcwd),
        (syscall::SYS_CLONE, libc::SYS_clone),
        (syscall::SYS_CLONE3, libc::SYS_clone3),
        (syscall::SYS_PRCTL, libc::SYS_prctl),
        (syscall::SYS_SENDTO, libc::SYS_sendto),
        (syscall::SYS_GETSOCKNAME, libc::SYS_getsockname),
        (syscall::SYS_GETPEERNAME, libc::SYS_getpeername),
        (syscall::SYS_SHUTDOWN, libc::SYS_shutdown),
        (syscall::SYS_GETRANDOM, libc::SYS_getrandom),
        (syscall::SYS_SETSOCKOPT, libc::SYS_setsockopt),
        (syscall::SYS_RT_SIGACTION, libc::SYS_rt_sigaction),
        (syscall::SYS_SET_ROBUST_LIST, libc::SYS_set_robust_list),
        (syscall::SYS_SCHED_GETAFFINITY, libc::SYS_sched_getaffinity),
    ];
    assert_eq!(pairs.len(), 65);
    for (ours, theirs) in pairs {
        assert_eq!(ours, theirs as i64);
    }
}

#[test]
fn argument_values_are_those_of_the_c_library() {
    assert_eq!(syscall::MADV_WILLNEED, libc::MADV_WILLNEED as u32);
    assert_eq!(syscall::MADV_DONTNEED, libc::MADV_DONTNEED as u32);
    assert_eq!(syscall::MADV_FREE, libc::MADV_FREE as u32);
    assert_eq!(syscall::MADV_DONTDUMP, libc::MADV_DONTDUMP as u32);
    assert_eq!(syscall::F_GETFD, libc::F_GETFD as u32);
    assert_eq!(syscall::F_SETFD, libc::F_SETFD as u32);
    assert_eq!(syscall::F_SETFL, libc::F_SETFL as u32);
    assert_eq!(syscall::F_DUPFD_CLOEXEC, libc::F_DUPFD_CLOEXEC as u32);
    assert_eq!(syscall::FUTEX_WAIT, libc::FUTEX_WAIT as u32);
    assert_eq!(syscall::FUTEX_WAKE, libc::FUTEX_WAKE as u32);
    assert_eq!(syscall::FUTEX_CMP_REQUEUE, libc::FUTEX_CMP_REQUEUE as u32);
    assert_eq!(syscall::FUTEX_WAKE_OP, libc::FUTEX_WAKE_OP as u32);
    assert_eq!(syscall::FUTEX_WAIT_BITSET, libc::FUTEX_WAIT_BITSET as u32);
    assert_eq!(syscall::FUTEX_PRIVATE_FLAG, libc::FUTEX_PRIVATE_FLAG as u32);
    assert_eq!(syscall::FUTEX_CLOCK_REALTIME, libc::FUTEX_CLOCK_REALTIME as u32);
    assert_eq!(ioctls::TCGETS, libc::TCGETS as u32);
    assert_eq!(ioctls::TCSETS, libc::TCSETS as u32);
    assert_eq!(ioctls::TIOCGWINSZ, libc::TIOCGWINSZ as u32);
    assert_eq!(ioctls::FIOCLEX, libc::FIOCLEX as u32);
    assert_eq!(ioctls::FIONBIO, libc::FIONBIO as u32);
    assert_eq!(ioctls::TUNSETIFF, libc::TUNSETIFF as u32);
    assert_eq!(ioctls::TUNGETFEATURES, libc::TUNGETFEATURES as u32);
    assert_eq!(ioctls::TUNSETOFFLOAD, libc::TUNSETOFFLOAD as u32);
    assert_eq!(ioctls::TUNSETVNETHDRSZ, libc::TUNSETVNETHDRSZ as u32);
}

fn ioc(dir: u32, kind: u32, nr: u32, size: u32) -> u32 {
    (dir << 30) | (size << 16) | (kind << 8) | nr
}

#[test]
fn request_codes_encode_direction_size_type_and_number() {
    let (none, write, read, both) = (0u32, 1u32, 2u32, 3u32);
    let kvm = 0xae;
    assert_eq!(ioctls::KVM_GET_API_VERSION, ioc(none, kvm, 0x00, 0));
    assert_eq!(ioctls::KVM_RUN, ioc(none, kvm, 0x80, 0));
    assert_eq!(ioctls::KVM_SET_DEVICE_ATTR, ioc(write, kvm, 0xe1, 24));
    assert_eq!(ioctls::KVM_SET_USER_MEMORY_REGION, ioc(write, kvm, 0x46, 32));
    assert_eq!(ioctls::KVM_IOEVENTFD, ioc(write, kvm, 0x79, 64));
    assert_eq!(ioctls::KVM_SIGNAL_MSI, ioc(write, kvm, 0xa5, 32));
    assert_eq!(ioctls::KVM_SET_GSI_ROUTING, ioc(write, kvm, 0x6a, 8));
    assert_eq!(ioctls::KVM_IRQFD, ioc(write, kvm, 0x76, 32));
    assert_eq!(ioctls::KVM_CREATE_DEVICE, ioc(both, kvm, 0xe0, 12));
    assert_eq!(ioctls::KVM_GET_MP_STATE, ioc(read, kvm, 0x98, 4));
    assert_eq!(ioctls::KVM_SET_MP_STATE, ioc(write, kvm, 0x99, 4));
    assert_eq!(ioctls::KVM_GET_VCPU_EVENTS, ioc(read, kvm, 0x9f, 64));
    assert_eq!(ioctls::KVM_SET_VCPU_EVENTS, ioc(write, kvm, 0xa0, 64));
    assert_eq!(ioctls::KVM_GET_PIT2, ioc(read, kvm, 0x9f, 112));
    assert_eq!(ioctls::KVM_GET_CLOCK, ioc(read, kvm, 0x7c, 48));
    assert_eq!(ioctls::KVM_GET_IRQCHIP, ioc(both, kvm, 0x62, 520));
    assert_eq!(ioctls::KVM_GET_REGS, ioc(read, kvm, 0x81, 144));
    assert_eq!(ioctls::KVM_SET_REGS, ioc(write, kvm, 0x82, 144));
    assert_eq!(ioctls::KVM_GET_SREGS, ioc(read, kvm, 0x83, 312));
    assert_eq!(ioctls::KVM_SET_SREGS, ioc(write, kvm, 0x84, 312));
    assert_eq!(ioctls::KVM_GET_XSAVE, ioc(read, kvm, 0xa4, 4096));
    assert_eq!(ioctls::KVM_SET_XSAVE, ioc(write, kvm, 0xa5, 4096));
    assert_eq!(ioctls::KVM_GET_XCRS, ioc(read, kvm, 0xa6, 392));
    assert_eq!(ioctls::KVM_SET_XCRS, ioc(write, kvm, 0xa7, 392));
    assert_eq!(ioctls::KVM_GET_DEBUGREGS, ioc(read, kvm, 0xa1, 128));
    assert_eq!(ioctls::KVM_SET_DEBUGREGS, ioc(write, kvm, 0xa2, 128));
    assert_eq!(ioctls::KVM_GET_LAPIC, ioc(read, kvm, 0x8e, 1024));
    assert_eq!(ioctls::KVM_SET_LAPIC, ioc(write, kvm, 0x8f, 1024));
    assert_eq!(ioctls::KVM_GET_MSRS, ioc(both, kvm, 0x88, 8));
    assert_eq!(ioctls::KVM_SET_MSRS, ioc(write, kvm, 0x89, 8));
    assert_eq!(ioctls::KVM_GET_SUPPORTED_CPUID, ioc(both, kvm, 0x05, 8));
    assert_eq!(ioctls::KVM_SET_CPUID2, ioc(write, kvm, 0x90, 8));
    assert_eq!(ioctls::KVM_GET_DIRTY_LOG, ioc(write, kvm, 0x42, 16));
    let vhost = 0xaf;
    assert_eq!(ioctls::VHOST_GET_FEATURES, ioc(read, vhost, 0x00, 8));
    assert_eq!(ioctls::VHOST_SET_FEATURES, ioc(write, vhost, 0x00, 8));
    assert_eq!(ioctls::VHOST_SET_OWNER, ioc(none, vhost, 0x01, 0));
    assert_eq!(ioctls::VHOST_RESET_OWNER, ioc(none, vhost, 0x02, 0));
    assert_eq!(ioctls::VHOST_SET_MEM_TABLE, ioc(write, vhost, 0x03, 8));
    assert_eq!(ioctls::VHOST_SET_VRING_NUM, ioc(write, vhost, 0x10, 8));
    assert_eq!(ioctls::VHOST_SET_VRING_ADDR, ioc(write, vhost, 0x11, 40));
    assert_eq!(ioctls::VHOST_SET_VRING_BASE, ioc(write, vhost, 0x12, 8));
    assert_eq!(ioctls::VHOST_GET_VRING_BASE, ioc(both, vhost, 0x12, 8));
    assert_eq!(ioctls::VHOST_SET_VRING_KICK, ioc(write, vhost, 0x20, 8));
    assert_eq!(ioctls::VHOST_SET_VRING_CALL, ioc(write, vhost, 0x21, 8));
    assert_eq!(ioctls::VHOST_NET_SET_BACKEND, ioc(write, vhost, 0x30, 8));
    assert_eq!(ioctls::VHOST_VSOCK_SET_GUEST_CID, ioc(write, vhost, 0x60, 8));
    assert_eq!(ioctls::VHOST_VSOCK_SET_RUNNING, ioc(write, vhost, 0x61, 4));
    let vfio = 0x3b;
    assert_eq!(ioctls::VFIO_GET_API_VERSION, ioc(none, vfio, 100, 0));
    assert_eq!(ioctls::VFIO_CHECK_EXTENSION, ioc(none, vfio, 101, 0));
    assert_eq!(ioctls::VFIO_SET_IOMMU, ioc(none, vfio, 102, 0));
    assert_eq!(ioctls::VFIO_GROUP_GET_STATUS, ioc(none, vfio, 103, 0));
    assert_eq!(ioctls::VFIO_GROUP_SET_CONTAINER, ioc(none, vfio, 104, 0));
    assert_eq!(ioctls::VFIO_GROUP_GET_DEVICE_FD, ioc(none, vfio, 106, 0));
    assert_eq!(ioctls::VFIO_DEVICE_GET_INFO, ioc(none, vfio, 107, 0));
    assert_eq!(ioctls::VFIO_DEVICE_GET_REGION_INFO, ioc(none, vfio, 108, 0));
    assert_eq!(ioctls::VFIO_DEVICE_GET_IRQ_INFO, ioc(none, vfio, 109, 0));
    assert_eq!(ioctls::VFIO_DEVICE_SET_IRQS, ioc(none, vfio, 110, 0));
    assert_eq!(ioctls::VFIO_DEVICE_RESET, ioc(none, vfio, 111, 0));
    assert_eq!(ioctls::VFIO_IOMMU_MAP_DMA, ioc(none, vfio, 113, 0));
    assert_eq!(ioctls::VFIO_IOMMU_UNMAP_DMA, ioc(none, vfio, 114, 0));
}

#[test]
fn machine_filter_is_the_compiled_whitelist() {
    for variant in [AbiVariant::Gnu, AbiVariant::Musl] {
        for deny in [SeccompOpt::Kill, SeccompOpt::Trap] {
            let filter = machine_filter(variant, deny);
            let compiled = Policy::new(syscall_whitelist(variant))
                .unwrap()
                .compile(deny, BPF_MAXINSNS)
                .unwrap();
            assert_eq!(filter.instructions(), compiled.instructions());
            assert_eq!(filter.ceiling(), 4096);
            assert_eq!(filter.evaluate(&call(libc::SYS_prctl, [0; 6])), Some(SECCOMP_RET_ALLOW));
            assert_eq!(filter.evaluate(&call(libc::SYS_execve, [0; 6])), Some(deny.code()));
        }
    }
}

#[test]
fn thread_start_follows_the_kernel_answer() {
    assert_eq!(after_install(InstallEvent::Installed, false), ThreadStart::Guarded);
    assert_eq!(after_install(InstallEvent::Installed, true), ThreadStart::Guarded);
    assert_eq!(after_install(InstallEvent::Rejected(13), false), ThreadStart::Abort(13));
    assert_eq!(after_install(InstallEvent::Rejected(13), true), ThreadStart::Unguarded);
}

#[test]
fn filter_constants_are_those_of_the_c_library() {
    assert_eq!(bpf::BPF_LD_W_ABS as u32, libc::BPF_LD | libc::BPF_W | libc::BPF_ABS);
    assert_eq!(bpf::BPF_JMP_JEQ_K as u32, libc::BPF_JMP | libc::BPF_JEQ | libc::BPF_K);
    assert_eq!(bpf::BPF_JMP_JA as u32, libc::BPF_JMP | libc::BPF_JA);
    assert_eq!(bpf::BPF_RET_K as u32, libc::BPF_RET | libc::BPF_K);
    assert_eq!(bpf::SECCOMP_RET_ALLOW, libc::SECCOMP_RET_ALLOW);
    assert_eq!(bpf::SECCOMP_RET_KILL, libc::SECCOMP_RET_KILL);
    assert_eq!(bpf::SECCOMP_RET_TRAP, libc::SECCOMP_RET_TRAP);
    assert_eq!(BPF_MAXINSNS as i32, libc::BPF_MAXINSNS);
    assert_eq!(bpf::SECCOMP_DATA_SIZE as usize, std::mem::size_of::<libc::seccomp_data>());
    assert_eq!(std::mem::size_of::<bpf::SockFilter>(), std::mem::size_of::<libc::sock_filter>());
}
