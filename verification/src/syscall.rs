//! The allow-list of a machine thread on x86_64: which system calls it may
//! make, and with which requests where a call multiplexes many operations.
//!
//! The lists below are data. Each is in the order the calls are expected to
//! be made most often, since a filter tests its rules in order.

use vstd::prelude::*;
use crate::bpf::SeccompData;
use crate::rule::{
    BpfRule, SeccompCmpOpt, GroupModel, RuleModel, rules_view, syscall_word, policy_allows,
};
use crate::layout::{
    distinct_syscalls, policy_in_range, program_size, rule_size, rules_size, group_size,
    groups_size,
};
use crate::compiler::BPF_MAXINSNS;
use crate::ioctls::{
    TCGETS, TCSETS, TIOCGWINSZ, FIOCLEX, FIONBIO, KVM_RUN, KVM_SET_DEVICE_ATTR,
    KVM_SET_USER_MEMORY_REGION, KVM_IOEVENTFD, KVM_SIGNAL_MSI, VHOST_VSOCK_SET_GUEST_CID,
    VHOST_VSOCK_SET_RUNNING, VHOST_SET_VRING_CALL, VHOST_SET_VRING_NUM, VHOST_GET_VRING_BASE,
    VHOST_SET_VRING_ADDR, VHOST_SET_VRING_BASE, VHOST_SET_VRING_KICK, VHOST_SET_OWNER,
    VHOST_SET_FEATURES, VHOST_GET_FEATURES, VHOST_SET_MEM_TABLE, VHOST_NET_SET_BACKEND,
    VHOST_RESET_OWNER, TUNGETFEATURES, TUNSETIFF, TUNSETOFFLOAD, TUNSETVNETHDRSZ,
    KVM_SET_GSI_ROUTING, KVM_IRQFD, VFIO_DEVICE_SET_IRQS, VFIO_GROUP_GET_STATUS,
    VFIO_GET_API_VERSION, VFIO_CHECK_EXTENSION, VFIO_GROUP_SET_CONTAINER, VFIO_SET_IOMMU,
    KVM_CREATE_DEVICE, VFIO_IOMMU_MAP_DMA, VFIO_IOMMU_UNMAP_DMA, VFIO_GROUP_GET_DEVICE_FD,
    VFIO_DEVICE_GET_INFO, VFIO_DEVICE_RESET, VFIO_DEVICE_GET_REGION_INFO,
    VFIO_DEVICE_GET_IRQ_INFO, KVM_GET_API_VERSION, KVM_GET_MP_STATE, KVM_GET_VCPU_EVENTS,
    KVM_GET_PIT2, KVM_GET_CLOCK, KVM_GET_IRQCHIP, KVM_GET_REGS, KVM_GET_SREGS, KVM_GET_XSAVE,
    KVM_GET_DEBUGREGS, KVM_GET_XCRS, KVM_GET_LAPIC, KVM_GET_MSRS, KVM_GET_SUPPORTED_CPUID,
    KVM_SET_CPUID2, KVM_SET_MP_STATE, KVM_SET_SREGS, KVM_SET_REGS, KVM_SET_XSAVE, KVM_SET_XCRS,
    KVM_SET_DEBUGREGS, KVM_SET_LAPIC, KVM_SET_MSRS, KVM_SET_VCPU_EVENTS, KVM_GET_DIRTY_LOG,
};

verus! {

// System call numbers.
pub const SYS_READ: i64 = 0;

pub const SYS_READV: i64 = 19;

pub const SYS_WRITE: i64 = 1;

pub const SYS_WRITEV: i64 = 20;

pub const SYS_IOCTL: i64 = 16;

pub const SYS_EPOLL_PWAIT: i64 = 281;

pub const SYS_EPOLL_WAIT: i64 = 232;

pub const SYS_IO_GETEVENTS: i64 = 208;

pub const SYS_IO_SUBMIT: i64 = 209;

pub const SYS_DUP: i64 = 32;

pub const SYS_CLOSE: i64 = 3;

pub const SYS_EVENTFD2: i64 = 290;

pub const SYS_EPOLL_CTL: i64 = 233;

pub const SYS_FDATASYNC: i64 = 75;

pub const SYS_RECVMSG: i64 = 47;

pub const SYS_SENDMSG: i64 = 46;

pub const SYS_RECVFROM: i64 = 45;

pub const SYS_MREMAP: i64 = 25;

pub const SYS_IO_SETUP: i64 = 206;

pub const SYS_BRK: i64 = 12;

pub const SYS_FCNTL: i64 = 72;

pub const SYS_RT_SIGPROCMASK: i64 = 14;

pub const SYS_OPEN: i64 = 2;

pub const SYS_OPENAT: i64 = 257;

pub const SYS_SIGALTSTACK: i64 = 131;

pub const SYS_MMAP: i64 = 9;

pub const SYS_MPROTECT: i64 = 10;

pub const SYS_MUNMAP: i64 = 11;

pub const SYS_ACCEPT4: i64 = 288;

pub const SYS_LSEEK: i64 = 8;

pub const SYS_FUTEX: i64 = 202;

pub const SYS_EXIT: i64 = 60;

pub const SYS_EXIT_GROUP: i64 = 231;

pub const SYS_RT_SIGRETURN: i64 = 15;

pub const SYS_TKILL: i64 = 200;

pub const SYS_STAT: i64 = 4;

pub const SYS_TGKILL: i64 = 234;

pub const SYS_GETTID: i64 = 186;

pub const SYS_GETPID: i64 = 39;

pub const SYS_FSTAT: i64 = 5;

pub const SYS_NEWFSTATAT: i64 = 262;

pub const SYS_PREAD64: i64 = 17;

pub const SYS_PWRITE64: i64 = 18;

pub const SYS_STATX: i64 = 332;

pub const SYS_MKDIR: i64 = 83;

pub const SYS_UNLINK: i64 = 87;

pub const SYS_MADVISE: i64 = 28;

pub const SYS_MSYNC: i64 = 26;

pub const SYS_READLINKAT: i64 = 267;

pub const SYS_READLINK: i64 = 89;

pub const SYS_SOCKET: i64 = 41;

pub const SYS_CONNECT: i64 = 42;

pub const SYS_GETCWD: i64 = 79;

pub const SYS_CLONE: i64 = 56;

pub const SYS_CLONE3: i64 = 435;

pub const SYS_PRCTL: i64 = 157;

pub const SYS_SENDTO: i64 = 44;

pub const SYS_GETSOCKNAME: i64 = 51;

pub const SYS_GETPEERNAME: i64 = 52;

pub const SYS_SHUTDOWN: i64 = 48;

pub const SYS_GETRANDOM: i64 = 318;

pub const SYS_SETSOCKOPT: i64 = 54;

pub const SYS_RT_SIGACTION: i64 = 13;

pub const SYS_SET_ROBUST_LIST: i64 = 273;

pub const SYS_SCHED_GETAFFINITY: i64 = 204;

// Futex operations.
pub const FUTEX_WAIT: u32 = 0;

pub const FUTEX_WAKE: u32 = 1;

pub const FUTEX_CMP_REQUEUE: u32 = 4;

pub const FUTEX_WAKE_OP: u32 = 5;

pub const FUTEX_WAIT_BITSET: u32 = 9;

pub const FUTEX_PRIVATE_FLAG: u32 = 128;

pub const FUTEX_CLOCK_REALTIME: u32 = 256;

pub const FUTEX_WAIT_PRIVATE: u32 = FUTEX_WAIT | FUTEX_PRIVATE_FLAG;

pub const FUTEX_WAKE_PRIVATE: u32 = FUTEX_WAKE | FUTEX_PRIVATE_FLAG;

pub const FUTEX_CMP_REQUEUE_PRIVATE: u32 = FUTEX_CMP_REQUEUE | FUTEX_PRIVATE_FLAG;

pub const FUTEX_WAKE_OP_PRIVATE: u32 = FUTEX_WAKE_OP | FUTEX_PRIVATE_FLAG;

pub const FUTEX_WAIT_BITSET_PRIVATE: u32 = FUTEX_WAIT_BITSET | FUTEX_PRIVATE_FLAG;

pub const FUTEX_WAIT_BITSET_PRIVATE_REALTIME: u32 = FUTEX_WAIT_BITSET_PRIVATE
    | FUTEX_CLOCK_REALTIME;

// File control commands.
pub const F_GETFD: u32 = 1;

pub const F_SETFD: u32 = 2;

pub const F_SETFL: u32 = 4;

pub const F_LINUX_SPECIFIC_BASE: u32 = 1024;

pub const F_DUPFD_CLOEXEC: u32 = F_LINUX_SPECIFIC_BASE + 6;

// Memory advice.
pub const MADV_WILLNEED: u32 = 3;

pub const MADV_DONTNEED: u32 = 4;

pub const MADV_FREE: u32 = 8;

pub const MADV_DONTDUMP: u32 = 16;

/// Which argument of `ioctl` holds the request.
pub const IOCTL_REQUEST_ARG: u32 = 1;

/// Which argument of `fcntl` holds the command.
pub const FCNTL_COMMAND_ARG: u32 = 1;

/// Which argument of `futex` holds the operation.
pub const FUTEX_OP_ARG: u32 = 1;

/// Which argument of `madvise` holds the advice.
pub const MADVISE_ADVICE_ARG: u32 = 2;

/// The C library a machine is built against. The two differ in the calls
/// their run-time makes on the program's behalf.
#[derive(Clone, Copy, Debug, PartialEq, Eq, Structural)]
pub enum AbiVariant {
    /// The GNU C library.
    Gnu,
    /// The musl C library.
    Musl,
}

/// The `ioctl` requests a machine thread may make.
pub const IOCTL_REQUESTS: [u32; 71] = [
    TCGETS,
    TCSETS,
    TIOCGWINSZ,
    FIOCLEX,
    FIONBIO,
    KVM_RUN,
    KVM_SET_DEVICE_ATTR,
    KVM_SET_USER_MEMORY_REGION,
    KVM_IOEVENTFD,
    KVM_SIGNAL_MSI,
    VHOST_VSOCK_SET_GUEST_CID,
    VHOST_VSOCK_SET_RUNNING,
    VHOST_SET_VRING_CALL,
    VHOST_SET_VRING_NUM,
    VHOST_GET_VRING_BASE,
    VHOST_SET_VRING_ADDR,
    VHOST_SET_VRING_BASE,
    VHOST_SET_VRING_KICK,
    VHOST_SET_OWNER,
    VHOST_SET_FEATURES,
    VHOST_GET_FEATURES,
    VHOST_SET_MEM_TABLE,
    VHOST_NET_SET_BACKEND,
    VHOST_GET_FEATURES,
    VHOST_RESET_OWNER,
    TUNGETFEATURES,
    TUNSETIFF,
    TUNSETOFFLOAD,
    TUNSETVNETHDRSZ,
    KVM_SET_GSI_ROUTING,
    KVM_IRQFD,
    VFIO_DEVICE_SET_IRQS,
    VFIO_GROUP_GET_STATUS,
    VFIO_GET_API_VERSION,
    VFIO_CHECK_EXTENSION,
    VFIO_GROUP_SET_CONTAINER,
    VFIO_SET_IOMMU,
    KVM_CREATE_DEVICE,
    VFIO_IOMMU_MAP_DMA,
    VFIO_IOMMU_UNMAP_DMA,
    VFIO_GROUP_GET_DEVICE_FD,
    VFIO_DEVICE_GET_INFO,
    VFIO_DEVICE_RESET,
    VFIO_DEVICE_GET_REGION_INFO,
    VFIO_DEVICE_GET_IRQ_INFO,
    KVM_GET_API_VERSION,
    KVM_GET_MP_STATE,
    KVM_GET_VCPU_EVENTS,
    KVM_GET_PIT2,
    KVM_GET_CLOCK,
    KVM_GET_IRQCHIP,
    KVM_GET_REGS,
    KVM_GET_SREGS,
    KVM_GET_XSAVE,
    KVM_GET_SREGS,
    KVM_GET_DEBUGREGS,
    KVM_GET_XCRS,
    KVM_GET_LAPIC,
    KVM_GET_MSRS,
    KVM_GET_SUPPORTED_CPUID,
    KVM_SET_CPUID2,
    KVM_SET_MP_STATE,
    KVM_SET_SREGS,
    KVM_SET_REGS,
    KVM_SET_XSAVE,
    KVM_SET_XCRS,
    KVM_SET_DEBUGREGS,
    KVM_SET_LAPIC,
    KVM_SET_MSRS,
    KVM_SET_VCPU_EVENTS,
    KVM_GET_DIRTY_LOG,
];

/// The `fcntl` commands a machine thread may give.
pub const FCNTL_COMMANDS: [u32; 4] = [
    F_DUPFD_CLOEXEC,
    F_SETFD,
    F_GETFD,
    F_SETFL,
];

/// The `futex` operations a machine thread may perform under the GNU library.
pub const FUTEX_OPS_GNU: [u32; 6] = [
    FUTEX_WAIT_BITSET_PRIVATE_REALTIME,
    FUTEX_WAKE_PRIVATE,
    FUTEX_WAIT_PRIVATE,
    FUTEX_CMP_REQUEUE_PRIVATE,
    FUTEX_WAKE_OP_PRIVATE,
    FUTEX_WAIT_BITSET_PRIVATE,
];

/// The `futex` operations a machine thread may perform under musl.
pub const FUTEX_OPS_MUSL: [u32; 5] = [
    FUTEX_WAKE_PRIVATE,
    FUTEX_WAIT_PRIVATE,
    FUTEX_CMP_REQUEUE_PRIVATE,
    FUTEX_WAKE_OP_PRIVATE,
    FUTEX_WAIT_BITSET_PRIVATE,
];

/// The advice a machine thread may give with `madvise` under the GNU library.
pub const MADVISE_ADVICE_GNU: [u32; 3] = [
    MADV_DONTNEED,
    MADV_WILLNEED,
    MADV_DONTDUMP,
];

/// The advice a machine thread may give with `madvise` under musl.
pub const MADVISE_ADVICE_MUSL: [u32; 4] = [
    MADV_FREE,
    MADV_DONTNEED,
    MADV_WILLNEED,
    MADV_DONTDUMP,
];

/// The system calls a machine thread may make under the GNU library.
pub const SYSCALLS_GNU: [i64; 61] = [
    SYS_READ,
    SYS_READV,
    SYS_WRITE,
    SYS_WRITEV,
    SYS_IOCTL,
    SYS_EPOLL_WAIT,
    SYS_IO_GETEVENTS,
    SYS_IO_SUBMIT,
    SYS_DUP,
    SYS_CLOSE,
    SYS_EVENTFD2,
    SYS_EPOLL_CTL,
    SYS_FDATASYNC,
    SYS_RECVMSG,
    SYS_SENDMSG,
    SYS_RECVFROM,
    SYS_MREMAP,
    SYS_IO_SETUP,
    SYS_BRK,
    SYS_FCNTL,
    SYS_RT_SIGPROCMASK,
    SYS_OPEN,
    SYS_OPENAT,
    SYS_SIGALTSTACK,
    SYS_MMAP,
    SYS_MPROTECT,
    SYS_MUNMAP,
    SYS_ACCEPT4,
    SYS_LSEEK,
    SYS_FUTEX,
    SYS_EXIT,
    SYS_EXIT_GROUP,
    SYS_RT_SIGRETURN,
    SYS_TGKILL,
    SYS_GETTID,
    SYS_GETPID,
    SYS_FSTAT,
    SYS_NEWFSTATAT,
    SYS_PREAD64,
    SYS_PWRITE64,
    SYS_STATX,
    SYS_MKDIR,
    SYS_UNLINK,
    SYS_MADVISE,
    SYS_MSYNC,
    SYS_READLINKAT,
    SYS_READLINK,
    SYS_SOCKET,
    SYS_CONNECT,
    SYS_GETCWD,
    SYS_CLONE3,
    SYS_PRCTL,
    SYS_SENDTO,
    SYS_GETSOCKNAME,
    SYS_GETPEERNAME,
    SYS_SHUTDOWN,
    SYS_GETRANDOM,
    SYS_SETSOCKOPT,
    SYS_RT_SIGACTION,
    SYS_SET_ROBUST_LIST,
    SYS_SCHED_GETAFFINITY,
];

/// The system calls a machine thread may make under musl.
pub const SYSCALLS_MUSL: [i64; 60] = [
    SYS_READ,
    SYS_READV,
    SYS_WRITE,
    SYS_WRITEV,
    SYS_IOCTL,
    SYS_EPOLL_PWAIT,
    SYS_EPOLL_WAIT,
    SYS_IO_GETEVENTS,
    SYS_IO_SUBMIT,
    SYS_DUP,
    SYS_CLOSE,
    SYS_EVENTFD2,
    SYS_EPOLL_CTL,
    SYS_FDATASYNC,
    SYS_RECVMSG,
    SYS_SENDMSG,
    SYS_RECVFROM,
    SYS_MREMAP,
    SYS_IO_SETUP,
    SYS_BRK,
    SYS_FCNTL,
    SYS_RT_SIGPROCMASK,
    SYS_OPEN,
    SYS_OPENAT,
    SYS_SIGALTSTACK,
    SYS_MMAP,
    SYS_MPROTECT,
    SYS_MUNMAP,
    SYS_ACCEPT4,
    SYS_LSEEK,
    SYS_FUTEX,
    SYS_EXIT,
    SYS_EXIT_GROUP,
    SYS_RT_SIGRETURN,
    SYS_TKILL,
    SYS_STAT,
    SYS_GETTID,
    SYS_GETPID,
    SYS_FSTAT,
    SYS_NEWFSTATAT,
    SYS_PREAD64,
    SYS_PWRITE64,
    SYS_STATX,
    SYS_MKDIR,
    SYS_UNLINK,
    SYS_MADVISE,
    SYS_MSYNC,
    SYS_READLINKAT,
    SYS_READLINK,
    SYS_SOCKET,
    SYS_CONNECT,
    SYS_GETCWD,
    SYS_CLONE,
    SYS_PRCTL,
    SYS_SENDTO,
    SYS_GETSOCKNAME,
    SYS_GETPEERNAME,
    SYS_SHUTDOWN,
    SYS_GETRANDOM,
    SYS_SETSOCKOPT,
];

/// The rule for `syscall` that accepts the call when argument `index`
/// holds one of `values`; with no values, the rule for `syscall` alone.
pub open spec fn constrained(syscall: u32, index: u32, values: Seq<u32>) -> RuleModel {
    if values.len() == 0 {
        RuleModel::plain(syscall)
    } else {
        RuleModel { syscall, groups: seq![GroupModel { index, values }] }
    }
}

/// The `futex` operations permitted under `variant`.
pub open spec fn futex_ops(variant: AbiVariant) -> Seq<u32> {
    match variant {
        AbiVariant::Gnu => FUTEX_OPS_GNU@,
        AbiVariant::Musl => FUTEX_OPS_MUSL@,
    }
}

/// The `madvise` advice permitted under `variant`.
pub open spec fn madvise_advice(variant: AbiVariant) -> Seq<u32> {
    match variant {
        AbiVariant::Gnu => MADVISE_ADVICE_GNU@,
        AbiVariant::Musl => MADVISE_ADVICE_MUSL@,
    }
}

/// The system calls permitted under `variant`, most frequent first.
pub open spec fn syscall_table(variant: AbiVariant) -> Seq<i64> {
    match variant {
        AbiVariant::Gnu => SYSCALLS_GNU@,
        AbiVariant::Musl => SYSCALLS_MUSL@,
    }
}

/// The rule for the system call `nr` under `variant`: constrained for the
/// four calls that multiplex operations, plain for every other.
pub open spec fn rule_model_for(variant: AbiVariant, nr: i64) -> RuleModel {
    if nr == SYS_IOCTL {
        constrained(syscall_word(SYS_IOCTL), IOCTL_REQUEST_ARG, IOCTL_REQUESTS@)
    } else if nr == SYS_FCNTL {
        constrained(syscall_word(SYS_FCNTL), FCNTL_COMMAND_ARG, FCNTL_COMMANDS@)
    } else if nr == SYS_FUTEX {
        constrained(syscall_word(SYS_FUTEX), FUTEX_OP_ARG, futex_ops(variant))
    } else if nr == SYS_MADVISE {
        constrained(syscall_word(SYS_MADVISE), MADVISE_ADVICE_ARG, madvise_advice(variant))
    } else {
        RuleModel::plain(syscall_word(nr))
    }
}

/// The allow-list under `variant`: one rule per permitted system call, in
/// the order of the table.
pub open spec fn whitelist_model(variant: AbiVariant) -> Seq<RuleModel> {
    Seq::new(
        syscall_table(variant).len(),
        |i: int| rule_model_for(variant, syscall_table(variant)[i]),
    )
}

/// Builds the rule for `syscall` that accepts the call when argument
/// `index` holds one of `values`.
pub fn rule_with_values(syscall: i64, index: u32, values: &[u32]) -> (r: BpfRule)
    ensures
        r@ == constrained(syscall_word(syscall), index, values@),
        r@.wf(),
{
    let mut rule = BpfRule::new(syscall);
    let n: usize = values.len();
    let mut i: usize = 0;
    while i < n
        invariant
            i <= n,
            n == values@.len(),
            rule@ == constrained(syscall_word(syscall), index, values@.take(i as int)),
            rule@.wf(),
        decreases n - i,
    {
        let ghost before = rule@;
        rule = rule.add_constraint(SeccompCmpOpt::Eq, index, values[i]);
        proof {
            let longer = values@.take(i + 1);
            assert(longer =~= values@.take(i as int).push(values@[i as int]));
            if i > 0 {
                assert(before.groups[0].index == index);
                assert(rule@.groups =~= seq![GroupModel { index, values: longer }]);
            } else {
                assert(before.groups.len() == 0);
                assert(longer =~= seq![values@[0]]);
                assert(rule@.groups =~= seq![GroupModel { index, values: longer }]);
            }
        }
        i = i + 1;
    }
    assert(values@.take(n as int) =~= values@);
    rule
}

/// The rule for `ioctl`: only the listed requests.
pub fn ioctl_allow_list() -> (r: BpfRule)
    ensures
        r@ == constrained(syscall_word(SYS_IOCTL), IOCTL_REQUEST_ARG, IOCTL_REQUESTS@),
        r@.wf(),
{
    rule_with_values(SYS_IOCTL, IOCTL_REQUEST_ARG, &IOCTL_REQUESTS)
}

/// The rule for `fcntl`: only the listed commands.
pub fn fcntl_rule() -> (r: BpfRule)
    ensures
        r@ == constrained(syscall_word(SYS_FCNTL), FCNTL_COMMAND_ARG, FCNTL_COMMANDS@),
        r@.wf(),
{
    rule_with_values(SYS_FCNTL, FCNTL_COMMAND_ARG, &FCNTL_COMMANDS)
}

/// The rule for `madvise`: only the advice listed for `variant`.
pub fn madvise_rule(variant: AbiVariant) -> (r: BpfRule)
    ensures
        r@ == constrained(syscall_word(SYS_MADVISE), MADVISE_ADVICE_ARG, madvise_advice(variant)),
        r@.wf(),
{
    match variant {
        AbiVariant::Gnu => rule_with_values(SYS_MADVISE, MADVISE_ADVICE_ARG, &MADVISE_ADVICE_GNU),
        AbiVariant::Musl => rule_with_values(SYS_MADVISE, MADVISE_ADVICE_ARG, &MADVISE_ADVICE_MUSL),
    }
}

/// The rule for `futex`: only the operations listed for `variant`.
pub fn futex_rule(variant: AbiVariant) -> (r: BpfRule)
    ensures
        r@ == constrained(syscall_word(SYS_FUTEX), FUTEX_OP_ARG, futex_ops(variant)),
        r@.wf(),
{
    match variant {
        AbiVariant::Gnu => rule_with_values(SYS_FUTEX, FUTEX_OP_ARG, &FUTEX_OPS_GNU),
        AbiVariant::Musl => rule_with_values(SYS_FUTEX, FUTEX_OP_ARG, &FUTEX_OPS_MUSL),
    }
}

/// The rule for the system call `nr` under `variant`.
pub fn rule_for(variant: AbiVariant, nr: i64) -> (r: BpfRule)
    ensures
        r@ == rule_model_for(variant, nr),
        r@.wf(),
{
    if nr == SYS_IOCTL {
        ioctl_allow_list()
    } else if nr == SYS_FCNTL {
        fcntl_rule()
    } else if nr == SYS_FUTEX {
        futex_rule(variant)
    } else if nr == SYS_MADVISE {
        madvise_rule(variant)
    } else {
        BpfRule::new(nr)
    }
}

/// A rule with one group takes two instructions per value and five more.
pub proof fn lemma_constrained_size(syscall: u32, index: u32, values: Seq<u32>)
    ensures
        rule_size(constrained(syscall, index, values)) == if values.len() == 0 {
            2
        } else {
            2 * values.len() + 5
        },
{
    if values.len() > 0 {
        let groups = constrained(syscall, index, values).groups;
        assert(groups_size(groups, 1) == 0);
        assert(groups_size(groups, 0) == group_size(groups[0]) + groups_size(groups, 1));
    }
}

/// Whether a rule from position `from` on is for the system call `nr`.
pub open spec fn listed_from(rules: Seq<RuleModel>, from: int, nr: i64) -> bool {
    exists|k: int| from <= k < rules.len() && (#[trigger] rules[k]).syscall == nr
}

/// The instructions the rule for `nr` takes beyond the two of a plain rule,
/// if a rule from position `from` on is for `nr`.
pub open spec fn surplus_from(rules: Seq<RuleModel>, from: int, nr: i64, surplus: nat) -> nat {
    if listed_from(rules, from, nr) {
        surplus
    } else {
        0
    }
}

/// The instructions a rule for `syscall` takes beyond the two of a plain
/// rule, at most.
pub open spec fn surplus_of(syscall: u32) -> nat {
    if syscall == SYS_IOCTL {
        145
    } else if syscall == SYS_FCNTL {
        11
    } else if syscall == SYS_FUTEX {
        15
    } else if syscall == SYS_MADVISE {
        11
    } else {
        0
    }
}

/// Distinct rules of which only those for the four multiplexing calls are
/// constrained take two instructions each, and the surplus of each of the
/// four once.
pub proof fn lemma_rules_size_bound(rules: Seq<RuleModel>, from: int)
    requires
        0 <= from <= rules.len(),
        distinct_syscalls(rules),
        forall|i: int|
            0 <= i < rules.len() ==> rule_size(#[trigger] rules[i]) <= 2 + surplus_of(
                rules[i].syscall,
            ),
    ensures
        rules_size(rules, from) <= 2 * (rules.len() - from) + surplus_from(
            rules,
            from,
            SYS_IOCTL,
            145,
        ) + surplus_from(rules, from, SYS_FCNTL, 11) + surplus_from(rules, from, SYS_FUTEX, 15)
            + surplus_from(rules, from, SYS_MADVISE, 11),
    decreases rules.len() - from,
{
    if from < rules.len() {
        lemma_rules_size_bound(rules, from + 1);
        let here = rules[from].syscall;
        assert(listed_from(rules, from, here as i64));
        assert forall|nr: i64| nr != here implies listed_from(rules, from, nr) == listed_from(
            rules,
            from + 1,
            nr,
        ) by {
            if listed_from(rules, from, nr) {
                let k = choose|k: int| from <= k < rules.len() && (#[trigger] rules[k]).syscall == nr;
                assert(k != from);
            }
        }
        if listed_from(rules, from + 1, here as i64) {
            let k = choose|k: int| from + 1 <= k < rules.len() && (#[trigger] rules[k]).syscall == here;
            assert(rules[from].syscall != rules[k].syscall);
        }
    }
}

/// The allow-list of either variant is a policy that compiles: no system
/// call has two rules, every rule is well-formed, every constraint names
/// one of the six arguments, and the program fits the kernel's limit.
pub proof fn lemma_whitelist_valid(variant: AbiVariant)
    ensures
        distinct_syscalls(whitelist_model(variant)),
        policy_in_range(whitelist_model(variant)),
        forall|i: int|
            0 <= i < whitelist_model(variant).len() ==> (#[trigger] whitelist_model(variant)[i]).wf(),
        program_size(whitelist_model(variant)) <= BPF_MAXINSNS,
{
    let table = syscall_table(variant);
    let rules = whitelist_model(variant);
    assert(forall|i: int, j: int| 0 <= i < j < table.len() ==> table[i] != table[j]);
    assert(forall|i: int| 0 <= i < table.len() ==> 0 <= #[trigger] table[i] < 436);
    assert forall|i: int| 0 <= i < rules.len() implies {
        &&& (#[trigger] rules[i]).syscall == table[i]
        &&& rules[i].wf()
        &&& rules[i].in_range()
        &&& rule_size(rules[i]) <= 2 + surplus_of(rules[i].syscall)
    } by {
        let nr = table[i];
        assert(0 <= nr < 436);
        assert(syscall_word(nr) == nr) by (bit_vector)
            requires
                0 <= nr < 436,
        ;
        lemma_constrained_size(syscall_word(SYS_IOCTL), IOCTL_REQUEST_ARG, IOCTL_REQUESTS@);
        lemma_constrained_size(syscall_word(SYS_FCNTL), FCNTL_COMMAND_ARG, FCNTL_COMMANDS@);
        lemma_constrained_size(syscall_word(SYS_FUTEX), FUTEX_OP_ARG, futex_ops(variant));
        lemma_constrained_size(
            syscall_word(SYS_MADVISE),
            MADVISE_ADVICE_ARG,
            madvise_advice(variant),
        );
    }
    lemma_rules_size_bound(rules, 0);
}

/// Whether a machine thread may make the call `data` under `variant`: an
/// `ioctl`, `fcntl`, `futex` or `madvise` with one of the listed operations
/// in the argument that selects it, or any other call of the table.
pub open spec fn whitelist_permits(variant: AbiVariant, data: SeccompData) -> bool {
    if data.nr == SYS_IOCTL {
        IOCTL_REQUESTS@.contains(data.arg_word(1))
    } else if data.nr == SYS_FCNTL {
        FCNTL_COMMANDS@.contains(data.arg_word(1))
    } else if data.nr == SYS_FUTEX {
        futex_ops(variant).contains(data.arg_word(1))
    } else if data.nr == SYS_MADVISE {
        madvise_advice(variant).contains(data.arg_word(2))
    } else {
        syscall_table(variant).contains(data.nr as i64)
    }
}

/// The position of the system call `nr` in the table of `variant`, for the
/// four calls that multiplex operations.
pub open spec fn multiplexer_position(variant: AbiVariant, nr: i64) -> int {
    if nr == SYS_IOCTL {
        4
    } else if nr == SYS_FCNTL {
        match variant {
            AbiVariant::Gnu => 19,
            AbiVariant::Musl => 20,
        }
    } else if nr == SYS_FUTEX {
        match variant {
            AbiVariant::Gnu => 29,
            AbiVariant::Musl => 30,
        }
    } else {
        match variant {
            AbiVariant::Gnu => 43,
            AbiVariant::Musl => 45,
        }
    }
}

/// The allow-list permits exactly the calls `whitelist_permits` describes.
pub proof fn lemma_whitelist_decides(variant: AbiVariant, data: SeccompData)
    ensures
        policy_allows(whitelist_model(variant), data) == whitelist_permits(variant, data),
{
    let table = syscall_table(variant);
    let rules = whitelist_model(variant);
    assert(forall|i: int| 0 <= i < table.len() ==> 0 <= #[trigger] table[i] < 436);
    assert forall|i: int| 0 <= i < rules.len() implies (#[trigger] rules[i]).admits(data) == (
    table[i] == data.nr && whitelist_permits(variant, data)) by {
        let nr = table[i];
        assert(0 <= nr < 436);
        assert(syscall_word(nr) == nr) by (bit_vector)
            requires
                0 <= nr < 436,
        ;
        let r = rules[i];
        if nr == data.nr {
            if r.groups.len() == 0 {
                assert(table.contains(nr));
            } else {
                let g = r.groups[0];
                assert(r.admits(data) ==> g.admits(data));
                assert(g.admits(data) ==> r.admits(data));
            }
        }
    }
    if whitelist_permits(variant, data) {
        let nr = data.nr as i64;
        let at = if nr == SYS_IOCTL || nr == SYS_FCNTL || nr == SYS_FUTEX || nr == SYS_MADVISE {
            assert(table[multiplexer_position(variant, nr)] == nr);
            multiplexer_position(variant, nr)
        } else {
            choose|i: int| 0 <= i < table.len() && table[i] == nr
        };
        assert(rules[at].admits(data));
    }
}

/// The call that installs a filter is one the allow-list permits, so a
/// thread under the filter can narrow it further.
pub proof fn law_install_call_permitted(variant: AbiVariant, data: SeccompData)
    requires
        data.nr == SYS_PRCTL,
    ensures
        policy_allows(whitelist_model(variant), data),
{
    let table = syscall_table(variant);
    let at: int = match variant {
        AbiVariant::Gnu => 51,
        AbiVariant::Musl => 53,
    };
    assert(table[at] == SYS_PRCTL);
    lemma_whitelist_decides(variant, data);
}

/// The allow-list of a machine thread under `variant`, most frequent call
/// first. It is a policy that compiles within the kernel's limit.
pub fn syscall_whitelist(variant: AbiVariant) -> (r: Vec<BpfRule>)
    ensures
        rules_view(r@) == whitelist_model(variant),
        distinct_syscalls(rules_view(r@)),
        policy_in_range(rules_view(r@)),
        program_size(rules_view(r@)) <= BPF_MAXINSNS,
        forall|data: SeccompData| #[trigger]
            policy_allows(rules_view(r@), data) == whitelist_permits(variant, data),
{
    proof {
        lemma_whitelist_valid(variant);
        assert forall|data: SeccompData| #[trigger]
            policy_allows(whitelist_model(variant), data) == whitelist_permits(
                variant,
                data,
            ) by {
            lemma_whitelist_decides(variant, data);
        }
    }
    let mut out: Vec<BpfRule> = Vec::new();
    match variant {
        AbiVariant::Gnu => {
            let mut i: usize = 0;
            while i < 61
                invariant
                    i <= 61,
                    variant == AbiVariant::Gnu,
                    out@.len() == i,
                    forall|k: int| 0 <= k < i ==> (#[trigger] out@[k])@ == rule_model_for(variant, SYSCALLS_GNU@[k]),
                decreases 61 - i,
            {
                out.push(rule_for(variant, SYSCALLS_GNU[i]));
                i = i + 1;
            }
        },
        AbiVariant::Musl => {
            let mut i: usize = 0;
            while i < 60
                invariant
                    i <= 60,
                    variant == AbiVariant::Musl,
                    out@.len() == i,
                    forall|k: int| 0 <= k < i ==> (#[trigger] out@[k])@ == rule_model_for(variant, SYSCALLS_MUSL@[k]),
                decreases 60 - i,
            {
                out.push(rule_for(variant, SYSCALLS_MUSL[i]));
                i = i + 1;
            }
        },
    }
    assert(rules_view(out@) =~= whitelist_model(variant));
    out
}

} // verus!
