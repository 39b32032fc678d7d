//! Restricting a machine thread as it starts: which filter to hand to the
//! kernel, and what the thread does once the kernel has answered.

use vstd::prelude::*;
use crate::bpf::{SeccompData, SeccompOpt, run, SECCOMP_RET_ALLOW};
use crate::compiler::{CompiledProgram, Policy, BPF_MAXINSNS};
use crate::layout::program;
use crate::shape::well_formed;
use crate::syscall::{syscall_whitelist, whitelist_model, whitelist_permits, AbiVariant};

verus! {

/// What the kernel answered when it was handed a filter.
#[derive(Clone, Copy, Debug, PartialEq, Eq, Structural)]
pub enum InstallEvent {
    /// The filter is in force for the thread.
    Installed,
    /// The kernel refused the filter, with this error number.
    Rejected(i32),
}

/// How a thread goes on after the attempt to restrict it.
#[derive(Clone, Copy, Debug, PartialEq, Eq, Structural)]
pub enum ThreadStart {
    /// The thread runs under its filter.
    Guarded,
    /// The thread runs without a filter, as the host was told to tolerate.
    Unguarded,
    /// The thread must not run; the kernel's error number is kept.
    Abort(i32),
}

/// The action the filter of a machine thread takes on the call `data`:
/// allow if the allow-list permits the call, `deny`'s action otherwise.
pub open spec fn machine_verdict(variant: AbiVariant, deny: SeccompOpt, data: SeccompData) -> u32 {
    if whitelist_permits(variant, data) {
        SECCOMP_RET_ALLOW
    } else {
        deny.spec_code()
    }
}

/// The filter of a machine thread under `variant`: the allow-list,
/// compiled under the kernel's limit. It always exists, has the form the
/// kernel asks for, and decides every call as the allow-list does.
pub fn machine_filter(variant: AbiVariant, deny: SeccompOpt) -> (r: CompiledProgram)
    ensures
        r@ == program(whitelist_model(variant), deny.spec_code()),
        r.spec_ceiling() == BPF_MAXINSNS,
        r@.len() <= BPF_MAXINSNS,
        well_formed(r@, deny.spec_code()),
        forall|data: SeccompData| #[trigger]
            run(r@, data) == Some(machine_verdict(variant, deny, data)),
{
    let rules = syscall_whitelist(variant);
    let policy = match Policy::new(rules) {
        Ok(policy) => policy,
        Err(_) => vstd::pervasive::unreached(),
    };
    let program = match policy.compile(deny, BPF_MAXINSNS) {
        Ok(program) => program,
        Err(_) => vstd::pervasive::unreached(),
    };
    assert forall|data: SeccompData| #[trigger]
        run(program@, data) == Some(machine_verdict(variant, deny, data)) by {
        assert(run(program@, data) == Some(crate::soundness::decision(policy@, deny.spec_code(), data)));
    }
    program
}

/// How a thread goes on once the kernel has answered: under the filter if
/// it is in force; if the kernel refused it, without one only where the
/// host tolerates that, and not at all otherwise.
pub fn after_install(event: InstallEvent, tolerate_unguarded: bool) -> (r: ThreadStart)
    ensures
        r == match event {
            InstallEvent::Installed => ThreadStart::Guarded,
            InstallEvent::Rejected(errno) => if tolerate_unguarded {
                ThreadStart::Unguarded
            } else {
                ThreadStart::Abort(errno)
            },
        },
{
    match event {
        InstallEvent::Installed => ThreadStart::Guarded,
        InstallEvent::Rejected(errno) => {
            if tolerate_unguarded {
                ThreadStart::Unguarded
            } else {
                ThreadStart::Abort(errno)
            }
        },
    }
}

} // verus!
