//! Policies and their compilation to filter programs.

use vstd::prelude::*;
use crate::bpf::{
    SockFilter, SeccompData, SeccompOpt, run, evaluate, bpf_stmt, bpf_jump, jeq_insn,
    jump_insn, BPF_LD_W_ABS, BPF_JMP_JEQ_K, BPF_JMP_JA, BPF_RET_K, SECCOMP_RET_ALLOW,
};
use crate::rule::{BpfRule, ConstraintGroup, RuleModel, groups_view, rules_view};
use crate::layout::{
    group_size, groups_size, rule_size, rules_size, program_size, values_code, group_code,
    groups_code, rule_code, rules_code, program, policy_in_range, distinct_syscalls,
};
use crate::soundness::{decision, lemma_program_decides};
use crate::shape::{well_formed, lemma_program_well_formed};

verus! {

/// The longest program the kernel accepts, in instructions.
pub const BPF_MAXINSNS: u16 = 4096;

/// Why a policy was not built or not compiled.
#[derive(Clone, Copy, Debug, PartialEq, Eq, Structural)]
pub enum SeccompError {
    /// Two rules of the list are for this system call.
    DuplicateRule(u32),
    /// A constraint names an argument beyond the sixth.
    ProgramInvalid,
    /// The program would take `count` instructions, more than `ceiling`.
    PolicyTooLarge { count: usize, ceiling: usize },
}

/// `n` as a `usize`, or the largest `usize` if it does not fit.
pub open spec fn saturate(n: int) -> usize {
    if n > usize::MAX {
        usize::MAX
    } else if n < 0 {
        0
    } else {
        n as usize
    }
}

/// The position of the first rule whose system call an earlier rule
/// already has: the rules before it are distinct, with it they are not.
pub open spec fn is_first_repeat(rules: Seq<RuleModel>, at: int) -> bool {
    &&& 0 <= at < rules.len()
    &&& distinct_syscalls(rules.take(at))
    &&& !distinct_syscalls(rules.take(at + 1))
}

/// What compiling `rules` gives: the error for a constraint out of range,
/// else the error for a program over the ceiling, else the program.
pub open spec fn compile_spec(rules: Seq<RuleModel>, deny: SeccompOpt, ceiling: u16) -> Result<
    Seq<SockFilter>,
    SeccompError,
> {
    if !policy_in_range(rules) {
        Err(SeccompError::ProgramInvalid)
    } else if program_size(rules) > ceiling {
        Err(
            SeccompError::PolicyTooLarge {
                count: saturate(program_size(rules) as int),
                ceiling: ceiling as usize,
            },
        )
    } else {
        Ok(program(rules, deny.spec_code()))
    }
}

/// An ordered list of rules, no two of them for the same system call.
#[derive(Debug)]
pub struct Policy {
    rules: Vec<BpfRule>,
}

impl View for Policy {
    type V = Seq<RuleModel>;

    closed spec fn view(&self) -> Seq<RuleModel> {
        rules_view(self.rules@)
    }
}

/// A filter program and the ceiling it was compiled under.
#[derive(Debug)]
pub struct CompiledProgram {
    insns: Vec<SockFilter>,
    ceiling: u16,
}

impl View for CompiledProgram {
    type V = Seq<SockFilter>;

    closed spec fn view(&self) -> Seq<SockFilter> {
        self.insns@
    }
}

/// The sum of two sizes, held at the largest `usize`.
fn sat_add(a: usize, b: usize) -> (r: usize)
    ensures
        r == saturate(a + b),
{
    if a > usize::MAX - b {
        usize::MAX
    } else {
        a + b
    }
}

/// The size of one group's block.
fn group_len(g: &ConstraintGroup) -> (r: usize)
    ensures
        r == saturate(group_size(g@) as int),
{
    let n: usize = g.values().len();
    sat_add(sat_add(n, n), 2)
}

/// The size of the blocks of the groups from `from` on.
fn groups_len(groups: &Vec<ConstraintGroup>, from: usize) -> (r: usize)
    requires
        from <= groups.len(),
    ensures
        r == saturate(groups_size(groups_view(groups@), from as int) as int),
{
    let ghost model = groups_view(groups@);
    let mut total: usize = 0;
    let mut j: usize = groups.len();
    while j > from
        invariant
            from <= j <= groups.len(),
            model == groups_view(groups@),
            total == saturate(groups_size(model, j as int) as int),
        decreases j,
    {
        j = j - 1;
        total = sat_add(total, group_len(&groups[j]));
    }
    total
}

/// The size of one rule's block.
fn rule_len(rule: &BpfRule) -> (r: usize)
    ensures
        r == saturate(rule_size(rule@) as int),
{
    let groups = rule.groups();
    if groups.len() == 0 {
        2
    } else {
        sat_add(groups_len(groups, 0), 3)
    }
}

/// The size of the program for `rules`.
fn policy_len(rules: &Vec<BpfRule>) -> (r: usize)
    ensures
        r == saturate(program_size(rules_view(rules@)) as int),
{
    let ghost model = rules_view(rules@);
    let mut total: usize = 0;
    let mut j: usize = rules.len();
    while j > 0
        invariant
            j <= rules.len(),
            model == rules_view(rules@),
            total == saturate(rules_size(model, j as int) as int),
        decreases j,
    {
        j = j - 1;
        total = sat_add(total, rule_len(&rules[j]));
    }
    sat_add(total, 3)
}

/// Whether every group of `rule` names one of the six arguments.
fn rule_in_range(rule: &BpfRule) -> (r: bool)
    ensures
        r == rule@.in_range(),
{
    let groups = rule.groups();
    let mut j: usize = 0;
    while j < groups.len()
        invariant
            j <= groups.len(),
            groups_view(groups@) == rule@.groups,
            forall|i: int| 0 <= i < j ==> (#[trigger] rule@.groups[i]).in_range(),
        decreases groups.len() - j,
    {
        if groups[j].index() >= 6 {
            assert(!rule@.groups[j as int].in_range());
            return false;
        }
        j = j + 1;
    }
    true
}

/// Whether every group of every rule names one of the six arguments.
fn all_in_range(rules: &Vec<BpfRule>) -> (r: bool)
    ensures
        r == policy_in_range(rules_view(rules@)),
{
    let ghost model = rules_view(rules@);
    let mut i: usize = 0;
    while i < rules.len()
        invariant
            i <= rules.len(),
            model == rules_view(rules@),
            forall|k: int| 0 <= k < i ==> (#[trigger] model[k]).in_range(),
        decreases rules.len() - i,
    {
        if !rule_in_range(&rules[i]) {
            assert(!model[i as int].in_range());
            return false;
        }
        i = i + 1;
    }
    true
}

/// Appends the comparisons for `values`.
fn emit_values(out: &mut Vec<SockFilter>, values: &Vec<u32>)
    requires
        2 * values.len() <= u32::MAX,
    ensures
        final(out)@ == old(out)@ + values_code(values@, 0),
{
    let m: usize = values.len();
    let mut j: usize = 0;
    while j < m
        invariant
            j <= m,
            m == values.len(),
            2 * m <= u32::MAX,
            out@ + values_code(values@, j as int) == old(out)@ + values_code(values@, 0),
        decreases m - j,
    {
        let ghost before = out@;
        let leave: usize = 2 * (m - j) - 1;
        out.push(bpf_jump(BPF_JMP_JEQ_K, values[j], 0, 1));
        out.push(bpf_stmt(BPF_JMP_JA, leave as u32));
        assert(out@ + values_code(values@, j + 1) =~= before + values_code(values@, j as int));
        j = j + 1;
    }
    assert(out@ + values_code(values@, m as int) =~= out@);
}

/// Appends the block of the group `g`, which `after` instructions follow.
fn emit_group(out: &mut Vec<SockFilter>, g: &ConstraintGroup, after: usize)
    requires
        g@.in_range(),
        after >= 2,
        group_size(g@) + after <= u32::MAX,
    ensures
        final(out)@ == old(out)@ + group_code(g@, after as int),
{
    out.push(bpf_stmt(BPF_LD_W_ABS, SeccompData::args(g.index())));
    emit_values(out, g.values());
    out.push(bpf_stmt(BPF_JMP_JA, (after - 2) as u32));
    assert(out@ =~= old(out)@ + group_code(g@, after as int));
}

/// Appends the block of `rule`, which `after` instructions follow.
fn emit_rule(out: &mut Vec<SockFilter>, rule: &BpfRule, after: usize)
    requires
        rule@.in_range(),
        after >= 2,
        rule_size(rule@) + after <= u32::MAX,
    ensures
        final(out)@ == old(out)@ + rule_code(rule@, after as int),
{
    let groups = rule.groups();
    let n: usize = groups.len();
    if n == 0 {
        out.push(bpf_jump(BPF_JMP_JEQ_K, rule.syscall(), 0, 1));
        out.push(bpf_stmt(BPF_JMP_JA, (after - 1) as u32));
        assert(out@ =~= old(out)@ + rule_code(rule@, after as int));
    } else {
        let ghost model = rule@.groups;
        let mut left: usize = groups_len(groups, 0);
        out.push(bpf_jump(BPF_JMP_JEQ_K, rule.syscall(), 1, 0));
        out.push(bpf_stmt(BPF_JMP_JA, (left + 1) as u32));
        let ghost head = out@;
        let mut j: usize = 0;
        while j < n
            invariant
                j <= n,
                n == groups.len(),
                model == groups_view(groups@),
                model == rule@.groups,
                rule@.in_range(),
                after >= 2,
                left == groups_size(model, j as int),
                left + 1 + after <= u32::MAX,
                out@ + groups_code(model, j as int, after as int) == head + groups_code(
                    model,
                    0,
                    after as int,
                ),
            decreases n - j,
        {
            let ghost before = out@;
            let g = &groups[j];
            assert(g@ == model[j as int]);
            left = left - group_len(g);
            emit_group(out, g, left + 1 + after);
            assert(out@ + groups_code(model, j + 1, after as int) =~= before + groups_code(
                model,
                j as int,
                after as int,
            ));
            j = j + 1;
        }
        let ghost body = out@;
        out.push(bpf_stmt(BPF_JMP_JA, (after - 1) as u32));
        proof {
            let last = groups_code(model, n as int, after as int);
            assert(out@ =~= body + last);
            assert(head =~= old(out)@ + seq![
                jeq_insn(rule@.syscall, 1, 0),
                jump_insn((groups_size(model, 0) + 1) as u32),
            ]);
            assert(out@ =~= old(out)@ + rule_code(rule@, after as int));
        }
    }
}

impl Policy {
    #[verifier::type_invariant]
    spec fn inv(&self) -> bool {
        distinct_syscalls(rules_view(self.rules@))
    }

    /// Makes a policy of `rules`, in that order. A list in which two rules
    /// are for the same system call is refused, with the call of the first
    /// rule that repeats an earlier one.
    pub fn new(rules: Vec<BpfRule>) -> (r: Result<Policy, SeccompError>)
        ensures
            match r {
                Ok(p) => p@ == rules_view(rules@) && distinct_syscalls(p@),
                Err(e) => exists|at: int|
                    is_first_repeat(rules_view(rules@), at) && e == SeccompError::DuplicateRule(
                        (#[trigger] rules_view(rules@)[at]).syscall,
                    ),
            },
            distinct_syscalls(rules_view(rules@)) <==> r is Ok,
    {
        let ghost model = rules_view(rules@);
        let n: usize = rules.len();
        let mut j: usize = 0;
        while j < n
            invariant
                j <= n,
                n == rules.len(),
                model == rules_view(rules@),
                distinct_syscalls(model.take(j as int)),
            decreases n - j,
        {
            let id: u32 = rules[j].syscall();
            let mut i: usize = 0;
            while i < j
                invariant
                    i <= j < n,
                    n == rules.len(),
                    model == rules_view(rules@),
                    id == model[j as int].syscall,
                    distinct_syscalls(model.take(j as int)),
                    forall|k: int| 0 <= k < i ==> (#[trigger] model[k]).syscall != id,
                decreases j - i,
            {
                if rules[i].syscall() == id {
                    proof {
                        let longer = model.take(j + 1);
                        assert(longer[i as int].syscall == longer[j as int].syscall);
                        assert(is_first_repeat(model, j as int));
                        assert(model.take(n as int) =~= model);
                        assert(model.take(n as int)[i as int].syscall == model.take(
                            n as int,
                        )[j as int].syscall);
                    }
                    return Err(SeccompError::DuplicateRule(id));
                }
                i = i + 1;
            }
            proof {
                let shorter = model.take(j as int);
                let longer = model.take(j + 1);
                assert forall|a: int, b: int| 0 <= a < b < longer.len() implies (
                #[trigger] longer[a]).syscall != (#[trigger] longer[b]).syscall by {
                    if b < j {
                        assert(shorter[a].syscall != shorter[b].syscall);
                    } else {
                        assert(model[a].syscall != id);
                    }
                }
            }
            j = j + 1;
        }
        assert(model.take(n as int) =~= model);
        Ok(Policy { rules })
    }

    /// The rules of the policy, in order.
    pub fn rules(&self) -> (r: &Vec<BpfRule>)
        ensures
            rules_view(r@) == self@,
            distinct_syscalls(self@),
    {
        proof {
            use_type_invariant(self);
        }
        &self.rules
    }

    /// Compiles the policy to a filter program of at most `ceiling`
    /// instructions that returns `deny`'s action for every call the policy
    /// does not permit.
    ///
    /// Fails with `ProgramInvalid` if a constraint names an argument beyond
    /// the sixth, and with `PolicyTooLarge` if the program would take more
    /// than `ceiling` instructions.
    pub fn compile(&self, deny: SeccompOpt, ceiling: u16) -> (r: Result<
        CompiledProgram,
        SeccompError,
    >)
        ensures
            outcome(r) == compile_spec(self@, deny, ceiling),
            r matches Ok(p) ==> {
                &&& p.spec_ceiling() == ceiling
                &&& p@.len() == program_size(self@) <= ceiling
                &&& well_formed(p@, deny.spec_code())
                &&& forall|data: SeccompData| #[trigger]
                    run(p@, data) == Some(decision(self@, deny.spec_code(), data))
            },
    {
        proof {
            use_type_invariant(self);
        }
        let rules = &self.rules;
        let ghost model = rules_view(rules@);
        if !all_in_range(rules) {
            return Err(SeccompError::ProgramInvalid);
        }
        let size: usize = policy_len(rules);
        if size > ceiling as usize {
            return Err(SeccompError::PolicyTooLarge { count: size, ceiling: ceiling as usize });
        }
        let action: u32 = deny.code();
        let n: usize = rules.len();
        let mut out: Vec<SockFilter> = Vec::new();
        out.push(bpf_stmt(BPF_LD_W_ABS, SeccompData::nr()));
        let mut left: usize = size - 1;
        let mut i: usize = 0;
        while i < n
            invariant
                i <= n,
                n == rules.len(),
                model == rules_view(rules@),
                policy_in_range(model),
                size == program_size(model),
                size <= u16::MAX,
                left == rules_size(model, i as int) + 2,
                out@.len() + left == size,
                out@ + rules_code(model, i as int, action) == program(model, action),
            decreases n - i,
        {
            let ghost before = out@;
            let rule = &rules[i];
            assert(rule@ == model[i as int]);
            left = left - rule_len(rule);
            emit_rule(&mut out, rule, left);
            proof {
                crate::layout::lemma_rule_code_len(rule@, left as int);
                assert(out@ + rules_code(model, i + 1, action) =~= before + rules_code(
                    model,
                    i as int,
                    action,
                ));
            }
            i = i + 1;
        }
        out.push(bpf_stmt(BPF_RET_K, action));
        out.push(bpf_stmt(BPF_RET_K, SECCOMP_RET_ALLOW));
        proof {
            assert(out@ =~= program(model, action));
            lemma_program_well_formed(model, action);
            assert forall|data: SeccompData| #[trigger]
                run(out@, data) == Some(decision(model, action, data)) by {
                lemma_program_decides(model, action, data);
            }
        }
        Ok(CompiledProgram { insns: out, ceiling })
    }
}

/// The result of a compilation with the program taken as its instruction
/// sequence.
pub open spec fn outcome(r: Result<CompiledProgram, SeccompError>) -> Result<
    Seq<SockFilter>,
    SeccompError,
> {
    match r {
        Ok(p) => Ok(p@),
        Err(e) => Err(e),
    }
}

impl CompiledProgram {
    #[verifier::type_invariant]
    spec fn inv(&self) -> bool {
        self.insns@.len() <= self.ceiling
    }

    /// The ceiling the program was compiled under.
    pub closed spec fn spec_ceiling(&self) -> u16 {
        self.ceiling
    }

    /// The ceiling the program was compiled under.
    #[verifier::when_used_as_spec(spec_ceiling)]
    pub fn ceiling(&self) -> (r: u16)
        ensures
            r == self.spec_ceiling(),
            self@.len() <= r,
    {
        proof {
            use_type_invariant(self);
        }
        self.ceiling
    }

    /// The number of instructions.
    pub fn len(&self) -> (r: u16)
        ensures
            r == self@.len(),
            r <= self.spec_ceiling(),
    {
        proof {
            use_type_invariant(self);
        }
        self.insns.len() as u16
    }

    /// The instructions, in the order and layout the kernel takes them.
    pub fn instructions(&self) -> (r: &Vec<SockFilter>)
        ensures
            r@ == self@,
    {
        &self.insns
    }

    /// The action the program returns for the call `data`.
    pub fn evaluate(&self, data: &SeccompData) -> (r: Option<u32>)
        ensures
            r == run(self@, *data),
    {
        evaluate(&self.insns, data)
    }

    /// Whether the program lets the call `data` proceed.
    pub fn allows(&self, data: &SeccompData) -> (r: bool)
        ensures
            r == (run(self@, *data) == Some(SECCOMP_RET_ALLOW)),
    {
        match evaluate(&self.insns, data) {
            Some(action) => action == SECCOMP_RET_ALLOW,
            None => false,
        }
    }
}

} // verus!
