//! Where each instruction of a compiled policy stands.
//!
//! A program is one load of the system call number, one block per rule in
//! policy order, and two shared terminals at the very end: the rejecting
//! return, then the allowing return. Conditional branches only ever skip
//! zero or one instruction; every longer distance is covered by an
//! unconditional jump placed right behind the comparison, so no target is
//! ever out of reach of its branch.

use vstd::prelude::*;
use crate::bpf::{SockFilter, SeccompData, load_insn, jeq_insn, jump_insn, ret_insn, SECCOMP_RET_ALLOW, SECCOMP_DATA_NR};
use crate::rule::{GroupModel, RuleModel};

verus! {

/// Instructions a group takes: the load, two per value, the jump to the
/// rejecting terminal.
pub open spec fn group_size(g: GroupModel) -> nat {
    2 * g.values.len() + 2
}

/// Instructions the groups from position `from` on take together.
pub open spec fn groups_size(groups: Seq<GroupModel>, from: int) -> nat
    decreases groups.len() - from,
{
    if from < 0 || from >= groups.len() {
        0
    } else {
        group_size(groups[from]) + groups_size(groups, from + 1)
    }
}

/// Instructions a rule takes: the comparison and its jump, and for a
/// constrained rule the groups and the closing jump to the allowing
/// terminal.
pub open spec fn rule_size(r: RuleModel) -> nat {
    if r.groups.len() == 0 {
        2
    } else {
        groups_size(r.groups, 0) + 3
    }
}

/// Instructions the rules from position `from` on take together.
pub open spec fn rules_size(rules: Seq<RuleModel>, from: int) -> nat
    decreases rules.len() - from,
{
    if from < 0 || from >= rules.len() {
        0
    } else {
        rule_size(rules[from]) + rules_size(rules, from + 1)
    }
}

/// Instructions of the whole program: the initial load, the rules, the two
/// terminals.
pub open spec fn program_size(rules: Seq<RuleModel>) -> nat {
    rules_size(rules, 0) + 3
}

/// The comparisons for the values from position `from` on. Each value is
/// compared; on equality the jump behind the comparison leaves the group,
/// past its final jump to the rejecting terminal.
pub open spec fn values_code(values: Seq<u32>, from: int) -> Seq<SockFilter>
    decreases values.len() - from,
{
    if from < 0 || from >= values.len() {
        Seq::empty()
    } else {
        seq![
            jeq_insn(values[from], 0, 1),
            jump_insn((2 * (values.len() - from) - 1) as u32),
        ] + values_code(values, from + 1)
    }
}

/// The block of one group, `after` instructions before the end of the
/// program: load the argument, compare it with each value, and reject if
/// none was equal.
pub open spec fn group_code(g: GroupModel, after: int) -> Seq<SockFilter> {
    seq![load_insn(SeccompData::spec_args(g.index))] + values_code(g.values, 0) + seq![
        jump_insn((after - 2) as u32),
    ]
}

/// The blocks of the groups from position `from` on, then the jump to the
/// allowing terminal; `after` instructions follow that jump.
pub open spec fn groups_code(groups: Seq<GroupModel>, from: int, after: int) -> Seq<SockFilter>
    decreases groups.len() - from,
{
    if from < 0 || from >= groups.len() {
        seq![jump_insn((after - 1) as u32)]
    } else {
        group_code(groups[from], groups_size(groups, from + 1) + 1 + after) + groups_code(
            groups,
            from + 1,
            after,
        )
    }
}

/// The block of one rule, `after` instructions before the end of the
/// program. An unconstrained rule jumps to the allowing terminal when the
/// number matches and falls to the next rule when it does not; a
/// constrained rule enters its groups when the number matches and jumps
/// over them when it does not.
pub open spec fn rule_code(r: RuleModel, after: int) -> Seq<SockFilter> {
    if r.groups.len() == 0 {
        seq![jeq_insn(r.syscall, 0, 1), jump_insn((after - 1) as u32)]
    } else {
        seq![jeq_insn(r.syscall, 1, 0), jump_insn((groups_size(r.groups, 0) + 1) as u32)]
            + groups_code(r.groups, 0, after)
    }
}

/// The blocks of the rules from position `from` on, then the terminals.
pub open spec fn rules_code(rules: Seq<RuleModel>, from: int, deny: u32) -> Seq<SockFilter>
    decreases rules.len() - from,
{
    if from < 0 || from >= rules.len() {
        seq![ret_insn(deny), ret_insn(SECCOMP_RET_ALLOW)]
    } else {
        rule_code(rules[from], rules_size(rules, from + 1) as int + 2) + rules_code(rules, from + 1, deny)
    }
}

/// The program a policy compiles to, with `deny` as the rejecting action.
pub open spec fn program(rules: Seq<RuleModel>, deny: u32) -> Seq<SockFilter> {
    seq![load_insn(SECCOMP_DATA_NR)] + rules_code(rules, 0, deny)
}

/// Every group of every rule names one of the six arguments.
pub open spec fn policy_in_range(rules: Seq<RuleModel>) -> bool {
    forall|i: int| 0 <= i < rules.len() ==> (#[trigger] rules[i]).in_range()
}

/// No two rules are for the same system call.
pub open spec fn distinct_syscalls(rules: Seq<RuleModel>) -> bool {
    forall|i: int, j: int|
        0 <= i < j < rules.len() ==> (#[trigger] rules[i]).syscall != (#[trigger] rules[j]).syscall
}

/// The value comparisons from `from` on take two instructions per value.
pub proof fn lemma_values_code_len(values: Seq<u32>, from: int)
    requires
        0 <= from <= values.len(),
    ensures
        values_code(values, from).len() == 2 * (values.len() - from),
    decreases values.len() - from,
{
    if from < values.len() {
        lemma_values_code_len(values, from + 1);
    }
}

/// A group's block has the size `group_size` gives.
pub proof fn lemma_group_code_len(g: GroupModel, after: int)
    ensures
        group_code(g, after).len() == group_size(g),
{
    lemma_values_code_len(g.values, 0);
}

/// The groups' blocks and the closing jump have the size `groups_size`
/// gives, plus one.
pub proof fn lemma_groups_code_len(groups: Seq<GroupModel>, from: int, after: int)
    requires
        0 <= from <= groups.len(),
    ensures
        groups_code(groups, from, after).len() == groups_size(groups, from) + 1,
    decreases groups.len() - from,
{
    if from < groups.len() {
        lemma_groups_code_len(groups, from + 1, after);
        lemma_group_code_len(groups[from], groups_size(groups, from + 1) + 1 + after);
    }
}

/// A rule's block has the size `rule_size` gives.
pub proof fn lemma_rule_code_len(r: RuleModel, after: int)
    ensures
        rule_code(r, after).len() == rule_size(r),
{
    if r.groups.len() > 0 {
        lemma_groups_code_len(r.groups, 0, after);
    }
}

/// The rules' blocks and the terminals have the size `rules_size` gives,
/// plus two, and end in the rejecting and the allowing return.
pub proof fn lemma_rules_code_len(rules: Seq<RuleModel>, from: int, deny: u32)
    requires
        0 <= from <= rules.len(),
    ensures
        rules_code(rules, from, deny).len() == rules_size(rules, from) + 2,
        rules_code(rules, from, deny)[rules_size(rules, from) as int] == ret_insn(deny),
        rules_code(rules, from, deny)[rules_size(rules, from) as int + 1] == ret_insn(SECCOMP_RET_ALLOW),
    decreases rules.len() - from,
{
    if from < rules.len() {
        lemma_rules_code_len(rules, from + 1, deny);
        lemma_rule_code_len(rules[from], rules_size(rules, from + 1) as int + 2);
    }
}

/// The program has the size `program_size` gives, and its last two
/// instructions are the rejecting and the allowing return.
pub proof fn lemma_program_len(rules: Seq<RuleModel>, deny: u32)
    ensures
        program(rules, deny).len() == program_size(rules),
        program(rules, deny)[program_size(rules) - 2] == ret_insn(deny),
        program(rules, deny)[program_size(rules) - 1] == ret_insn(SECCOMP_RET_ALLOW),
{
    lemma_rules_code_len(rules, 0, deny);
}

} // verus!
