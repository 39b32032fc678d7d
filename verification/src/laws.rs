//! What holds of every policy and the program it compiles to.

use vstd::prelude::*;
use crate::bpf::{SockFilter, SeccompData, SeccompOpt, run, SECCOMP_RET_ALLOW};
use crate::rule::{RuleModel, policy_allows};
use crate::layout::{
    program, program_size, policy_in_range, distinct_syscalls, rule_size, rules_size,
};
use crate::soundness::{decision, lemma_program_decides};
use crate::shape::{well_formed, lemma_program_well_formed};
use crate::compiler::{CompiledProgram, SeccompError, compile_spec, outcome, saturate};

verus! {

/// A policy that compiles has its constraints in range and fits the
/// ceiling, and its program decides every call as the policy does.
pub proof fn lemma_compiled(
    rules: Seq<RuleModel>,
    deny: SeccompOpt,
    ceiling: u16,
    prog: Seq<SockFilter>,
    data: SeccompData,
)
    requires
        distinct_syscalls(rules),
        compile_spec(rules, deny, ceiling) == Ok::<Seq<SockFilter>, SeccompError>(prog),
    ensures
        policy_in_range(rules),
        program_size(rules) <= ceiling,
        prog == program(rules, deny.spec_code()),
        run(prog, data) == Some(decision(rules, deny.spec_code(), data)),
{
    lemma_program_decides(rules, deny.spec_code(), data);
}

/// Form: a compiled program ends in the rejecting and the allowing return,
/// which are its only returns, and every branch before them lands on an
/// instruction of the program.
pub proof fn law_program_well_formed(
    rules: Seq<RuleModel>,
    deny: SeccompOpt,
    ceiling: u16,
    prog: Seq<SockFilter>,
)
    requires
        compile_spec(rules, deny, ceiling) == Ok::<Seq<SockFilter>, SeccompError>(prog),
    ensures
        well_formed(prog, deny.spec_code()),
{
    lemma_program_well_formed(rules, deny.spec_code());
}

/// Default deny: a call whose number no rule of the policy has is
/// rejected by the compiled program.
pub proof fn law_default_deny(
    rules: Seq<RuleModel>,
    deny: SeccompOpt,
    ceiling: u16,
    prog: Seq<SockFilter>,
    data: SeccompData,
)
    requires
        distinct_syscalls(rules),
        compile_spec(rules, deny, ceiling) == Ok::<Seq<SockFilter>, SeccompError>(prog),
        forall|i: int| 0 <= i < rules.len() ==> (#[trigger] rules[i]).syscall != data.nr,
    ensures
        run(prog, data) == Some(deny.spec_code()),
{
    lemma_compiled(rules, deny, ceiling, prog, data);
}

/// Rule reachability: a call with the number of a rule, each of whose
/// constrained arguments has one of the values its group lists, is allowed
/// by the compiled program.
pub proof fn law_rule_reachable(
    rules: Seq<RuleModel>,
    deny: SeccompOpt,
    ceiling: u16,
    prog: Seq<SockFilter>,
    at: int,
    data: SeccompData,
)
    requires
        distinct_syscalls(rules),
        compile_spec(rules, deny, ceiling) == Ok::<Seq<SockFilter>, SeccompError>(prog),
        0 <= at < rules.len(),
        data.nr == rules[at].syscall,
        forall|g: int|
            0 <= g < rules[at].groups.len() ==> (#[trigger] rules[at].groups[g]).values.contains(
                data.arg_word(rules[at].groups[g].index as int),
            ),
    ensures
        run(prog, data) == Some(SECCOMP_RET_ALLOW),
{
    lemma_compiled(rules, deny, ceiling, prog, data);
    assert(rules[at].in_range());
    assert(rules[at].admits(data));
}

/// A group is an alternative: with the rule's number, one of the group's
/// values in the group's argument, and every other group of the rule
/// passed, the call is allowed.
pub proof fn law_group_any_value_allows(
    rules: Seq<RuleModel>,
    deny: SeccompOpt,
    ceiling: u16,
    prog: Seq<SockFilter>,
    at: int,
    group: int,
    choice: int,
    data: SeccompData,
)
    requires
        distinct_syscalls(rules),
        compile_spec(rules, deny, ceiling) == Ok::<Seq<SockFilter>, SeccompError>(prog),
        0 <= at < rules.len(),
        0 <= group < rules[at].groups.len(),
        0 <= choice < rules[at].groups[group].values.len(),
        data.nr == rules[at].syscall,
        data.arg_word(rules[at].groups[group].index as int) == rules[at].groups[group].values[choice],
        forall|g: int|
            0 <= g < rules[at].groups.len() && g != group ==> (#[trigger] rules[at].groups[g]).admits(
                data,
            ),
    ensures
        run(prog, data) == Some(SECCOMP_RET_ALLOW),
{
    lemma_compiled(rules, deny, ceiling, prog, data);
    assert(rules[at].in_range());
    assert(rules[at].groups[group].in_range());
    assert(rules[at].groups[group].admits(data));
    assert(rules[at].admits(data));
}

/// A group is exhaustive: with the rule's number and a value in the
/// group's argument that the group does not list, the call is rejected,
/// whatever the other arguments hold.
pub proof fn law_group_other_value_denies(
    rules: Seq<RuleModel>,
    deny: SeccompOpt,
    ceiling: u16,
    prog: Seq<SockFilter>,
    at: int,
    group: int,
    data: SeccompData,
)
    requires
        distinct_syscalls(rules),
        compile_spec(rules, deny, ceiling) == Ok::<Seq<SockFilter>, SeccompError>(prog),
        0 <= at < rules.len(),
        0 <= group < rules[at].groups.len(),
        data.nr == rules[at].syscall,
        !rules[at].groups[group].values.contains(
            data.arg_word(rules[at].groups[group].index as int),
        ),
    ensures
        run(prog, data) == Some(deny.spec_code()),
{
    lemma_compiled(rules, deny, ceiling, prog, data);
    assert(!rules[at].groups[group].admits(data));
    assert(!rules[at].admits(data));
    assert forall|i: int| 0 <= i < rules.len() implies !(#[trigger] rules[i]).admits(data) by {
        if i < at {
            assert(rules[i].syscall != rules[at].syscall);
        } else if i > at {
            assert(rules[at].syscall != rules[i].syscall);
        }
    }
}

/// Groups are conjoined: with the rule's number, a call that passes one
/// group of the rule and fails another is rejected.
pub proof fn law_groups_all_required(
    rules: Seq<RuleModel>,
    deny: SeccompOpt,
    ceiling: u16,
    prog: Seq<SockFilter>,
    at: int,
    passed: int,
    failed: int,
    data: SeccompData,
)
    requires
        distinct_syscalls(rules),
        compile_spec(rules, deny, ceiling) == Ok::<Seq<SockFilter>, SeccompError>(prog),
        0 <= at < rules.len(),
        0 <= passed < rules[at].groups.len(),
        0 <= failed < rules[at].groups.len(),
        rules[at].groups[passed].index != rules[at].groups[failed].index,
        data.nr == rules[at].syscall,
        rules[at].groups[passed].admits(data),
        !rules[at].groups[failed].admits(data),
    ensures
        run(prog, data) == Some(deny.spec_code()),
{
    lemma_compiled(rules, deny, ceiling, prog, data);
    assert(rules[at].in_range());
    assert(rules[at].groups[failed].in_range());
    law_group_other_value_denies(rules, deny, ceiling, prog, at, failed, data);
}

/// Adding the size of a rule to a sum of sizes.
pub open spec fn add_rule_size(r: RuleModel, sum: nat) -> nat {
    sum + rule_size(r)
}

/// The sizes of the rules from `from` on, summed from the right.
pub proof fn lemma_rules_size_is_fold(rules: Seq<RuleModel>, from: int)
    requires
        0 <= from <= rules.len(),
    ensures
        rules_size(rules, from) == rules.subrange(from, rules.len() as int).fold_right_alt(
            |r: RuleModel, sum: nat| add_rule_size(r, sum),
            0nat,
        ),
    decreases rules.len() - from,
{
    let f = |r: RuleModel, sum: nat| add_rule_size(r, sum);
    let tail = rules.subrange(from, rules.len() as int);
    if from < rules.len() {
        lemma_rules_size_is_fold(rules, from + 1);
        assert(tail.subrange(1, tail.len() as int) =~= rules.subrange(
            from + 1,
            rules.len() as int,
        ));
        assert(tail[0] == rules[from]);
    }
}

/// Lists that hold the same rules take the same number of instructions.
pub proof fn lemma_same_rules_same_size(first: Seq<RuleModel>, second: Seq<RuleModel>)
    requires
        first.to_multiset() == second.to_multiset(),
    ensures
        program_size(first) == program_size(second),
{
    let f = |r: RuleModel, sum: nat| add_rule_size(r, sum);
    lemma_rules_size_is_fold(first, 0);
    lemma_rules_size_is_fold(second, 0);
    assert(first.subrange(0, first.len() as int) =~= first);
    assert(second.subrange(0, second.len() as int) =~= second);
    first.lemma_fold_right_alt(f, 0nat);
    second.lemma_fold_right_alt(f, 0nat);
    assert(vstd::seq_lib::commutative_foldr(f)) by {
        assert forall|x: RuleModel, y: RuleModel, v: nat| #[trigger] f(x, f(y, v)) == f(
            y,
            f(x, v),
        ) by {}
    }
    vstd::seq_lib::lemma_fold_right_permutation(first, second, f, 0nat);
}

/// Every rule of a list is a rule of every list that holds the same rules.
pub proof fn lemma_same_rules_member(first: Seq<RuleModel>, second: Seq<RuleModel>, at: int)
    requires
        first.to_multiset() == second.to_multiset(),
        0 <= at < first.len(),
    ensures
        exists|j: int| 0 <= j < second.len() && second[j] == first[at],
{
    broadcast use vstd::seq_lib::group_to_multiset_ensures;

    let r = first[at];
    assert(first.contains(r));
    assert(first.to_multiset().count(r) > 0);
    assert(second.to_multiset().count(r) > 0);
    assert(second.contains(r));
}

/// A list that holds the same rules as one without two rules for the same
/// system call has no two such rules either.
pub proof fn lemma_same_rules_distinct(first: Seq<RuleModel>, second: Seq<RuleModel>)
    requires
        first.to_multiset() == second.to_multiset(),
        distinct_syscalls(first),
    ensures
        distinct_syscalls(second),
{
    assert(first.no_duplicates()) by {
        assert forall|i: int, j: int| 0 <= i < first.len() && 0 <= j < first.len() && i
            != j implies first[i] != first[j] by {
            if i < j {
                assert(first[i].syscall != first[j].syscall);
            } else {
                assert(first[j].syscall != first[i].syscall);
            }
        }
    }
    first.lemma_multiset_has_no_duplicates();
    second.lemma_multiset_has_no_duplicates_conv();
    assert forall|i: int, j: int| 0 <= i < j < second.len() implies (#[trigger] second[i]).syscall
        != (#[trigger] second[j]).syscall by {
        lemma_same_rules_member(second, first, i);
        lemma_same_rules_member(second, first, j);
        let a = choose|a: int| 0 <= a < first.len() && first[a] == second[i];
        let b = choose|b: int| 0 <= b < first.len() && first[b] == second[j];
        assert(second[i] != second[j]);
        if a < b {
            assert(first[a].syscall != first[b].syscall);
        } else if b < a {
            assert(first[b].syscall != first[a].syscall);
        }
    }
}

/// A call that one list of rules permits is permitted by every list that
/// holds the same rules.
pub proof fn lemma_same_rules_allow(
    first: Seq<RuleModel>,
    second: Seq<RuleModel>,
    data: SeccompData,
)
    requires
        first.to_multiset() == second.to_multiset(),
    ensures
        policy_allows(first, data) ==> policy_allows(second, data),
{
    if policy_allows(first, data) {
        let i = choose|i: int| 0 <= i < first.len() && (#[trigger] first[i]).admits(data);
        lemma_same_rules_member(first, second, i);
        let j = choose|j: int| 0 <= j < second.len() && second[j] == first[i];
        assert(second[j].admits(data));
    }
}

/// Order invariance: a policy that compiles still compiles when its rules
/// are put in another order, and the two programs return the same action
/// for every call.
pub proof fn law_order_invariant(
    first: Seq<RuleModel>,
    second: Seq<RuleModel>,
    deny: SeccompOpt,
    ceiling: u16,
    first_prog: Seq<SockFilter>,
    data: SeccompData,
)
    requires
        distinct_syscalls(first),
        first.to_multiset() == second.to_multiset(),
        compile_spec(first, deny, ceiling) == Ok::<Seq<SockFilter>, SeccompError>(first_prog),
    ensures
        distinct_syscalls(second),
        compile_spec(second, deny, ceiling) matches Ok(second_prog) && run(first_prog, data)
            == run(second_prog, data),
        policy_allows(first, data) == policy_allows(second, data),
{
    lemma_same_rules_distinct(first, second);
    lemma_same_rules_same_size(first, second);
    assert(policy_in_range(second)) by {
        assert forall|i: int| 0 <= i < second.len() implies (#[trigger] second[i]).in_range() by {
            lemma_same_rules_member(second, first, i);
            let a = choose|a: int| 0 <= a < first.len() && first[a] == second[i];
            assert(first[a].in_range());
        }
    }
    let second_prog = program(second, deny.spec_code());
    lemma_compiled(first, deny, ceiling, first_prog, data);
    lemma_compiled(second, deny, ceiling, second_prog, data);
    lemma_same_rules_allow(first, second, data);
    lemma_same_rules_allow(second, first, data);
}

/// Determinism: two compilations of policies with the same rules in the
/// same order, with the same rejecting action and ceiling, end alike: in
/// the same error, or in the same instructions.
pub proof fn law_compile_deterministic(
    first: Seq<RuleModel>,
    second: Seq<RuleModel>,
    deny: SeccompOpt,
    ceiling: u16,
    first_result: Result<CompiledProgram, SeccompError>,
    second_result: Result<CompiledProgram, SeccompError>,
)
    requires
        first == second,
        outcome(first_result) == compile_spec(first, deny, ceiling),
        outcome(second_result) == compile_spec(second, deny, ceiling),
    ensures
        outcome(first_result) == outcome(second_result),
{
}

/// Ceiling: a policy whose program would be longer than the ceiling does
/// not compile, and the error names the length and the ceiling; a policy
/// that compiles has a program within the ceiling, complete to its two
/// terminals.
pub proof fn law_ceiling_enforced(rules: Seq<RuleModel>, deny: SeccompOpt, ceiling: u16)
    ensures
        program_size(rules) > ceiling ==> compile_spec(rules, deny, ceiling) is Err,
        policy_in_range(rules) && program_size(rules) > ceiling ==> compile_spec(
            rules,
            deny,
            ceiling,
        ) == Err::<Seq<SockFilter>, SeccompError>(
            SeccompError::PolicyTooLarge {
                count: saturate(program_size(rules) as int),
                ceiling: ceiling as usize,
            },
        ),
        compile_spec(rules, deny, ceiling) matches Ok(prog) ==> prog.len() == program_size(rules)
            && prog.len() <= ceiling,
{
    crate::layout::lemma_program_len(rules, deny.spec_code());
}

} // verus!
