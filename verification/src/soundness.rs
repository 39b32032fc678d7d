//! Why a compiled program decides as its policy does.
//!
//! The proofs follow the layout: a piece of code is run at the head of
//! whatever comes behind it, and says where control goes next.

use vstd::prelude::*;
use crate::bpf::{
    SockFilter, SeccompData, run, run_from, branch_offset, load_insn, jeq_insn, jump_insn,
    ret_insn, BPF_LD_W_ABS, BPF_JMP_JEQ_K, BPF_JMP_JA, BPF_RET_K, SECCOMP_RET_ALLOW,
    SECCOMP_DATA_NR,
};
use crate::rule::{GroupModel, RuleModel, policy_allows};
use crate::layout::{
    group_size, groups_size, rules_size, program_size, values_code, group_code, groups_code,
    rule_code, rules_code, program, policy_in_range, distinct_syscalls, lemma_values_code_len,
    lemma_groups_code_len, lemma_rule_code_len, lemma_rules_code_len,
};

verus! {

/// Whether one of the values from position `from` on equals `word`.
pub open spec fn has_value_from(values: Seq<u32>, word: u32, from: int) -> bool {
    exists|j: int| from <= j < values.len() && values[j] == word
}

/// Whether the call passes every group from position `from` on.
pub open spec fn groups_admit_from(groups: Seq<GroupModel>, from: int, data: SeccompData) -> bool {
    forall|i: int| from <= i < groups.len() ==> (#[trigger] groups[i]).admits(data)
}

/// The action the first rule from `from` on for the call's number decides:
/// allow if the call passes its groups, `deny` if not, and `deny` if there
/// is no such rule.
pub open spec fn first_match(rules: Seq<RuleModel>, from: int, deny: u32, data: SeccompData) -> u32
    decreases rules.len() - from,
{
    if from < 0 || from >= rules.len() {
        deny
    } else if rules[from].syscall == data.nr {
        if groups_admit_from(rules[from].groups, 0, data) {
            SECCOMP_RET_ALLOW
        } else {
            deny
        }
    } else {
        first_match(rules, from + 1, deny, data)
    }
}

/// The action a policy decides for a call: allow if some rule permits it,
/// `deny` otherwise.
pub open spec fn decision(rules: Seq<RuleModel>, deny: u32, data: SeccompData) -> u32 {
    if policy_allows(rules, data) {
        SECCOMP_RET_ALLOW
    } else {
        deny
    }
}

/// Running from a position inside the second of two joined pieces is
/// running the second piece alone: branches are relative and forward.
pub proof fn lemma_run_suffix(
    a: Seq<SockFilter>,
    b: Seq<SockFilter>,
    pc: int,
    acc: u32,
    data: SeccompData,
)
    requires
        pc >= 0,
    ensures
        run_from(a + b, a.len() + pc, acc, data) == run_from(b, pc, acc, data),
    decreases b.len() - pc,
{
    let c = a + b;
    if pc < b.len() {
        assert(c[a.len() + pc] == b[pc]);
        let insn = b[pc];
        if insn.code == BPF_LD_W_ABS {
            match data.word_at(insn.k) {
                Some(w) => {
                    lemma_run_suffix(a, b, pc + 1, w, data);
                },
                None => {},
            }
        } else if insn.code == BPF_JMP_JEQ_K {
            let target = pc + 1 + branch_offset(insn, acc);
            if target < b.len() {
                lemma_run_suffix(a, b, target, acc, data);
            }
        } else if insn.code == BPF_JMP_JA {
            let target = pc + 1 + insn.k as nat;
            if target < b.len() {
                lemma_run_suffix(a, b, target, acc, data);
            }
        }
    }
}

/// A load puts the word it names into the accumulator and goes on with
/// the next instruction.
pub proof fn lemma_step_load(c: Seq<SockFilter>, pc: int, acc: u32, data: SeccompData, w: u32)
    requires
        0 <= pc < c.len(),
        c[pc].code == BPF_LD_W_ABS,
        data.word_at(c[pc].k) == Some(w),
    ensures
        run_from(c, pc, acc, data) == run_from(c, pc + 1, w, data),
{
}

/// A comparison goes on `jt` instructions further if the accumulator
/// equals its operand, and `jf` instructions further if not.
pub proof fn lemma_step_jeq(c: Seq<SockFilter>, pc: int, acc: u32, data: SeccompData)
    requires
        0 <= pc < c.len(),
        c[pc].code == BPF_JMP_JEQ_K,
        pc + 1 + branch_offset(c[pc], acc) < c.len(),
    ensures
        run_from(c, pc, acc, data) == run_from(c, pc + 1 + branch_offset(c[pc], acc), acc, data),
{
}

/// A jump goes on `k` instructions further.
pub proof fn lemma_step_jump(c: Seq<SockFilter>, pc: int, acc: u32, data: SeccompData)
    requires
        0 <= pc < c.len(),
        c[pc].code == BPF_JMP_JA,
        pc + 1 + c[pc].k < c.len(),
    ensures
        run_from(c, pc, acc, data) == run_from(c, pc + 1 + c[pc].k, acc, data),
{
}

/// A return ends the run with its action.
pub proof fn lemma_step_ret(c: Seq<SockFilter>, pc: int, acc: u32, data: SeccompData)
    requires
        0 <= pc < c.len(),
        c[pc].code == BPF_RET_K,
    ensures
        run_from(c, pc, acc, data) == Some(c[pc].k),
{
}

/// The value comparisons of a group, run with the argument in the
/// accumulator: if a value equals it, control leaves past the first
/// instruction behind them; if none does, it arrives at that instruction.
pub proof fn lemma_values_run(
    values: Seq<u32>,
    from: int,
    rest: Seq<SockFilter>,
    acc: u32,
    data: SeccompData,
)
    requires
        0 <= from <= values.len(),
        2 * values.len() <= u32::MAX,
    ensures
        run_from(values_code(values, from) + rest, 0, acc, data) == if has_value_from(
            values,
            acc,
            from,
        ) {
            run_from(rest, 1, acc, data)
        } else {
            run_from(rest, 0, acc, data)
        },
    decreases values.len() - from,
{
    let code = values_code(values, from);
    let c = code + rest;
    lemma_values_code_len(values, from);
    if from >= values.len() {
        assert(c =~= rest);
    } else {
        let k = (2 * (values.len() - from) - 1) as u32;
        let pair = seq![jeq_insn(values[from], 0, 1), jump_insn(k)];
        let next = values_code(values, from + 1);
        lemma_values_code_len(values, from + 1);
        assert(code == pair + next);
        assert(c =~= pair + (next + rest));
        assert(c[0] == pair[0]);
        assert(c[1] == pair[1]);
        if acc == values[from] {
            assert(has_value_from(values, acc, from));
            assert(branch_offset(c[0], acc) == 0);
            lemma_step_jeq(c, 0, acc, data);
            let target = 2 + k;
            assert(target == code.len() + 1);
            if target < c.len() {
                lemma_step_jump(c, 1, acc, data);
                lemma_run_suffix(code, rest, 1, acc, data);
            } else {
                assert(run_from(c, 1, acc, data) is None);
                assert(run_from(rest, 1, acc, data) is None);
            }
        } else {
            lemma_values_run(values, from + 1, rest, acc, data);
            assert(has_value_from(values, acc, from) == has_value_from(values, acc, from + 1));
            assert(branch_offset(c[0], acc) == 1);
            if 2 < c.len() {
                lemma_step_jeq(c, 0, acc, data);
                lemma_run_suffix(pair, next + rest, 0, acc, data);
            } else {
                assert(next + rest =~= Seq::<SockFilter>::empty());
                assert(rest =~= Seq::<SockFilter>::empty());
                assert(run_from(c, 0, acc, data) is None);
                assert(run_from(rest, 0, acc, data) is None);
            }
        }
    }
}

/// One group, run before `rest`: a call that passes goes on with `rest`,
/// any other is rejected.
pub proof fn lemma_group_run(
    g: GroupModel,
    after: int,
    rest: Seq<SockFilter>,
    deny: u32,
    acc: u32,
    data: SeccompData,
)
    requires
        g.in_range(),
        rest.len() == after,
        after >= 2,
        group_size(g) + after <= u32::MAX,
        rest[after - 2] == ret_insn(deny),
    ensures
        run_from(group_code(g, after) + rest, 0, acc, data) == if g.admits(data) {
            run_from(rest, 0, data.arg_word(g.index as int), data)
        } else {
            Some(deny)
        },
{
    let head = seq![load_insn(SeccompData::spec_args(g.index))];
    let vals = values_code(g.values, 0);
    let out = seq![jump_insn((after - 2) as u32)];
    let c = group_code(g, after) + rest;
    let w = data.arg_word(g.index as int);
    let tail = out + rest;
    lemma_values_code_len(g.values, 0);
    assert(c =~= head + (vals + tail));
    assert(c[0] == head[0]);
    assert(data.word_at(SeccompData::spec_args(g.index)) == Some(w));
    lemma_step_load(c, 0, acc, data, w);
    lemma_run_suffix(head, vals + tail, 0, w, data);
    lemma_values_run(g.values, 0, tail, w, data);
    assert(has_value_from(g.values, w, 0) == g.values.contains(w));
    assert(tail[0] == out[0]);
    if g.values.contains(w) {
        lemma_run_suffix(out, rest, 0, w, data);
    } else {
        assert(tail[after - 1] == rest[after - 2]);
        lemma_step_jump(tail, 0, w, data);
        lemma_step_ret(tail, after - 1, w, data);
    }
}

/// The groups of a rule from `from` on, run before `rest`, which ends in
/// the two terminals: a call that passes them all is allowed, any other is
/// rejected.
pub proof fn lemma_groups_run(
    groups: Seq<GroupModel>,
    from: int,
    after: int,
    rest: Seq<SockFilter>,
    deny: u32,
    acc: u32,
    data: SeccompData,
)
    requires
        0 <= from <= groups.len(),
        forall|i: int| 0 <= i < groups.len() ==> (#[trigger] groups[i]).in_range(),
        rest.len() == after,
        after >= 2,
        groups_size(groups, from) + 1 + after <= u32::MAX,
        rest[after - 2] == ret_insn(deny),
        rest[after - 1] == ret_insn(SECCOMP_RET_ALLOW),
    ensures
        run_from(groups_code(groups, from, after) + rest, 0, acc, data) == Some(
            if groups_admit_from(groups, from, data) {
                SECCOMP_RET_ALLOW
            } else {
                deny
            },
        ),
    decreases groups.len() - from,
{
    let c = groups_code(groups, from, after) + rest;
    if from >= groups.len() {
        assert(c[0] == jump_insn((after - 1) as u32));
        assert(c[after] == rest[after - 1]);
        lemma_step_jump(c, 0, acc, data);
        lemma_step_ret(c, after, acc, data);
    } else {
        let g = groups[from];
        let inner = groups_size(groups, from + 1) + 1 + after;
        let block = group_code(g, inner);
        let next = groups_code(groups, from + 1, after);
        lemma_groups_code_len(groups, from + 1, after);
        assert(c =~= block + (next + rest));
        let tail = next + rest;
        assert(tail[inner - 2] == rest[after - 2]);
        lemma_group_run(g, inner, tail, deny, acc, data);
        lemma_groups_run(groups, from + 1, after, rest, deny, data.arg_word(g.index as int), data);
        if g.admits(data) {
            assert(groups_admit_from(groups, from, data) == groups_admit_from(
                groups,
                from + 1,
                data,
            ));
        } else {
            assert(!groups_admit_from(groups, from, data));
        }
    }
}

/// The rules from `from` on and the terminals, run with the call's number
/// in the accumulator, return what the first rule for that number decides.
pub proof fn lemma_rules_run(rules: Seq<RuleModel>, from: int, deny: u32, data: SeccompData)
    requires
        0 <= from <= rules.len(),
        policy_in_range(rules),
        rules_size(rules, from) + 2 <= u32::MAX,
    ensures
        run_from(rules_code(rules, from, deny), 0, data.nr, data) == Some(
            first_match(rules, from, deny, data),
        ),
    decreases rules.len() - from,
{
    let c = rules_code(rules, from, deny);
    lemma_rules_code_len(rules, from, deny);
    if from < rules.len() {
        let r = rules[from];
        let after = rules_size(rules, from + 1) as int + 2;
        let rest = rules_code(rules, from + 1, deny);
        let block = rule_code(r, after);
        lemma_rules_code_len(rules, from + 1, deny);
        lemma_rule_code_len(r, after);
        lemma_rules_run(rules, from + 1, deny, data);
        assert(c == block + rest);
        assert(r.in_range());
        if r.groups.len() == 0 {
            assert(c[0] == block[0]);
            assert(c[1] == block[1]);
            if r.syscall == data.nr {
                assert(branch_offset(c[0], data.nr) == 0);
                assert(c[after + 1] == rest[after - 1]);
                assert(groups_admit_from(r.groups, 0, data));
                lemma_step_jeq(c, 0, data.nr, data);
                lemma_step_jump(c, 1, data.nr, data);
                lemma_step_ret(c, after + 1, data.nr, data);
            } else {
                assert(branch_offset(c[0], data.nr) == 1);
                lemma_step_jeq(c, 0, data.nr, data);
                lemma_run_suffix(block, rest, 0, data.nr, data);
            }
        } else {
            let head = seq![
                jeq_insn(r.syscall, 1, 0),
                jump_insn((groups_size(r.groups, 0) + 1) as u32),
            ];
            let body = groups_code(r.groups, 0, after);
            lemma_groups_code_len(r.groups, 0, after);
            assert(block == head + body);
            assert(c =~= head + (body + rest));
            assert(c[0] == head[0]);
            assert(c[1] == head[1]);
            if r.syscall == data.nr {
                assert(branch_offset(c[0], data.nr) == 1);
                lemma_step_jeq(c, 0, data.nr, data);
                lemma_run_suffix(head, body + rest, 0, data.nr, data);
                lemma_groups_run(r.groups, 0, after, rest, deny, data.nr, data);
            } else {
                assert(branch_offset(c[0], data.nr) == 0);
                lemma_step_jeq(c, 0, data.nr, data);
                lemma_step_jump(c, 1, data.nr, data);
                lemma_run_suffix(block, rest, 0, data.nr, data);
            }
        }
    }
}

/// A compiled program returns, for every call, what the first rule for the
/// call's number decides, and the rejecting action if there is none.
pub proof fn lemma_program_runs_first_match(rules: Seq<RuleModel>, deny: u32, data: SeccompData)
    requires
        policy_in_range(rules),
        program_size(rules) <= u32::MAX,
    ensures
        run(program(rules, deny), data) == Some(first_match(rules, 0, deny, data)),
{
    let head = seq![load_insn(SECCOMP_DATA_NR)];
    let body = rules_code(rules, 0, deny);
    let p = program(rules, deny);
    lemma_rules_code_len(rules, 0, deny);
    assert(p[0] == head[0]);
    assert(data.word_at(SECCOMP_DATA_NR) == Some(data.nr));
    lemma_step_load(p, 0, 0, data, data.nr);
    lemma_run_suffix(head, body, 0, data.nr, data);
    lemma_rules_run(rules, 0, deny, data);
}

/// Where no two rules share a number, the first rule for a call's number
/// is the only one, so it decides as the policy as a whole does.
pub proof fn lemma_first_match_is_decision(
    rules: Seq<RuleModel>,
    from: int,
    deny: u32,
    data: SeccompData,
)
    requires
        0 <= from <= rules.len(),
        distinct_syscalls(rules),
        deny != SECCOMP_RET_ALLOW,
    ensures
        first_match(rules, from, deny, data) == SECCOMP_RET_ALLOW <==> exists|i: int|
            from <= i < rules.len() && (#[trigger] rules[i]).admits(data),
        first_match(rules, from, deny, data) == SECCOMP_RET_ALLOW || first_match(
            rules,
            from,
            deny,
            data,
        ) == deny,
    decreases rules.len() - from,
{
    if from < rules.len() {
        lemma_first_match_is_decision(rules, from + 1, deny, data);
        let r = rules[from];
        if r.syscall == data.nr {
            assert(groups_admit_from(r.groups, 0, data) == r.admits(data));
            if !r.admits(data) {
                assert forall|i: int| from <= i < rules.len() implies !(#[trigger] rules[i]).admits(
                    data,
                ) by {
                    if i > from {
                        assert(rules[from].syscall != rules[i].syscall);
                    }
                }
            }
        } else {
            assert(!r.admits(data));
        }
    }
}

/// A compiled program returns the allowing action for exactly the calls
/// the policy permits, and the rejecting action for every other call.
pub proof fn lemma_program_decides(rules: Seq<RuleModel>, deny: u32, data: SeccompData)
    requires
        policy_in_range(rules),
        distinct_syscalls(rules),
        program_size(rules) <= u32::MAX,
        deny != SECCOMP_RET_ALLOW,
    ensures
        run(program(rules, deny), data) == Some(decision(rules, deny, data)),
{
    lemma_program_runs_first_match(rules, deny, data);
    lemma_first_match_is_decision(rules, 0, deny, data);
}

} // verus!
