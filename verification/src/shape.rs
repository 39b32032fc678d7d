//! The form of a compiled program: loads read the descriptor, branches land
//! inside the program, and the only returns are the two at the end.

use vstd::prelude::*;
use crate::bpf::{
    SockFilter, SeccompData, load_insn, jeq_insn, jump_insn, ret_insn, BPF_LD_W_ABS,
    BPF_JMP_JEQ_K, BPF_JMP_JA, SECCOMP_RET_ALLOW, SECCOMP_DATA_NR,
};
use crate::rule::{GroupModel, RuleModel};
use crate::layout::{
    group_size, groups_size, rule_size, rules_size, program_size, values_code, group_code,
    groups_code, rule_code, rules_code, program, policy_in_range, lemma_values_code_len,
    lemma_groups_code_len, lemma_rule_code_len, lemma_rules_code_len,
};

verus! {

/// Whether `insn`, with `after` instructions behind it, is a load of a
/// word of the descriptor that is followed by an instruction, or a branch
/// whose every target is one of the instructions behind it.
pub open spec fn lands(insn: SockFilter, after: int) -> bool {
    if insn.code == BPF_LD_W_ABS {
        insn.k < 64 && insn.k % 4 == 0 && after >= 1
    } else if insn.code == BPF_JMP_JEQ_K {
        insn.jt < after && insn.jf < after
    } else if insn.code == BPF_JMP_JA {
        insn.k < after
    } else {
        false
    }
}

/// Whether every instruction of `code`, which `after` instructions follow,
/// is a load or a branch that lands.
pub open spec fn all_land(code: Seq<SockFilter>, after: int) -> bool {
    forall|p: int| 0 <= p < code.len() ==> lands(#[trigger] code[p], code.len() - p - 1 + after)
}

/// Whether `prog` has the form of a filter: it ends in the rejecting and
/// the allowing return, and every instruction before them is a load or a
/// branch that lands inside the program.
pub open spec fn well_formed(prog: Seq<SockFilter>, deny: u32) -> bool {
    &&& prog.len() >= 3
    &&& prog[prog.len() - 2] == ret_insn(deny)
    &&& prog[prog.len() - 1] == ret_insn(SECCOMP_RET_ALLOW)
    &&& all_land(prog.take(prog.len() - 2), 2)
}

/// Two pieces whose instructions land, joined, are a piece whose
/// instructions land.
pub proof fn lemma_all_land_joined(a: Seq<SockFilter>, b: Seq<SockFilter>, after: int)
    requires
        all_land(a, b.len() + after),
        all_land(b, after),
    ensures
        all_land(a + b, after),
{
    let c = a + b;
    assert forall|p: int| 0 <= p < c.len() implies lands(
        #[trigger] c[p],
        c.len() - p - 1 + after,
    ) by {
        if p < a.len() {
            assert(c[p] == a[p]);
        } else {
            assert(c[p] == b[p - a.len()]);
        }
    }
}

/// The comparisons of a group land, given two instructions behind them.
pub proof fn lemma_values_land(values: Seq<u32>, from: int, after: int)
    requires
        0 <= from <= values.len(),
        2 * values.len() <= u32::MAX,
        after >= 2,
    ensures
        all_land(values_code(values, from), after),
    decreases values.len() - from,
{
    if from < values.len() {
        let pair = seq![
            jeq_insn(values[from], 0, 1),
            jump_insn((2 * (values.len() - from) - 1) as u32),
        ];
        let next = values_code(values, from + 1);
        lemma_values_land(values, from + 1, after);
        lemma_values_code_len(values, from + 1);
        assert(all_land(pair, next.len() + after)) by {
            assert(lands(pair[0], 1 + next.len() + after));
            assert(lands(pair[1], next.len() + after));
        }
        lemma_all_land_joined(pair, next, after);
    }
}

/// The block of a group lands.
pub proof fn lemma_group_lands(g: GroupModel, after: int)
    requires
        g.in_range(),
        after >= 2,
        group_size(g) + after <= u32::MAX,
    ensures
        all_land(group_code(g, after), after),
{
    let head = seq![load_insn(SeccompData::spec_args(g.index))];
    let vals = values_code(g.values, 0);
    let out = seq![jump_insn((after - 2) as u32)];
    lemma_values_code_len(g.values, 0);
    lemma_values_land(g.values, 0, 1 + after);
    assert(all_land(out, after)) by {
        assert(lands(out[0], after));
    }
    lemma_all_land_joined(vals, out, after);
    assert(all_land(head, (vals + out).len() + after)) by {
        assert(lands(head[0], (vals + out).len() + after));
    }
    lemma_all_land_joined(head, vals + out, after);
    assert(group_code(g, after) =~= head + (vals + out));
}

/// The blocks of the groups of a rule and the closing jump land.
pub proof fn lemma_groups_land(groups: Seq<GroupModel>, from: int, after: int)
    requires
        0 <= from <= groups.len(),
        forall|i: int| 0 <= i < groups.len() ==> (#[trigger] groups[i]).in_range(),
        after >= 2,
        groups_size(groups, from) + 1 + after <= u32::MAX,
    ensures
        all_land(groups_code(groups, from, after), after),
    decreases groups.len() - from,
{
    if from >= groups.len() {
        let last = groups_code(groups, from, after);
        assert(lands(last[0], after));
    } else {
        let inner = groups_size(groups, from + 1) + 1 + after;
        let block = group_code(groups[from], inner);
        let next = groups_code(groups, from + 1, after);
        lemma_groups_code_len(groups, from + 1, after);
        lemma_groups_land(groups, from + 1, after);
        lemma_group_lands(groups[from], inner);
        lemma_all_land_joined(block, next, after);
    }
}

/// The block of a rule lands.
pub proof fn lemma_rule_lands(r: RuleModel, after: int)
    requires
        r.in_range(),
        after >= 2,
        rule_size(r) + after <= u32::MAX,
    ensures
        all_land(rule_code(r, after), after),
{
    if r.groups.len() == 0 {
        let block = rule_code(r, after);
        assert(lands(block[0], 1 + after));
        assert(lands(block[1], after));
    } else {
        let head = seq![
            jeq_insn(r.syscall, 1, 0),
            jump_insn((groups_size(r.groups, 0) + 1) as u32),
        ];
        let body = groups_code(r.groups, 0, after);
        lemma_groups_code_len(r.groups, 0, after);
        lemma_groups_land(r.groups, 0, after);
        assert(all_land(head, body.len() + after)) by {
            assert(lands(head[0], 1 + body.len() + after));
            assert(lands(head[1], body.len() + after));
        }
        lemma_all_land_joined(head, body, after);
    }
}

/// The blocks of the rules from `from` on land, the terminals left aside.
pub proof fn lemma_rules_land(rules: Seq<RuleModel>, from: int, deny: u32)
    requires
        0 <= from <= rules.len(),
        policy_in_range(rules),
        rules_size(rules, from) + 2 <= u32::MAX,
    ensures
        all_land(rules_code(rules, from, deny).take(rules_size(rules, from) as int), 2),
    decreases rules.len() - from,
{
    let code = rules_code(rules, from, deny);
    lemma_rules_code_len(rules, from, deny);
    if from < rules.len() {
        let after = rules_size(rules, from + 1) as int + 2;
        let block = rule_code(rules[from], after);
        let rest = rules_code(rules, from + 1, deny);
        let inner = rest.take(rules_size(rules, from + 1) as int);
        lemma_rules_code_len(rules, from + 1, deny);
        lemma_rule_code_len(rules[from], after);
        lemma_rules_land(rules, from + 1, deny);
        assert(rules[from].in_range());
        lemma_rule_lands(rules[from], after);
        lemma_all_land_joined(block, inner, 2);
        assert(code.take(rules_size(rules, from) as int) =~= block + inner);
    }
}

/// A compiled program has the form of a filter.
pub proof fn lemma_program_well_formed(rules: Seq<RuleModel>, deny: u32)
    requires
        policy_in_range(rules),
        program_size(rules) <= u32::MAX,
    ensures
        well_formed(program(rules, deny), deny),
{
    let head = seq![load_insn(SECCOMP_DATA_NR)];
    let body = rules_code(rules, 0, deny);
    let inner = body.take(rules_size(rules, 0) as int);
    let p = program(rules, deny);
    lemma_rules_code_len(rules, 0, deny);
    lemma_rules_land(rules, 0, deny);
    assert(all_land(head, inner.len() as int + 2)) by {
        assert(lands(head[0], inner.len() as int + 2));
    }
    lemma_all_land_joined(head, inner, 2);
    assert(p.take(p.len() - 2) =~= head + inner);
    assert(p[p.len() - 2] == body[rules_size(rules, 0) as int]);
    assert(p[p.len() - 1] == body[rules_size(rules, 0) as int + 1]);
}

} // verus!
