//! The rule model: one permitted system call, optionally narrowed by the
//! values its arguments may take.

use vstd::prelude::*;
use crate::bpf::SeccompData;

verus! {

/// How an argument is compared with a constraint's value. Equality is the
/// only comparison a rule needs today; the enumeration is open so that
/// others can join it.
#[non_exhaustive]
#[derive(Clone, Copy, Debug, PartialEq, Eq, Structural)]
pub enum SeccompCmpOpt {
    /// The argument equals the value.
    Eq,
}

/// The values one argument may take: the call passes the group if the
/// argument's lower word equals any of them.
pub struct GroupModel {
    /// Which of the six arguments the group constrains.
    pub index: u32,
    /// The accepted values, in the order they were added.
    pub values: Seq<u32>,
}

/// One rule: a system call and the groups that all have to pass.
pub struct RuleModel {
    /// The system call the rule permits.
    pub syscall: u32,
    /// The constraint groups, in the order their indices first appeared.
    pub groups: Seq<GroupModel>,
}

/// The position of the first group from `from` on that constrains argument
/// `index`, or the number of groups if there is none.
pub open spec fn find_group(groups: Seq<GroupModel>, index: u32, from: int) -> int
    decreases groups.len() - from,
{
    if from < 0 || from >= groups.len() {
        groups.len() as int
    } else if groups[from].index == index {
        from
    } else {
        find_group(groups, index, from + 1)
    }
}

impl GroupModel {
    /// A group with a single accepted value.
    pub open spec fn single(index: u32, value: u32) -> GroupModel {
        GroupModel { index, values: seq![value] }
    }

    /// The same group with `value` as one more alternative.
    pub open spec fn or_value(self, value: u32) -> GroupModel {
        GroupModel { index: self.index, values: self.values.push(value) }
    }

    /// Whether the group names one of the six arguments.
    pub open spec fn in_range(self) -> bool {
        self.index < 6
    }

    /// Whether the call `data` passes the group: the constrained argument
    /// equals one of the accepted values.
    pub open spec fn admits(self, data: SeccompData) -> bool {
        self.in_range() && self.values.contains(data.arg_word(self.index as int))
    }
}

impl RuleModel {
    /// A rule for `syscall` without constraints.
    pub open spec fn plain(syscall: u32) -> RuleModel {
        RuleModel { syscall, groups: Seq::empty() }
    }

    /// Every group accepts at least one value, and no two groups constrain
    /// the same argument.
    pub open spec fn wf(self) -> bool {
        &&& forall|i: int| 0 <= i < self.groups.len() ==> (#[trigger] self.groups[i]).values.len() > 0
        &&& forall|i: int, j: int|
            0 <= i < j < self.groups.len() ==> (#[trigger] self.groups[i]).index != (
            #[trigger] self.groups[j]).index
    }

    /// Every group names one of the six arguments.
    pub open spec fn in_range(self) -> bool {
        forall|i: int| 0 <= i < self.groups.len() ==> (#[trigger] self.groups[i]).in_range()
    }

    /// The rule after one more constraint: `value` joins the group of
    /// argument `index` if there is one, else it starts a new group.
    pub open spec fn with_constraint(self, index: u32, value: u32) -> RuleModel {
        let at = find_group(self.groups, index, 0);
        if at < self.groups.len() {
            RuleModel {
                syscall: self.syscall,
                groups: self.groups.update(at, self.groups[at].or_value(value)),
            }
        } else {
            RuleModel {
                syscall: self.syscall,
                groups: self.groups.push(GroupModel::single(index, value)),
            }
        }
    }

    /// Whether the rule permits the call `data`: the system call number is
    /// the rule's, and every group passes.
    pub open spec fn admits(self, data: SeccompData) -> bool {
        &&& data.nr == self.syscall
        &&& forall|i: int| 0 <= i < self.groups.len() ==> (#[trigger] self.groups[i]).admits(data)
    }
}

/// What `find_group` returns: a position in range whose group has the index
/// and before which none has, or the length if no group has it.
pub proof fn lemma_find_group(groups: Seq<GroupModel>, index: u32, from: int)
    requires
        0 <= from <= groups.len(),
    ensures
        from <= find_group(groups, index, from) <= groups.len(),
        find_group(groups, index, from) < groups.len() ==> groups[find_group(
            groups,
            index,
            from,
        )].index == index,
        forall|i: int| from <= i < find_group(groups, index, from) ==> (#[trigger] groups[i]).index != index,
    decreases groups.len() - from,
{
    if from < groups.len() && groups[from].index != index {
        lemma_find_group(groups, index, from + 1);
    }
}

/// A constraint group of a rule under construction.
#[derive(Debug)]
pub struct ConstraintGroup {
    index: u32,
    values: Vec<u32>,
}

impl View for ConstraintGroup {
    type V = GroupModel;

    closed spec fn view(&self) -> GroupModel {
        GroupModel { index: self.index, values: self.values@ }
    }
}

impl ConstraintGroup {
    /// The argument this group constrains.
    pub fn index(&self) -> (r: u32)
        ensures
            r == self@.index,
    {
        self.index
    }

    /// The accepted values.
    pub fn values(&self) -> (r: &Vec<u32>)
        ensures
            r@ == self@.values,
    {
        &self.values
    }
}

/// A rule that permits one system call, built up by chained calls.
#[derive(Debug)]
pub struct BpfRule {
    syscall: u32,
    groups: Vec<ConstraintGroup>,
}

impl View for BpfRule {
    type V = RuleModel;

    closed spec fn view(&self) -> RuleModel {
        RuleModel { syscall: self.syscall, groups: groups_view(self.groups@) }
    }
}

/// The models of a list of groups, in order.
pub open spec fn groups_view(groups: Seq<ConstraintGroup>) -> Seq<GroupModel> {
    Seq::new(groups.len(), |i: int| groups[i]@)
}

/// The models of a list of rules, in order.
pub open spec fn rules_view(rules: Seq<BpfRule>) -> Seq<RuleModel> {
    Seq::new(rules.len(), |i: int| rules[i]@)
}

/// The system call number as the filter sees it: the lower 32 bits.
pub open spec fn syscall_word(syscall_num: i64) -> u32 {
    (syscall_num & 0xffff_ffff) as u32
}

/// The lower 32 bits of a system call number.
fn syscall_low(syscall_num: i64) -> (r: u32)
    ensures
        r == syscall_word(syscall_num),
        0 <= syscall_num <= u32::MAX ==> r == syscall_num,
{
    let masked: i64 = syscall_num & 0xffff_ffff;
    assert(0 <= masked <= 0xffff_ffff) by (bit_vector)
        requires
            masked == syscall_num & 0xffff_ffff,
    ;
    assert(0 <= syscall_num <= 0xffff_ffff ==> syscall_num & 0xffff_ffff == syscall_num)
        by (bit_vector);
    masked as u32
}

impl Clone for ConstraintGroup {
    /// A group for the same argument with the same values.
    fn clone(&self) -> (r: ConstraintGroup)
        ensures
            r@ == self@,
    {
        let values: Vec<u32> = self.values.clone();
        assert(values@ =~= self.values@);
        ConstraintGroup { index: self.index, values }
    }
}

impl Clone for BpfRule {
    /// A rule for the same call with the same groups.
    fn clone(&self) -> (r: BpfRule)
        ensures
            r@ == self@,
    {
        proof {
            use_type_invariant(self);
        }
        let n: usize = self.groups.len();
        let mut groups: Vec<ConstraintGroup> = Vec::new();
        let mut i: usize = 0;
        while i < n
            invariant
                i <= n,
                n == self.groups.len(),
                groups@.len() == i,
                forall|k: int| 0 <= k < i ==> (#[trigger] groups@[k])@ == self.groups@[k]@,
            decreases n - i,
        {
            groups.push(self.groups[i].clone());
            i = i + 1;
        }
        assert(groups_view(groups@) =~= groups_view(self.groups@));
        BpfRule { syscall: self.syscall, groups }
    }
}

impl BpfRule {
    #[verifier::type_invariant]
    spec fn inv(&self) -> bool {
        self@.wf()
    }

    /// A rule that permits `syscall_num` whatever its arguments.
    pub fn new(syscall_num: i64) -> (r: BpfRule)
        ensures
            r@ == RuleModel::plain(syscall_word(syscall_num)),
            0 <= syscall_num <= u32::MAX ==> r@.syscall == syscall_num,
            r@.wf(),
    {
        let groups: Vec<ConstraintGroup> = Vec::new();
        assert(groups_view(groups@) =~= Seq::empty());
        BpfRule { syscall: syscall_low(syscall_num), groups }
    }

    /// Adds the constraint that argument `args_idx` equals `args_value`.
    /// A further constraint on an argument already constrained is one more
    /// alternative for it; a constraint on another argument has to hold as
    /// well.
    pub fn add_constraint(self, op: SeccompCmpOpt, args_idx: u32, args_value: u32) -> (r: BpfRule)
        ensures
            r@ == self@.with_constraint(args_idx, args_value),
            r@.wf(),
    {
        proof {
            use_type_invariant(&self);
            lemma_find_group(self@.groups, args_idx, 0);
        }
        match op {
            SeccompCmpOpt::Eq => {},
        }
        let at: usize = self.position(args_idx);
        let BpfRule { syscall, groups } = self;
        let mut groups = groups;
        if at < groups.len() {
            groups[at].values.push(args_value);
        } else {
            let mut values: Vec<u32> = Vec::new();
            values.push(args_value);
            groups.push(ConstraintGroup { index: args_idx, values });
        }
        proof {
            let before = self@.groups;
            let after = groups_view(groups@);
            assert(after =~= self@.with_constraint(args_idx, args_value).groups);
            assert forall|i: int| 0 <= i < after.len() implies (#[trigger] after[i]).values.len()
                > 0 by {
                if i < before.len() && i != at {
                    assert(after[i] == before[i]);
                }
            }
            assert forall|i: int, j: int| 0 <= i < j < after.len() implies (#[trigger] after[i]).index
                != (#[trigger] after[j]).index by {
                if j < before.len() {
                    assert(after[i].index == before[i].index);
                    assert(after[j].index == before[j].index);
                } else {
                    assert(after[i].index == before[i].index);
                }
            }
        }
        BpfRule { syscall, groups }
    }

    /// The position of the group that constrains argument `index`, or the
    /// number of groups.
    fn position(&self, index: u32) -> (r: usize)
        ensures
            r == find_group(self@.groups, index, 0),
            r <= self.groups@.len(),
    {
        let n: usize = self.groups.len();
        let mut i: usize = 0;
        while i < n && self.groups[i].index != index
            invariant
                n == self.groups.len(),
                i <= n,
                find_group(self@.groups, index, 0) == find_group(self@.groups, index, i as int),
            decreases n - i,
        {
            i = i + 1;
        }
        proof {
            lemma_find_group(self@.groups, index, 0);
        }
        i
    }

    /// The system call this rule permits.
    pub fn syscall(&self) -> (r: u32)
        ensures
            r == self@.syscall,
            self@.wf(),
    {
        proof {
            use_type_invariant(self);
        }
        self.syscall
    }

    /// The constraint groups of this rule.
    pub fn groups(&self) -> (r: &Vec<ConstraintGroup>)
        ensures
            groups_view(r@) == self@.groups,
            self@.wf(),
    {
        proof {
            use_type_invariant(self);
        }
        &self.groups
    }
}

/// Whether some rule of the list permits the call `data`.
pub open spec fn policy_allows(rules: Seq<RuleModel>, data: SeccompData) -> bool {
    exists|i: int| 0 <= i < rules.len() && (#[trigger] rules[i]).admits(data)
}

} // verus!
