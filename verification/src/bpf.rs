//! The filter instruction format, the per-call descriptor it reads, and the
//! meaning of a filter program.

use vstd::prelude::*;

verus! {

/// Opcode: load the 32-bit word at byte offset `k` of the descriptor.
pub const BPF_LD_W_ABS: u16 = 0x20;

/// Opcode: skip `jt` instructions if the accumulator equals `k`, else `jf`.
pub const BPF_JMP_JEQ_K: u16 = 0x15;

/// Opcode: skip `k` instructions unconditionally.
pub const BPF_JMP_JA: u16 = 0x05;

/// Opcode: stop and return the action code `k`.
pub const BPF_RET_K: u16 = 0x06;

/// Action code that lets the system call proceed.
pub const SECCOMP_RET_ALLOW: u32 = 0x7fff_0000;

/// Action code that kills the calling thread.
pub const SECCOMP_RET_KILL: u32 = 0x0000_0000;

/// Action code that delivers a trap signal to the calling thread.
pub const SECCOMP_RET_TRAP: u32 = 0x0003_0000;

/// Size in bytes of the descriptor a filter may read.
pub const SECCOMP_DATA_SIZE: u32 = 64;

/// Byte offset of the system call number in the descriptor.
pub const SECCOMP_DATA_NR: u32 = 0;

/// Byte offset of the first argument in the descriptor.
pub const SECCOMP_DATA_ARGS: u32 = 16;

/// Number of arguments a system call carries.
pub const SECCOMP_ARGS: u32 = 6;

/// What the kernel does with a call that the filter rejects.
#[derive(Clone, Copy, Debug, PartialEq, Eq, Structural)]
pub enum SeccompOpt {
    /// The thread is killed at once.
    Kill,
    /// The thread receives a trap that the host can observe.
    Trap,
}

impl SeccompOpt {
    /// The action code of this disposition.
    pub open spec fn spec_code(self) -> u32 {
        match self {
            SeccompOpt::Kill => SECCOMP_RET_KILL,
            SeccompOpt::Trap => SECCOMP_RET_TRAP,
        }
    }

    /// The action code of this disposition.
    #[verifier::when_used_as_spec(spec_code)]
    pub fn code(self) -> (r: u32)
        ensures
            r == self.spec_code(),
            r != SECCOMP_RET_ALLOW,
    {
        match self {
            SeccompOpt::Kill => SECCOMP_RET_KILL,
            SeccompOpt::Trap => SECCOMP_RET_TRAP,
        }
    }
}

/// One filter instruction, in the layout the kernel expects.
#[derive(Clone, Copy, Debug, PartialEq, Eq, Structural)]
pub struct SockFilter {
    /// Opcode.
    pub code: u16,
    /// Instructions to skip when a comparison holds.
    pub jt: u8,
    /// Instructions to skip when a comparison fails.
    pub jf: u8,
    /// Immediate operand: an offset, a value to compare with, or an action.
    pub k: u32,
}

/// The instruction that loads the descriptor word at byte offset `offset`.
pub open spec fn load_insn(offset: u32) -> SockFilter {
    SockFilter { code: BPF_LD_W_ABS, jt: 0, jf: 0, k: offset }
}

/// The instruction that compares the accumulator with `value` and skips
/// `jt` instructions on equality, `jf` otherwise.
pub open spec fn jeq_insn(value: u32, jt: u8, jf: u8) -> SockFilter {
    SockFilter { code: BPF_JMP_JEQ_K, jt, jf, k: value }
}

/// The instruction that skips `offset` instructions.
pub open spec fn jump_insn(offset: u32) -> SockFilter {
    SockFilter { code: BPF_JMP_JA, jt: 0, jf: 0, k: offset }
}

/// The instruction that returns `action`.
pub open spec fn ret_insn(action: u32) -> SockFilter {
    SockFilter { code: BPF_RET_K, jt: 0, jf: 0, k: action }
}

/// Builds a statement: an instruction without branch offsets.
pub fn bpf_stmt(code: u16, k: u32) -> (r: SockFilter)
    ensures
        r == (SockFilter { code, jt: 0, jf: 0, k }),
{
    SockFilter { code, jt: 0, jf: 0, k }
}

/// Builds a conditional branch.
pub fn bpf_jump(code: u16, k: u32, jt: u8, jf: u8) -> (r: SockFilter)
    ensures
        r == (SockFilter { code, jt, jf, k }),
{
    SockFilter { code, jt, jf, k }
}

/// The descriptor of one system call, as the kernel presents it to a filter.
#[derive(Clone, Copy, Debug, PartialEq, Eq)]
pub struct SeccompData {
    /// System call number.
    pub nr: u32,
    /// Architecture tag of the calling convention.
    pub arch: u32,
    /// Address of the instruction that made the call.
    pub instruction_pointer: u64,
    /// The six argument words.
    pub args: [u64; 6],
}

/// The lower 32 bits of a 64-bit word.
pub open spec fn low_word(x: u64) -> u32 {
    (x & 0xffff_ffff) as u32
}

/// The upper 32 bits of a 64-bit word.
pub open spec fn high_word(x: u64) -> u32 {
    (x >> 32) as u32
}

impl SeccompData {
    /// Byte offset of the system call number.
    pub fn nr() -> (r: u32)
        ensures
            r == SECCOMP_DATA_NR,
    {
        SECCOMP_DATA_NR
    }

    /// Byte offset of the lower word of argument `index`.
    pub open spec fn spec_args(index: u32) -> u32
        recommends
            index < SECCOMP_ARGS,
    {
        (SECCOMP_DATA_ARGS + 8 * index) as u32
    }

    /// Byte offset of the lower word of argument `index`.
    #[verifier::when_used_as_spec(spec_args)]
    pub fn args(index: u32) -> (r: u32)
        requires
            index < SECCOMP_ARGS,
        ensures
            r == Self::spec_args(index),
            r == 16 + 8 * index,
    {
        SECCOMP_DATA_ARGS + 8 * index
    }

    /// The lower 32 bits of argument `index`: the word a rule compares.
    pub open spec fn arg_word(self, index: int) -> u32
        recommends
            0 <= index < 6,
    {
        low_word(self.args@[index])
    }

    /// The 32-bit word at byte offset `offset`, if a filter may load it.
    /// Words are laid out little-endian.
    pub open spec fn word_at(self, offset: u32) -> Option<u32> {
        if offset == 0 {
            Some(self.nr)
        } else if offset == 4 {
            Some(self.arch)
        } else if offset == 8 {
            Some(low_word(self.instruction_pointer))
        } else if offset == 12 {
            Some(high_word(self.instruction_pointer))
        } else if 16 <= offset < 64 && offset % 8 == 0 {
            Some(low_word(self.args@[(offset - 16) / 8]))
        } else if 16 <= offset < 64 && offset % 8 == 4 {
            Some(high_word(self.args@[(offset - 20) / 8]))
        } else {
            None
        }
    }

    /// Loads the 32-bit word at byte offset `offset`.
    pub fn load(&self, offset: u32) -> (r: Option<u32>)
        ensures
            r == self.word_at(offset),
    {
        if offset == 0 {
            Some(self.nr)
        } else if offset == 4 {
            Some(self.arch)
        } else if offset == 8 {
            Some(low_half(self.instruction_pointer))
        } else if offset == 12 {
            Some(high_half(self.instruction_pointer))
        } else if 16 <= offset && offset < 64 && offset % 8 == 0 {
            let i: usize = ((offset - 16) / 8) as usize;
            Some(low_half(self.args[i]))
        } else if 16 <= offset && offset < 64 && offset % 8 == 4 {
            let i: usize = ((offset - 20) / 8) as usize;
            Some(high_half(self.args[i]))
        } else {
            None
        }
    }
}

/// The lower 32 bits of `x`.
pub fn low_half(x: u64) -> (r: u32)
    ensures
        r == low_word(x),
{
    let masked: u64 = x & 0xffff_ffff;
    assert(masked <= 0xffff_ffff) by (bit_vector)
        requires
            masked == x & 0xffff_ffff,
    ;
    masked as u32
}

/// The upper 32 bits of `x`.
pub fn high_half(x: u64) -> (r: u32)
    ensures
        r == high_word(x),
{
    let shifted: u64 = x >> 32;
    assert(shifted <= 0xffff_ffff) by (bit_vector)
        requires
            shifted == x >> 32,
    ;
    shifted as u32
}

/// How many instructions the conditional branch `insn` skips when the
/// accumulator holds `acc`.
pub open spec fn branch_offset(insn: SockFilter, acc: u32) -> nat {
    if acc == insn.k {
        insn.jt as nat
    } else {
        insn.jf as nat
    }
}

/// What running `prog` from instruction `pc` with accumulator `acc` returns
/// on the call `data`: the action code of the return instruction reached, or
/// `None` if control leaves the program or an instruction is not one of the
/// four this filter dialect has.
pub open spec fn run_from(prog: Seq<SockFilter>, pc: int, acc: u32, data: SeccompData) -> Option<u32>
    decreases prog.len() - pc,
{
    if pc < 0 || pc >= prog.len() {
        None
    } else {
        let insn = prog[pc];
        if insn.code == BPF_LD_W_ABS {
            match data.word_at(insn.k) {
                Some(w) => run_from(prog, pc + 1, w, data),
                None => None,
            }
        } else if insn.code == BPF_JMP_JEQ_K {
            let target = pc + 1 + branch_offset(insn, acc);
            if target < prog.len() {
                run_from(prog, target, acc, data)
            } else {
                None
            }
        } else if insn.code == BPF_JMP_JA {
            let target = pc + 1 + insn.k as nat;
            if target < prog.len() {
                run_from(prog, target, acc, data)
            } else {
                None
            }
        } else if insn.code == BPF_RET_K {
            Some(insn.k)
        } else {
            None
        }
    }
}

/// What `prog` returns on the call `data`.
pub open spec fn run(prog: Seq<SockFilter>, data: SeccompData) -> Option<u32> {
    run_from(prog, 0, 0, data)
}

/// Runs `prog` on `data` as the kernel would.
pub fn evaluate(prog: &Vec<SockFilter>, data: &SeccompData) -> (r: Option<u32>)
    ensures
        r == run(prog@, *data),
{
    let mut pc: usize = 0;
    let mut acc: u32 = 0;
    while pc < prog.len()
        invariant
            run_from(prog@, pc as int, acc, *data) == run(prog@, *data),
        decreases prog.len() - pc,
    {
        let insn: SockFilter = prog[pc];
        let next: usize = pc + 1;
        if insn.code == BPF_LD_W_ABS {
            match data.load(insn.k) {
                Some(w) => {
                    acc = w;
                    pc = next;
                },
                None => {
                    return None;
                },
            }
        } else if insn.code == BPF_JMP_JEQ_K {
            let off: usize = if acc == insn.k {
                insn.jt as usize
            } else {
                insn.jf as usize
            };
            if off >= prog.len() - next {
                return None;
            }
            pc = next + off;
        } else if insn.code == BPF_JMP_JA {
            let off: u32 = insn.k;
            if off as u64 >= (prog.len() - next) as u64 {
                return None;
            }
            pc = next + off as usize;
        } else if insn.code == BPF_RET_K {
            return Some(insn.k);
        } else {
            return None;
        }
    }
    None
}

} // verus!
