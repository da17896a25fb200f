//! Functions on the assembler side: a named, ordered list of instructions
//! with a declared result count. `encode` turns the list into code bytes
//! with two sweeps of label resolution (see the spec functions here for
//! exactly what those sweeps produce).

use vstd::prelude::*;
use vstd::bytes::{spec_u64_to_le_bytes, u64_to_le_bytes};
use crate::byte_vec::splice;
use crate::bin_structs::FuncRef;
use crate::instruction::{
    spec_dests_view, spec_instr_bytes1, spec_instr_size, spec_instr_wf, spec_jumps_view,
    Instruction, Literal,
};
use crate::out_bin::{spec_find_name, OutBin};

verus! {

/// Total assembled size of an instruction list (labels contribute
/// nothing).
pub open spec fn spec_code_size(instrs: Seq<Instruction>) -> int
    decreases instrs.len(),
{
    if instrs.len() == 0 {
        0
    } else {
        spec_code_size(instrs.drop_last()) + spec_instr_size(instrs.last())
    }
}

/// The destination recorded for a label name: the bytes assembled before
/// its last occurrence, or `None` when the name never occurs.
pub open spec fn spec_label_dest(instrs: Seq<Instruction>, name: Seq<char>) -> Option<int>
    decreases instrs.len(),
{
    if instrs.len() == 0 {
        None
    } else if instrs.last().spec_literal() matches Literal::Label(n) && n@ == name {
        Some(spec_code_size(instrs.drop_last()))
    } else {
        spec_label_dest(instrs.drop_last(), name)
    }
}

/// The pending symbolic jumps of an instruction list: for each `Jump`
/// literal, the byte position of its 8-byte placeholder (right after its
/// opcode byte) and the label name it waits for.
pub open spec fn spec_jump_list(instrs: Seq<Instruction>) -> Seq<(int, Seq<char>)>
    decreases instrs.len(),
{
    if instrs.len() == 0 {
        Seq::empty()
    } else {
        match instrs.last().spec_literal() {
            Literal::Jump(n) => spec_jump_list(instrs.drop_last()).push(
                (spec_code_size(instrs.drop_last()) + 1, n@),
            ),
            _ => spec_jump_list(instrs.drop_last()),
        }
    }
}

/// Assembled sizes are never negative.
pub proof fn lemma_code_size_nonneg(instrs: Seq<Instruction>)
    ensures
        spec_code_size(instrs) >= 0,
    decreases instrs.len(),
{
    if instrs.len() > 0 {
        lemma_code_size_nonneg(instrs.drop_last());
    }
}

/// Sizes add over concatenation prefixes.
pub proof fn lemma_code_size_take_succ(instrs: Seq<Instruction>, k: int)
    requires
        0 <= k < instrs.len(),
    ensures
        spec_code_size(instrs.take(k + 1)) == spec_code_size(instrs.take(k)) + spec_instr_size(
            instrs[k],
        ),
{
    assert(instrs.take(k + 1).drop_last() =~= instrs.take(k));
    assert(instrs.take(k + 1).last() == instrs[k]);
}

/// Prefix sizes never shrink.
pub proof fn lemma_code_size_take_monotonic(instrs: Seq<Instruction>, k1: int, k2: int)
    requires
        0 <= k1 <= k2 <= instrs.len(),
    ensures
        spec_code_size(instrs.take(k1)) <= spec_code_size(instrs.take(k2)),
    decreases k2 - k1,
{
    if k1 < k2 {
        lemma_code_size_take_monotonic(instrs, k1, k2 - 1);
        lemma_code_size_take_succ(instrs, k2 - 1);
        assert(spec_instr_size(instrs[k2 - 1]) >= 0);
    }
}

/// Label ordering: when one label stands before another in the same
/// function and at least one emitting (non-label) instruction separates
/// them, the later label's recorded destination is strictly greater. (Two
/// labels with nothing but labels between them share a destination, so the
/// separation is needed.)
pub proof fn lemma_label_dests_ordered(
    instrs: Seq<Instruction>,
    i: int,
    k: int,
    j: int,
    n1: Seq<char>,
    n2: Seq<char>,
)
    requires
        0 <= i < k < j < instrs.len(),
        instrs[i].spec_literal() matches Literal::Label(a) && a@ == n1,
        instrs[j].spec_literal() matches Literal::Label(b) && b@ == n2,
        !(instrs[k].spec_literal() is Label),
        forall|m: int|
            j < m < instrs.len() ==> !((#[trigger] instrs[m].spec_literal()) matches Literal::Label(
                c,
            ) && c@ == n2),
        forall|m: int|
            i < m < instrs.len() ==> !((#[trigger] instrs[m].spec_literal()) matches Literal::Label(
                c,
            ) && c@ == n1),
    ensures
        spec_label_dest(instrs, n1) == Some(spec_code_size(instrs.take(i))),
        spec_label_dest(instrs, n2) == Some(spec_code_size(instrs.take(j))),
        spec_code_size(instrs.take(j)) > spec_code_size(instrs.take(i)),
{
    lemma_label_dest_at(instrs, i, n1);
    lemma_label_dest_at(instrs, j, n2);
    lemma_code_size_take_monotonic(instrs, i + 1, k);
    lemma_code_size_take_succ(instrs, i);
    lemma_code_size_take_succ(instrs, k);
    lemma_code_size_take_monotonic(instrs, k + 1, j);
    assert(spec_instr_size(instrs[k]) >= 1);
    assert(spec_instr_size(instrs[i]) == 0);
}

/// The destination of a label whose name has no later occurrence is the
/// assembled size of everything before it.
pub proof fn lemma_label_dest_at(instrs: Seq<Instruction>, i: int, name: Seq<char>)
    requires
        0 <= i < instrs.len(),
        instrs[i].spec_literal() matches Literal::Label(a) && a@ == name,
        forall|m: int|
            i < m < instrs.len() ==> !((#[trigger] instrs[m].spec_literal()) matches Literal::Label(
                c,
            ) && c@ == name),
    ensures
        spec_label_dest(instrs, name) == Some(spec_code_size(instrs.take(i))),
    decreases instrs.len(),
{
    if i == instrs.len() - 1 {
        assert(instrs.take(i) =~= instrs.drop_last());
    } else {
        lemma_label_dest_at(instrs.drop_last(), i, name);
        assert(instrs.drop_last().take(i) =~= instrs.take(i));
        assert(instrs.drop_last()[i] == instrs[i]);
    }
}

#[derive(Clone, Debug)]
pub struct Func {
    name: String,
    result_count: u8,
    code: Vec<Instruction>,
}

impl Func {
    pub closed spec fn spec_name(&self) -> Seq<char> {
        self.name@
    }

    pub closed spec fn spec_result_count(&self) -> u8 {
        self.result_count
    }

    pub closed spec fn spec_code(&self) -> Seq<Instruction> {
        self.code@
    }

    pub fn new(name: String, result_count: u8) -> (r: Func)
        ensures
            r.spec_name() == name@,
            r.spec_result_count() == result_count,
            r.spec_code() == Seq::<Instruction>::empty(),
    {
        let r = Func { name, result_count, code: Vec::new() };
        proof {
            assert(r.spec_code() =~= Seq::<Instruction>::empty());
        }
        r
    }

    pub fn new_with_code(name: String, result_count: u8, code: Vec<Instruction>) -> (r: Func)
        ensures
            r.spec_name() == name@,
            r.spec_result_count() == result_count,
            r.spec_code() == code@,
    {
        Func { name, result_count, code }
    }

    /// Do all instruction literals match their opcodes' families?
    pub fn instructions_well_formed(&self) -> (r: bool)
        ensures
            r == spec_instrs_wf(self.spec_code()),
    {
        let n = self.code.len();
        let mut i: usize = 0;
        while i < n
            invariant
                i <= n,
                n == self.spec_code().len(),
                forall|k: int| 0 <= k < i ==> spec_instr_wf(#[trigger] self.spec_code()[k]),
            decreases n - i,
        {
            if !self.code[i].well_formed() {
                return false;
            }
            i = i + 1;
        }
        true
    }

    /// The assembled size of this function's code, or `None` when it does
    /// not fit the wire format's u32 size field.
    pub fn assembled_size(&self) -> (r: Option<usize>)
        ensures
            match r {
                Some(sz) => sz == spec_code_size(self.spec_code()) && sz <= u32::MAX,
                None => spec_code_size(self.spec_code()) > u32::MAX,
            },
    {
        let n = self.code.len();
        let mut total: usize = 0;
        let mut i: usize = 0;
        while i < n
            invariant
                i <= n,
                n == self.spec_code().len(),
                total == spec_code_size(self.spec_code().take(i as int)),
                total <= u32::MAX,
            decreases n - i,
        {
            let instr = &self.code[i];
            let step: usize = if matches!(instr.get_literal(), Literal::Label(_)) {
                0
            } else {
                1 + instr.get_opcode().imm_size()
            };
            proof {
                lemma_code_size_take_succ(self.spec_code(), i as int);
                assert(step == spec_instr_size(self.spec_code()[i as int]));
            }
            if total > (0xffff_ffffusize) - step {
                proof {
                    assert(total + step > u32::MAX);
                    assert(spec_code_size(self.spec_code().take(i + 1)) == total + step);
                    lemma_code_size_take_monotonic(self.spec_code(), i + 1, n as int);
                    assert(self.spec_code().take(n as int) =~= self.spec_code());
                    assert(spec_code_size(self.spec_code()) >= total + step);
                }
                return None;
            }
            total = total + step;
            i = i + 1;
        }
        proof {
            assert(self.spec_code().take(n as int) =~= self.spec_code());
        }
        Some(total)
    }

    pub fn get_name(&self) -> (r: &String)
        ensures
            r@ == self.spec_name(),
    {
        &self.name
    }

    pub fn set_code(&mut self, code: Vec<Instruction>)
        ensures
            final(self).spec_code() == code@,
            final(self).spec_name() == old(self).spec_name(),
            final(self).spec_result_count() == old(self).spec_result_count(),
    {
        self.code = code;
    }

    pub fn get_code(&self) -> (r: &Vec<Instruction>)
        ensures
            r@ == self.spec_code(),
    {
        &self.code
    }

    pub fn get_mut_code(&mut self) -> (r: &mut Vec<Instruction>)
        ensures
            r@ == old(self).spec_code(),
            final(self).spec_code() == final(r)@,
            final(self).spec_name() == old(self).spec_name(),
            final(self).spec_result_count() == old(self).spec_result_count(),
    {
        &mut self.code
    }
}


/// Every instruction of a list is well-formed.
pub open spec fn spec_instrs_wf(instrs: Seq<Instruction>) -> bool {
    forall|k: int| 0 <= k < instrs.len() ==> spec_instr_wf(#[trigger] instrs[k])
}

/// Every name an instruction list relies on resolves: function and global
/// names against the builder, jump labels against the list's own labels.
pub open spec fn spec_instrs_resolvable(
    instrs: Seq<Instruction>,
    fnames: Seq<Seq<char>>,
    gnames: Seq<Seq<char>>,
) -> bool {
    forall|k: int|
        0 <= k < instrs.len() ==> match (#[trigger] instrs[k]).spec_literal() {
            Literal::Func(n) => spec_find_name(fnames, n@) is Some,
            Literal::Glob(n) => spec_find_name(gnames, n@) is Some,
            Literal::Jump(n) => spec_label_dest(instrs, n@) is Some,
            _ => true,
        }
}

/// The first sweep's output for a whole list: concatenated instruction
/// encodings, with placeholder zeros under every symbolic jump.
pub open spec fn spec_sweep1_bytes(
    instrs: Seq<Instruction>,
    fnames: Seq<Seq<char>>,
    gnames: Seq<Seq<char>>,
) -> Seq<u8>
    decreases instrs.len(),
{
    if instrs.len() == 0 {
        Seq::empty()
    } else {
        spec_sweep1_bytes(instrs.drop_last(), fnames, gnames) + spec_instr_bytes1(
            instrs.last(),
            fnames,
            gnames,
        )
    }
}

/// Last-wins lookup in the label-destination map (a later record of the
/// same name overwrites an earlier one).
pub open spec fn spec_assoc_last(dests: Seq<(Seq<char>, u64)>, name: Seq<char>) -> Option<u64>
    decreases dests.len(),
{
    if dests.len() == 0 {
        None
    } else if dests.last().0 == name {
        Some(dests.last().1)
    } else {
        spec_assoc_last(dests.drop_last(), name)
    }
}

/// `spec_label_dest` with its position as the u64 the patch writes.
pub open spec fn spec_dest_u64(instrs: Seq<Instruction>, name: Seq<char>) -> Option<u64> {
    match spec_label_dest(instrs, name) {
        Some(d) => Some(d as u64),
        None => None,
    }
}

/// The code after the first `k` pending jumps have been patched with
/// their labels' destinations.
pub open spec fn spec_patched_code(
    instrs: Seq<Instruction>,
    fnames: Seq<Seq<char>>,
    gnames: Seq<Seq<char>>,
    k: int,
) -> Seq<u8>
    decreases k,
{
    if k <= 0 {
        spec_sweep1_bytes(instrs, fnames, gnames)
    } else {
        let prev = spec_patched_code(instrs, fnames, gnames, k - 1);
        let pj = spec_jump_list(instrs)[k - 1];
        match spec_label_dest(instrs, pj.1) {
            Some(d) => splice(prev, pj.0, spec_u64_to_le_bytes(d as u64)),
            None => prev,
        }
    }
}

/// What assembling a list produces: the first sweep with every pending
/// jump patched.
pub open spec fn spec_assembled(
    instrs: Seq<Instruction>,
    fnames: Seq<Seq<char>>,
    gnames: Seq<Seq<char>>,
) -> Seq<u8> {
    spec_patched_code(instrs, fnames, gnames, spec_jump_list(instrs).len() as int)
}

proof fn lemma_sweep1_push(
    instrs: Seq<Instruction>,
    x: Instruction,
    fnames: Seq<Seq<char>>,
    gnames: Seq<Seq<char>>,
)
    ensures
        spec_sweep1_bytes(instrs.push(x), fnames, gnames) == spec_sweep1_bytes(
            instrs,
            fnames,
            gnames,
        ) + spec_instr_bytes1(x, fnames, gnames),
{
    assert(instrs.push(x).drop_last() =~= instrs);
    assert(instrs.push(x).last() == x);
}

/// Sweep-one bytes have exactly the assembled size.
pub proof fn lemma_sweep1_len(
    instrs: Seq<Instruction>,
    fnames: Seq<Seq<char>>,
    gnames: Seq<Seq<char>>,
)
    requires
        spec_instrs_wf(instrs),
    ensures
        spec_sweep1_bytes(instrs, fnames, gnames).len() == spec_code_size(instrs),
    decreases instrs.len(),
{
    if instrs.len() > 0 {
        assert(spec_instr_wf(instrs[instrs.len() - 1]));
        lemma_sweep1_len(instrs.drop_last(), fnames, gnames);
        crate::instruction::lemma_instr_bytes1_len(instrs.last(), fnames, gnames);
        assert(spec_instrs_wf(instrs.drop_last()));
    }
}

proof fn lemma_label_dest_take_extend(instrs: Seq<Instruction>, i: int, name: Seq<char>)
    requires
        0 <= i < instrs.len(),
    ensures
        spec_label_dest(instrs.take(i + 1), name) == (match instrs[i].spec_literal() {
            Literal::Label(n) => if n@ == name {
                Some(spec_code_size(instrs.take(i)))
            } else {
                spec_label_dest(instrs.take(i), name)
            },
            _ => spec_label_dest(instrs.take(i), name),
        }),
{
    assert(instrs.take(i + 1).drop_last() =~= instrs.take(i));
    assert(instrs.take(i + 1).last() == instrs[i]);
}

proof fn lemma_jump_list_take_extend(instrs: Seq<Instruction>, i: int)
    requires
        0 <= i < instrs.len(),
    ensures
        spec_jump_list(instrs.take(i + 1)) == (match instrs[i].spec_literal() {
            Literal::Jump(n) => spec_jump_list(instrs.take(i)).push(
                (spec_code_size(instrs.take(i)) + 1, n@),
            ),
            _ => spec_jump_list(instrs.take(i)),
        }),
{
    assert(instrs.take(i + 1).drop_last() =~= instrs.take(i));
    assert(instrs.take(i + 1).last() == instrs[i]);
}

/// Every pending jump's eight-byte window lies inside the assembled code.
pub proof fn lemma_jump_windows(instrs: Seq<Instruction>)
    requires
        spec_instrs_wf(instrs),
    ensures
        forall|m: int|
            0 <= m < spec_jump_list(instrs).len() ==> 1 <= (#[trigger] spec_jump_list(
                instrs,
            )[m]).0 && spec_jump_list(instrs)[m].0 + 8 <= spec_code_size(instrs),
    decreases instrs.len(),
{
    if instrs.len() > 0 {
        let dl = instrs.drop_last();
        assert(spec_instrs_wf(dl));
        lemma_jump_windows(dl);
        lemma_code_size_nonneg(dl);
        assert(spec_instr_wf(instrs[instrs.len() - 1]));
        assert(spec_instr_size(instrs.last()) >= 0);
        assert(spec_code_size(instrs) == spec_code_size(dl) + spec_instr_size(instrs.last()));
        match instrs.last().spec_literal() {
            Literal::Jump(n) => {
                assert(spec_instr_size(instrs.last()) == 9);
                assert(spec_jump_list(instrs) == spec_jump_list(dl).push(
                    (spec_code_size(dl) + 1, n@),
                ));
            },
            _ => {
                assert(spec_jump_list(instrs) == spec_jump_list(dl));
            },
        }
    }
}

/// Pending-jump windows come in strictly increasing, disjoint order.
pub proof fn lemma_jump_windows_sorted(instrs: Seq<Instruction>)
    requires
        spec_instrs_wf(instrs),
    ensures
        forall|m1: int, m2: int|
            0 <= m1 < m2 < spec_jump_list(instrs).len() ==> (#[trigger] spec_jump_list(
                instrs,
            )[m1]).0 + 8 <= (#[trigger] spec_jump_list(instrs)[m2]).0,
    decreases instrs.len(),
{
    if instrs.len() > 0 {
        let dl = instrs.drop_last();
        assert(spec_instrs_wf(dl));
        lemma_jump_windows_sorted(dl);
        lemma_jump_windows(dl);
        lemma_code_size_nonneg(dl);
        assert(spec_instr_wf(instrs[instrs.len() - 1]));
        match instrs.last().spec_literal() {
            Literal::Jump(n) => {
                assert(spec_instr_size(instrs.last()) == 9);
                assert(spec_jump_list(instrs) == spec_jump_list(dl).push(
                    (spec_code_size(dl) + 1, n@),
                ));
                assert(forall|m: int|
                    0 <= m < spec_jump_list(dl).len() ==> (#[trigger] spec_jump_list(dl)[m]).0 + 8
                        <= spec_code_size(dl));
            },
            _ => {
                assert(spec_jump_list(instrs) == spec_jump_list(dl));
            },
        }
    }
}

/// The label name a symbolic jump waits for (empty otherwise).
pub open spec fn spec_jump_name(i: Instruction) -> Seq<char> {
    match i.spec_literal() {
        Literal::Jump(n) => n@,
        _ => Seq::empty(),
    }
}

/// Every symbolic jump contributes an entry to the pending-jump list.
proof fn lemma_jump_instr_in_list(instrs: Seq<Instruction>, k: int)
    requires
        0 <= k < instrs.len(),
        instrs[k].spec_literal() is Jump,
    ensures
        exists|mm: int|
            0 <= mm < spec_jump_list(instrs).len() && (#[trigger] spec_jump_list(instrs)[mm]).1
                == spec_jump_name(instrs[k]),
    decreases instrs.len(),
{
    if k == instrs.len() - 1 {
        match instrs.last().spec_literal() {
            Literal::Jump(n) => {
                let mm = spec_jump_list(instrs.drop_last()).len() as int;
                assert(spec_jump_list(instrs)[mm].1 == n@);
            },
            _ => {},
        }
    } else {
        lemma_jump_instr_in_list(instrs.drop_last(), k);
        assert(instrs.drop_last()[k] == instrs[k]);
        let mm = choose|mm: int|
            0 <= mm < spec_jump_list(instrs.drop_last()).len() && (#[trigger] spec_jump_list(
                instrs.drop_last(),
            )[mm]).1 == spec_jump_name(instrs.drop_last()[k]);
        match instrs.last().spec_literal() {
            Literal::Jump(_) => {
                assert(spec_jump_list(instrs)[mm] == spec_jump_list(instrs.drop_last())[mm]);
            },
            _ => {
                assert(spec_jump_list(instrs) == spec_jump_list(instrs.drop_last()));
            },
        }
    }
}

/// Every pending-jump entry comes from a symbolic jump in the list.
proof fn lemma_jump_list_entry(instrs: Seq<Instruction>, m: int)
    requires
        0 <= m < spec_jump_list(instrs).len(),
    ensures
        exists|k: int|
            0 <= k < instrs.len() && ((#[trigger] instrs[k]).spec_literal() matches Literal::Jump(
                n,
            ) && n@ == spec_jump_list(instrs)[m].1),
    decreases instrs.len(),
{
    if instrs.len() > 0 {
        match instrs.last().spec_literal() {
            Literal::Jump(n) => {
                if m < spec_jump_list(instrs.drop_last()).len() {
                    lemma_jump_list_entry(instrs.drop_last(), m);
                    let k = choose|k: int|
                        0 <= k < instrs.drop_last().len() && ((#[trigger] instrs.drop_last()[k]).spec_literal() matches Literal::Jump(
                            n2,
                        ) && n2@ == spec_jump_list(instrs.drop_last())[m].1);
                    assert(instrs[k] == instrs.drop_last()[k]);
                } else {
                    assert(instrs[instrs.len() - 1] == instrs.last());
                }
            },
            _ => {
                lemma_jump_list_entry(instrs.drop_last(), m);
                let k = choose|k: int|
                    0 <= k < instrs.drop_last().len() && ((#[trigger] instrs.drop_last()[k]).spec_literal() matches Literal::Jump(
                        n2,
                    ) && n2@ == spec_jump_list(instrs.drop_last())[m].1);
                assert(instrs[k] == instrs.drop_last()[k]);
            },
        }
    }
}

/// A jump label of the full list resolves against the full list exactly
/// when the sweep's recorded map resolves it, so `spec_label_dest` speaks
/// for the second sweep.
proof fn lemma_dest_nonneg(instrs: Seq<Instruction>, name: Seq<char>)
    ensures
        spec_label_dest(instrs, name) matches Some(d) ==> 0 <= d,
    decreases instrs.len(),
{
    if instrs.len() > 0 {
        lemma_dest_nonneg(instrs.drop_last(), name);
        lemma_code_size_nonneg(instrs.drop_last());
    }
}

pub broadcast proof fn lemma_assoc_last_push(
    dv: Seq<(Seq<char>, u64)>,
    nm: Seq<char>,
    p: (Seq<char>, u64),
)
    ensures
        #[trigger] spec_assoc_last(dv.push(p), nm) == if p.0 == nm {
            Some(p.1)
        } else {
            spec_assoc_last(dv, nm)
        },
{
    assert(dv.push(p).drop_last() =~= dv);
    assert(dv.push(p).last() == p);
}

/// Last-wins lookup in the destination map the second sweep uses.
fn lookup_last(dests: &Vec<(String, u64)>, name: &String) -> (r: Option<u64>)
    ensures
        r == spec_assoc_last(spec_dests_view(dests@), name@),
{
    let n = dests.len();
    proof {
        assert(spec_dests_view(dests@).take(n as int) =~= spec_dests_view(dests@));
    }
    let mut i: usize = n;
    while i > 0
        invariant
            i <= n,
            n == dests@.len(),
            spec_assoc_last(spec_dests_view(dests@), name@) == spec_assoc_last(
                spec_dests_view(dests@).take(i as int),
                name@,
            ),
        decreases i,
    {
        let hit = dests[i - 1].1;
        let matched = dests[i - 1].0 == *name;
        proof {
            assert(spec_dests_view(dests@).take(i as int).drop_last() =~= spec_dests_view(
                dests@,
            ).take(i - 1));
            assert(spec_dests_view(dests@).take(i as int).last() == (
                dests@[i - 1].0@,
                dests@[i - 1].1,
            ));
        }
        if matched {
            return Some(hit);
        }
        i = i - 1;
    }
    None
}

/// Overwrite eight bytes in place with a little-endian u64.
fn patch_bytes(code: &mut Vec<u8>, at: usize, value: u64)
    requires
        at + 8 <= old(code)@.len(),
    ensures
        final(code)@ == splice(old(code)@, at as int, spec_u64_to_le_bytes(value)),
        final(code)@.len() == old(code)@.len(),
{
    let b = u64_to_le_bytes(value);
    let n = code.len();
    let mut q: usize = 0;
    while q < 8
        invariant
            q <= 8,
            n == code@.len(),
            at + 8 <= code@.len(),
            code@.len() == old(code)@.len(),
            b@ == spec_u64_to_le_bytes(value),
            b@.len() == 8,
            forall|x: int| at <= x < at + q ==> #[trigger] code@[x] == b@[x - at],
            forall|x: int|
                (0 <= x < at || at + q <= x < code@.len()) ==> #[trigger] code@[x] == old(
                    code,
                )@[x],
        decreases 8 - q,
    {
        code.set(at + q, b[q]);
        q = q + 1;
    }
    proof {
        assert(code@ =~= splice(old(code)@, at as int, spec_u64_to_le_bytes(value)));
    }
}


/// The pending-jump list with positions as the u64 values the exec sweep
/// records.
pub open spec fn spec_jump_list_u64(instrs: Seq<Instruction>) -> Seq<(u64, Seq<char>)> {
    spec_jump_list(instrs).map_values(|p: (int, Seq<char>)| (p.0 as u64, p.1))
}

impl Func {
    /// Assemble the instruction list in two sweeps — encode with label
    /// recording, then patch every pending jump with its label's
    /// destination — append the block to the builder's code blob, and fill
    /// in this function's table entry with (offset, size, result count).
    ///
    /// On success the appended block is exactly `spec_assembled`, whose
    /// length is the sum of the instruction sizes (labels excluded), and
    /// each patched word is its label's recorded destination. Assembly
    /// succeeds precisely when every function, global and label name
    /// resolves and this function was registered.
    pub fn encode(&self, bin: &mut OutBin) -> (r: Result<(), String>)
        requires
            old(bin).inv(),
            spec_instrs_wf(self.spec_code()),
            spec_code_size(self.spec_code()) <= u32::MAX,
        ensures
            final(bin).inv(),
            final(bin).strings() == old(bin).strings(),
            final(bin).str_table_bytes() == old(bin).str_table_bytes(),
            final(bin).func_names() == old(bin).func_names(),
            final(bin).glob_names() == old(bin).glob_names(),
            final(bin).glob_data() == old(bin).glob_data(),
            final(bin).globs() == old(bin).globs(),
            r is Ok <==> spec_instrs_resolvable(self.spec_code(), old(bin).func_names(), old(bin).glob_names()) && spec_find_name(
                old(bin).func_names(),
                self.spec_name(),
            ) is Some,
            r is Ok ==> ({
                let i = spec_find_name(old(bin).func_names(), self.spec_name())->0;
                &&& final(bin).code() == old(bin).code() + spec_assembled(
                    self.spec_code(),
                    old(bin).func_names(),
                    old(bin).glob_names(),
                )
                &&& spec_assembled(self.spec_code(), old(bin).func_names(), old(bin).glob_names()).len() == spec_code_size(
                    self.spec_code(),
                )
                &&& final(bin).funcs() == old(bin).funcs().update(
                    i,
                    FuncRef {
                        name_idx: old(bin).funcs()[i].name_idx,
                        offset: old(bin).code().len() as u64,
                        size: spec_code_size(self.spec_code()) as u32,
                        result_count: self.spec_result_count(),
                    },
                )
            }),
            r is Err ==> final(bin).funcs() == old(bin).funcs(),
            !spec_instrs_resolvable(self.spec_code(), old(bin).func_names(), old(bin).glob_names()) ==> final(bin).code() == old(
                bin,
            ).code(),
    {
        let ghost instrs = self.spec_code();
        let mut code: Vec<u8> = Vec::new();
        let mut label_dests: Vec<(String, u64)> = Vec::new();
        let mut jumps_to_update: Vec<(u64, String)> = Vec::new();

        let n = self.code.len();
        let mut i: usize = 0;
        proof {
            assert(instrs.take(0) =~= Seq::<Instruction>::empty());
            assert(spec_dests_view(label_dests@) =~= Seq::<(Seq<char>, u64)>::empty());
            assert(spec_jumps_view(jumps_to_update@) =~= Seq::<(u64, Seq<char>)>::empty());
            assert(spec_jump_list_u64(instrs.take(0)) =~= Seq::<(u64, Seq<char>)>::empty());
        }
        while i < n
            invariant
                i <= n,
                n == instrs.len(),
                instrs == self.spec_code(),
                spec_instrs_wf(instrs),
                spec_code_size(instrs) <= u32::MAX,
                *bin == *old(bin),
                bin.inv(),
                code@ == spec_sweep1_bytes(instrs.take(i as int), bin.func_names(), bin.glob_names()),
                code@.len() == spec_code_size(instrs.take(i as int)),
                spec_jumps_view(jumps_to_update@) == spec_jump_list_u64(instrs.take(i as int)),
                forall|nm: Seq<char>|
                    spec_assoc_last(spec_dests_view(label_dests@), nm) == spec_dest_u64(
                        instrs.take(i as int),
                        nm,
                    ),
                forall|k: int|
                    0 <= k < i ==> match (#[trigger] instrs[k]).spec_literal() {
                        Literal::Func(fnm) => spec_find_name(bin.func_names(), fnm@) is Some,
                        Literal::Glob(gnm) => spec_find_name(bin.glob_names(), gnm@) is Some,
                        _ => true,
                    },
            decreases n - i,
        {
            let instr = &self.code[i];
            let ghost pre_len = code@.len();
            match instr.encode(&mut code, bin, &mut label_dests, &mut jumps_to_update) {
                Ok(_) => {},
                Err(e) => {
                    proof {
                        assert(!spec_instrs_resolvable(
                            instrs,
                            old(bin).func_names(),
                            old(bin).glob_names(),
                        )) by {
                            assert(instrs[i as int] == self.spec_code()[i as int]);
                        }
                    }
                    return Err(e);
                },
            }
            proof {
                let tk = instrs.take(i as int);
                let tk1 = instrs.take(i + 1);
                assert(tk.push(instrs[i as int]) =~= tk1);
                lemma_sweep1_push(tk, instrs[i as int], bin.func_names(), bin.glob_names());
                lemma_code_size_take_succ(instrs, i as int);
                crate::instruction::lemma_instr_bytes1_len(
                    instrs[i as int],
                    bin.func_names(),
                    bin.glob_names(),
                );
                lemma_code_size_take_monotonic(instrs, i + 1, n as int);
                lemma_code_size_nonneg(tk);
                match instrs[i as int].spec_literal() {
                    Literal::Label(lname) => {
                        assert(code@ == spec_sweep1_bytes(tk1, bin.func_names(), bin.glob_names()));
                        lemma_code_size_take_monotonic(instrs, i as int, n as int);
                        assert forall|nm: Seq<char>|
                            spec_assoc_last(spec_dests_view(label_dests@), nm) == spec_dest_u64(
                                tk1,
                                nm,
                            ) by {
                            broadcast use lemma_assoc_last_push;

                            lemma_label_dest_take_extend(instrs, i as int, nm);
                            lemma_dest_nonneg(tk1, nm);
                            lemma_dest_bounded(tk1, nm);
                            lemma_code_size_nonneg(tk);
                        }
                        assert(spec_jump_list(tk1) == spec_jump_list(tk)) by {
                            lemma_jump_list_take_extend(instrs, i as int);
                        }
                        assert(spec_jumps_view(jumps_to_update@) =~= spec_jump_list_u64(tk1));
                    },
                    Literal::Jump(jname) => {
                        assert(code@ == spec_sweep1_bytes(tk1, bin.func_names(), bin.glob_names()));
                        lemma_jump_list_take_extend(instrs, i as int);
                        assert(spec_jumps_view(jumps_to_update@) =~= spec_jump_list_u64(tk1));
                        assert forall|nm: Seq<char>|
                            spec_assoc_last(spec_dests_view(label_dests@), nm) == spec_dest_u64(
                                tk1,
                                nm,
                            ) by {
                            lemma_label_dest_take_extend(instrs, i as int, nm);
                        }
                    },
                    _ => {
                        assert(code@ == spec_sweep1_bytes(tk1, bin.func_names(), bin.glob_names()));
                        assert(spec_jump_list(tk1) == spec_jump_list(tk)) by {
                            lemma_jump_list_take_extend(instrs, i as int);
                        }
                        assert(spec_jumps_view(jumps_to_update@) =~= spec_jump_list_u64(tk1));
                        assert forall|nm: Seq<char>|
                            spec_assoc_last(spec_dests_view(label_dests@), nm) == spec_dest_u64(
                                tk1,
                                nm,
                            ) by {
                            lemma_label_dest_take_extend(instrs, i as int, nm);
                        }
                    },
                }
            }
            i = i + 1;
        }
        proof {
            assert(instrs.take(n as int) =~= instrs);
        }

        let m = jumps_to_update.len();
        let mut t: usize = 0;
        proof {
            lemma_jump_windows(instrs);
        }
        while t < m
            invariant
                t <= m,
                m == spec_jump_list(instrs).len(),
                instrs == self.spec_code(),
                spec_instrs_wf(instrs),
                spec_code_size(instrs) <= u32::MAX,
                *bin == *old(bin),
                bin.inv(),
                spec_jumps_view(jumps_to_update@) == spec_jump_list_u64(instrs),
                jumps_to_update@.len() == m,
                forall|nm: Seq<char>|
                    spec_assoc_last(spec_dests_view(label_dests@), nm) == spec_dest_u64(
                        instrs,
                        nm,
                    ),
                code@ == spec_patched_code(instrs, bin.func_names(), bin.glob_names(), t as int),
                code@.len() == spec_code_size(instrs),
                forall|mm: int|
                    0 <= mm < m ==> 1 <= (#[trigger] spec_jump_list(instrs)[mm]).0
                        && spec_jump_list(instrs)[mm].0 + 8 <= spec_code_size(instrs),
                forall|k: int|
                    0 <= k < instrs.len() ==> match (#[trigger] instrs[k]).spec_literal() {
                        Literal::Func(fnm) => spec_find_name(bin.func_names(), fnm@) is Some,
                        Literal::Glob(gnm) => spec_find_name(bin.glob_names(), gnm@) is Some,
                        _ => true,
                    },
                forall|mm: int|
                    0 <= mm < t ==> spec_dest_u64(
                        instrs,
                        (#[trigger] spec_jump_list(instrs)[mm]).1,
                    ) is Some,
            decreases m - t,
        {
            let p = jumps_to_update[t].0;
            let lbl = jumps_to_update[t].1.clone();
            proof {
                assert(spec_jumps_view(jumps_to_update@)[t as int] == (
                    jumps_to_update@[t as int].0,
                    jumps_to_update@[t as int].1@,
                ));
                assert(spec_jump_list_u64(instrs)[t as int] == (
                    spec_jump_list(instrs)[t as int].0 as u64,
                    spec_jump_list(instrs)[t as int].1,
                ));
            }
            let d = match lookup_last(&label_dests, &lbl) {
                Some(d) => d,
                None => {
                    proof {
                        lemma_jump_list_entry(instrs, t as int);
                        let pj = spec_jump_list(instrs)[t as int];
                        assert(lbl@ == pj.1);
                        assert(spec_dest_u64(instrs, pj.1) is None);
                        assert(spec_label_dest(instrs, pj.1) is None);
                        let k = choose|k: int|
                            0 <= k < instrs.len() && ((#[trigger] instrs[k]).spec_literal()
                                matches Literal::Jump(n2) && n2@ == pj.1);
                        assert(!spec_instrs_resolvable(
                            instrs,
                            old(bin).func_names(),
                            old(bin).glob_names(),
                        ));
                    }
                    return Err(String::from_str("Unknown label"));
                },
            };
            proof {
                assert(p == spec_jump_list(instrs)[t as int].0 as u64);
                assert(1 <= spec_jump_list(instrs)[t as int].0);
                assert(spec_jump_list(instrs)[t as int].0 + 8 <= spec_code_size(instrs));
            }
            patch_bytes(&mut code, p as usize, d);
            proof {
                let pj = spec_jump_list(instrs)[t as int];
                lemma_dest_nonneg(instrs, pj.1);
                assert(spec_label_dest(instrs, pj.1) == Some(d as int)) by {
                    assert(spec_dest_u64(instrs, pj.1) == Some(d));
                    lemma_code_size_nonneg(instrs);
                    lemma_dest_bounded(instrs, pj.1);
                }
                assert(code@ == spec_patched_code(
                    instrs,
                    bin.func_names(),
                    bin.glob_names(),
                    (t + 1) as int,
                ));
            }
            t = t + 1;
        }

        proof {
            assert forall|k: int|
                0 <= k < instrs.len() && ((#[trigger] instrs[k]).spec_literal()
                    matches Literal::Jump(n2)) implies spec_label_dest(
                instrs,
                spec_jump_name(instrs[k]),
            ) is Some by {
                lemma_jump_instr_in_list(instrs, k);
                let mm = choose|mm: int|
                    0 <= mm < spec_jump_list(instrs).len() && (#[trigger] spec_jump_list(
                        instrs,
                    )[mm]).1 == spec_jump_name(instrs[k]);
                assert(spec_dest_u64(instrs, spec_jump_list(instrs)[mm].1) is Some);
            }
            assert(spec_instrs_resolvable(
                instrs,
                old(bin).func_names(),
                old(bin).glob_names(),
            ));
        }
        let func_code_offset = bin.add_func_code(&code);
        let size_u32 = code.len() as u32;
        match bin.get_func_mut_ref(self.name.as_str()) {
            Some(func_ref) => {
                func_ref.size = size_u32;
                func_ref.offset = func_code_offset;
                func_ref.result_count = self.result_count;
                Ok(())
            },
            None => Err(String::from_str("No func in funcs table with this name")),
        }
    }
}

/// An assembled block has exactly the summed instruction sizes: patching
/// never changes the length.
pub proof fn lemma_assembled_len(
    instrs: Seq<Instruction>,
    fnames: Seq<Seq<char>>,
    gnames: Seq<Seq<char>>,
)
    requires
        spec_instrs_wf(instrs),
    ensures
        spec_assembled(instrs, fnames, gnames).len() == spec_code_size(instrs),
{
    lemma_patched_len(instrs, fnames, gnames, spec_jump_list(instrs).len() as int);
}

/// A recorded destination never exceeds the assembled size.
proof fn lemma_dest_bounded(instrs: Seq<Instruction>, name: Seq<char>)
    ensures
        spec_label_dest(instrs, name) matches Some(d) ==> d <= spec_code_size(instrs),
    decreases instrs.len(),
{
    if instrs.len() > 0 {
        lemma_dest_bounded(instrs.drop_last(), name);
        assert(spec_code_size(instrs) == spec_code_size(instrs.drop_last()) + spec_instr_size(
            instrs.last(),
        ));
        if !(instrs.last().spec_literal() is Label) {
        }
    }
}


proof fn lemma_patched_len(
    instrs: Seq<Instruction>,
    fnames: Seq<Seq<char>>,
    gnames: Seq<Seq<char>>,
    k: int,
)
    requires
        spec_instrs_wf(instrs),
        k <= spec_jump_list(instrs).len(),
    ensures
        spec_patched_code(instrs, fnames, gnames, k).len() == spec_code_size(instrs),
    decreases
            (if k <= 0 {
                0int
            } else {
                k
            }),
{
    if k <= 0 {
        lemma_sweep1_len(instrs, fnames, gnames);
    } else {
        lemma_patched_len(instrs, fnames, gnames, k - 1);
        lemma_jump_windows(instrs);
        vstd::bytes::lemma_auto_spec_u64_to_from_le_bytes();
        let pj = spec_jump_list(instrs)[k - 1];
        match spec_label_dest(instrs, pj.1) {
            Some(d) => {
                assert(spec_patched_code(instrs, fnames, gnames, k) == splice(
                    spec_patched_code(instrs, fnames, gnames, k - 1),
                    pj.0,
                    spec_u64_to_le_bytes(d as u64),
                ));
            },
            None => {},
        }
    }
}

proof fn lemma_patched_window(
    instrs: Seq<Instruction>,
    fnames: Seq<Seq<char>>,
    gnames: Seq<Seq<char>>,
    k: int,
    m: int,
)
    requires
        spec_instrs_wf(instrs),
        0 <= m < k <= spec_jump_list(instrs).len(),
        spec_label_dest(instrs, spec_jump_list(instrs)[m].1) is Some,
    ensures
        ({
            let pj = spec_jump_list(instrs)[m];
            spec_patched_code(instrs, fnames, gnames, k).subrange(pj.0, pj.0 + 8)
                == spec_u64_to_le_bytes(spec_label_dest(instrs, pj.1)->0 as u64)
        }),
    decreases k,
{
    lemma_jump_windows(instrs);
    lemma_jump_windows_sorted(instrs);
    lemma_patched_len(instrs, fnames, gnames, k - 1);
    vstd::bytes::lemma_auto_spec_u64_to_from_le_bytes();
    let pj = spec_jump_list(instrs)[m];
    let d = spec_label_dest(instrs, pj.1)->0;
    if k == m + 1 {
        assert(spec_patched_code(instrs, fnames, gnames, k) == splice(
            spec_patched_code(instrs, fnames, gnames, m),
            pj.0,
            spec_u64_to_le_bytes(d as u64),
        ));
        assert(spec_patched_code(instrs, fnames, gnames, k).subrange(pj.0, pj.0 + 8)
            =~= spec_u64_to_le_bytes(d as u64));
    } else {
        lemma_patched_window(instrs, fnames, gnames, k - 1, m);
        let qj = spec_jump_list(instrs)[k - 1];
        assert(pj.0 + 8 <= qj.0);
        match spec_label_dest(instrs, qj.1) {
            Some(d2) => {
                assert(spec_patched_code(instrs, fnames, gnames, k) == splice(
                    spec_patched_code(instrs, fnames, gnames, k - 1),
                    qj.0,
                    spec_u64_to_le_bytes(d2 as u64),
                ));
                assert(spec_patched_code(instrs, fnames, gnames, k).subrange(pj.0, pj.0 + 8)
                    =~= spec_patched_code(instrs, fnames, gnames, k - 1).subrange(
                    pj.0,
                    pj.0 + 8,
                ));
            },
            None => {},
        }
    }
}

/// The patched word of every symbolic jump in the assembled block is the
/// recorded destination of its label, as a little-endian u64.
pub proof fn lemma_patched_jump_words(
    instrs: Seq<Instruction>,
    fnames: Seq<Seq<char>>,
    gnames: Seq<Seq<char>>,
    m: int,
)
    requires
        spec_instrs_wf(instrs),
        0 <= m < spec_jump_list(instrs).len(),
        spec_label_dest(instrs, spec_jump_list(instrs)[m].1) is Some,
    ensures
        ({
            let pj = spec_jump_list(instrs)[m];
            spec_assembled(instrs, fnames, gnames).subrange(pj.0, pj.0 + 8)
                == spec_u64_to_le_bytes(spec_label_dest(instrs, pj.1)->0 as u64)
        }),
{
    lemma_patched_window(instrs, fnames, gnames, spec_jump_list(instrs).len() as int, m);
}

} // verus!
