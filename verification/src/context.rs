//! The compiler's working set: functions and globals by name, and the
//! pipeline that builds a whole binary image from them.
//!
//! The name maps are modelled as the insertion-ordered lists of functions
//! and globals, with first-match lookup; creation rejects duplicates, so
//! names stay unique.

use vstd::prelude::*;
use vstd::utf8::encode_utf8;
use crate::bin_structs::{GlobRef, FUNC_REF_SIZE, GLOB_REF_SIZE};
use crate::func::{
    lemma_assembled_len, lemma_code_size_nonneg, spec_assembled, spec_code_size,
    spec_instrs_resolvable, spec_instrs_wf, Func,
};
use crate::glob::{spec_value_bytes, spec_value_type, Glob, GlobalValue};
use crate::instruction::Instruction;
use crate::out_bin::{
    lemma_find_name_at as lemma_find_name_seq_at, lemma_find_name_none as lemma_find_name_seq_none,
    lemma_find_name_off_stable, lemma_find_name_off_witness, spec_find_name_off, OutBin,
};
use crate::vm::{spec_name_bytes, spec_name_ok};

verus! {

/// First function with this name, if any.
pub open spec fn spec_find_func_at(funcs: Seq<Func>, name: Seq<char>) -> Option<int>
    decreases funcs.len(),
{
    if funcs.len() == 0 {
        None
    } else if funcs[0].spec_name() == name {
        Some(0int)
    } else {
        match spec_find_func_at(funcs.drop_first(), name) {
            Some(i) => Some(i + 1),
            None => None,
        }
    }
}

/// First global with this name, if any.
pub open spec fn spec_find_glob_at(globs: Seq<Glob>, name: Seq<char>) -> Option<int>
    decreases globs.len(),
{
    if globs.len() == 0 {
        None
    } else if globs[0].spec_name() == name {
        Some(0int)
    } else {
        match spec_find_glob_at(globs.drop_first(), name) {
            Some(i) => Some(i + 1),
            None => None,
        }
    }
}

proof fn lemma_find_func_at(funcs: Seq<Func>, name: Seq<char>, i: int)
    requires
        0 <= i < funcs.len(),
        forall|j: int| 0 <= j < i ==> funcs[j].spec_name() != name,
        funcs[i].spec_name() == name,
    ensures
        spec_find_func_at(funcs, name) == Some(i),
    decreases i,
{
    if i > 0 {
        lemma_find_func_at(funcs.drop_first(), name, i - 1);
    }
}

proof fn lemma_find_func_none(funcs: Seq<Func>, name: Seq<char>)
    requires
        forall|j: int| 0 <= j < funcs.len() ==> funcs[j].spec_name() != name,
    ensures
        spec_find_func_at(funcs, name) is None,
    decreases funcs.len(),
{
    if funcs.len() > 0 {
        lemma_find_func_none(funcs.drop_first(), name);
    }
}

proof fn lemma_find_glob_at(globs: Seq<Glob>, name: Seq<char>, i: int)
    requires
        0 <= i < globs.len(),
        forall|j: int| 0 <= j < i ==> globs[j].spec_name() != name,
        globs[i].spec_name() == name,
    ensures
        spec_find_glob_at(globs, name) == Some(i),
    decreases i,
{
    if i > 0 {
        lemma_find_glob_at(globs.drop_first(), name, i - 1);
    }
}

proof fn lemma_find_glob_none(globs: Seq<Glob>, name: Seq<char>)
    requires
        forall|j: int| 0 <= j < globs.len() ==> globs[j].spec_name() != name,
    ensures
        spec_find_glob_at(globs, name) is None,
    decreases globs.len(),
{
    if globs.len() > 0 {
        lemma_find_glob_none(globs.drop_first(), name);
    }
}

/// The function names, in creation order.
pub open spec fn spec_fn_names(funcs: Seq<Func>) -> Seq<Seq<char>> {
    Seq::new(funcs.len(), |i: int| funcs[i].spec_name())
}

/// The global names, in creation order.
pub open spec fn spec_gl_names(globs: Seq<Glob>) -> Seq<Seq<char>> {
    Seq::new(globs.len(), |i: int| globs[i].spec_name())
}

/// Pairwise-distinct names, as the data model demands of a program.
pub open spec fn spec_names_unique(names: Seq<Seq<char>>) -> bool {
    forall|i: int, j: int| 0 <= i < j < names.len() ==> names[i] != names[j]
}

/// The name's UTF-8 encoding holds no NUL byte, so a NUL-terminated
/// string table can carry it.
pub open spec fn spec_name_nul_free(nm: Seq<char>) -> bool {
    forall|k: int| 0 <= k < encode_utf8(nm).len() ==> encode_utf8(nm)[k] != 0
}

/// String-table bytes these names occupy when each is stored once.
pub open spec fn spec_names_table_size(names: Seq<Seq<char>>) -> int
    decreases names.len(),
{
    if names.len() == 0 {
        0
    } else {
        spec_names_table_size(names.drop_last()) + encode_utf8(names.last()).len() + 1
    }
}

/// Total assembled code of all functions.
pub open spec fn spec_total_code_size(funcs: Seq<Func>) -> int
    decreases funcs.len(),
{
    if funcs.len() == 0 {
        0
    } else {
        spec_total_code_size(funcs.drop_last()) + spec_code_size(funcs.last().spec_code())
    }
}

/// Total encoded data of all globals.
pub open spec fn spec_total_glob_data(globs: Seq<Glob>) -> int
    decreases globs.len(),
{
    if globs.len() == 0 {
        0
    } else {
        spec_total_glob_data(globs.drop_last()) + spec_value_bytes(globs.last().spec_value()).len()
    }
}

/// Every function's instruction literals match their opcodes.
pub open spec fn spec_ctx_wf(funcs: Seq<Func>) -> bool {
    forall|i: int| 0 <= i < funcs.len() ==> spec_instrs_wf((#[trigger] funcs[i]).spec_code())
}

/// Every function, global and label name used by any function resolves.
pub open spec fn spec_ctx_resolvable(
    funcs: Seq<Func>,
    fnames: Seq<Seq<char>>,
    gnames: Seq<Seq<char>>,
) -> bool {
    forall|i: int|
        0 <= i < funcs.len() ==> spec_instrs_resolvable(
            (#[trigger] funcs[i]).spec_code(),
            fnames,
            gnames,
        )
}

/// The concatenated assembled code of the functions, in order.
pub open spec fn spec_ctx_code(
    funcs: Seq<Func>,
    fnames: Seq<Seq<char>>,
    gnames: Seq<Seq<char>>,
) -> Seq<u8>
    decreases funcs.len(),
{
    if funcs.len() == 0 {
        Seq::empty()
    } else {
        spec_ctx_code(funcs.drop_last(), fnames, gnames) + spec_assembled(
            funcs.last().spec_code(),
            fnames,
            gnames,
        )
    }
}

/// The concatenated encoded values of the globals, in order.
pub open spec fn spec_ctx_glob_data(globs: Seq<Glob>) -> Seq<u8>
    decreases globs.len(),
{
    if globs.len() == 0 {
        Seq::empty()
    } else {
        spec_ctx_glob_data(globs.drop_last()) + spec_value_bytes(globs.last().spec_value())
    }
}

/// Every recorded string-table entry with a NUL-free name resolves to
/// exactly that name.
pub open spec fn spec_strings_resolve(strings: Seq<(Seq<char>, u32)>, table: Seq<u8>) -> bool {
    forall|p: int|
        0 <= p < strings.len() ==> (spec_name_nul_free((#[trigger] strings[p]).0)
            ==> spec_name_ok(table, strings[p].1 as int) && spec_name_bytes(
            table,
            strings[p].1 as int,
        ) == encode_utf8(strings[p].0))
}

/// The builder a context determines: tables in creation order, entries
/// filled the way the encoders fill them, names resolving through the
/// string table, and the concatenated code and data blobs.
pub open spec fn spec_ctx_builds(ctx: Context, b: OutBin) -> bool {
    let fnames = spec_fn_names(ctx.funcs());
    let gnames = spec_gl_names(ctx.globs());
    &&& b.func_names() == fnames
    &&& b.glob_names() == gnames
    &&& b.funcs().len() == ctx.funcs().len()
    &&& forall|i: int|
        0 <= i < ctx.funcs().len() ==> ({
            let fr = (#[trigger] b.funcs()[i]);
            &&& fr.offset == spec_total_code_size(ctx.funcs().take(i))
            &&& fr.size == spec_code_size(ctx.funcs()[i].spec_code())
            &&& fr.result_count == ctx.funcs()[i].spec_result_count()
            &&& spec_name_ok(b.str_table_bytes(), fr.name_idx as int)
            &&& spec_name_bytes(b.str_table_bytes(), fr.name_idx as int) == encode_utf8(
                fnames[i],
            )
        })
    &&& b.code() == spec_ctx_code(ctx.funcs(), fnames, gnames)
    &&& b.globs().len() == ctx.globs().len()
    &&& forall|j: int|
        0 <= j < ctx.globs().len() ==> ({
            let gr = (#[trigger] b.globs()[j]);
            &&& gr.offset == spec_total_glob_data(ctx.globs().take(j))
            &&& gr.size == spec_value_bytes(ctx.globs()[j].spec_value()).len()
            &&& gr.value_type == spec_value_type(ctx.globs()[j].spec_value())
            &&& spec_name_ok(b.str_table_bytes(), gr.name_idx as int)
            &&& spec_name_bytes(b.str_table_bytes(), gr.name_idx as int) == encode_utf8(
                gnames[j],
            )
        })
    &&& b.glob_data() == spec_ctx_glob_data(ctx.globs())
}

proof fn lemma_table_size_nonneg(names: Seq<Seq<char>>)
    ensures
        spec_names_table_size(names) >= 0,
    decreases names.len(),
{
    if names.len() > 0 {
        lemma_table_size_nonneg(names.drop_last());
    }
}

proof fn lemma_table_size_take_succ(names: Seq<Seq<char>>, k: int)
    requires
        0 <= k < names.len(),
    ensures
        spec_names_table_size(names.take(k + 1)) == spec_names_table_size(names.take(k))
            + encode_utf8(names[k]).len() + 1,
{
    assert(names.take(k + 1).drop_last() =~= names.take(k));
    assert(names.take(k + 1).last() == names[k]);
}

proof fn lemma_table_size_take_monotonic(names: Seq<Seq<char>>, k1: int, k2: int)
    requires
        0 <= k1 <= k2 <= names.len(),
    ensures
        spec_names_table_size(names.take(k1)) <= spec_names_table_size(names.take(k2)),
    decreases k2 - k1,
{
    if k1 < k2 {
        lemma_table_size_take_monotonic(names, k1, k2 - 1);
        lemma_table_size_take_succ(names, k2 - 1);
    }
}

proof fn lemma_total_code_take_succ(funcs: Seq<Func>, k: int)
    requires
        0 <= k < funcs.len(),
    ensures
        spec_total_code_size(funcs.take(k + 1)) == spec_total_code_size(funcs.take(k))
            + spec_code_size(funcs[k].spec_code()),
{
    assert(funcs.take(k + 1).drop_last() =~= funcs.take(k));
    assert(funcs.take(k + 1).last() == funcs[k]);
}

proof fn lemma_total_code_take_monotonic(funcs: Seq<Func>, k1: int, k2: int)
    requires
        0 <= k1 <= k2 <= funcs.len(),
    ensures
        spec_total_code_size(funcs.take(k1)) <= spec_total_code_size(funcs.take(k2)),
    decreases k2 - k1,
{
    if k1 < k2 {
        lemma_total_code_take_monotonic(funcs, k1, k2 - 1);
        lemma_total_code_take_succ(funcs, k2 - 1);
        lemma_code_size_nonneg(funcs[k2 - 1].spec_code());
    }
}

proof fn lemma_total_glob_take_succ(globs: Seq<Glob>, k: int)
    requires
        0 <= k < globs.len(),
    ensures
        spec_total_glob_data(globs.take(k + 1)) == spec_total_glob_data(globs.take(k))
            + spec_value_bytes(globs[k].spec_value()).len(),
{
    assert(globs.take(k + 1).drop_last() =~= globs.take(k));
    assert(globs.take(k + 1).last() == globs[k]);
}

proof fn lemma_total_glob_take_monotonic(globs: Seq<Glob>, k1: int, k2: int)
    requires
        0 <= k1 <= k2 <= globs.len(),
    ensures
        spec_total_glob_data(globs.take(k1)) <= spec_total_glob_data(globs.take(k2)),
    decreases k2 - k1,
{
    if k1 < k2 {
        lemma_total_glob_take_monotonic(globs, k1, k2 - 1);
        lemma_total_glob_take_succ(globs, k2 - 1);
    }
}

proof fn lemma_ctx_code_take_succ(
    funcs: Seq<Func>,
    fnames: Seq<Seq<char>>,
    gnames: Seq<Seq<char>>,
    k: int,
)
    requires
        0 <= k < funcs.len(),
    ensures
        spec_ctx_code(funcs.take(k + 1), fnames, gnames) == spec_ctx_code(
            funcs.take(k),
            fnames,
            gnames,
        ) + spec_assembled(funcs[k].spec_code(), fnames, gnames),
{
    assert(funcs.take(k + 1).drop_last() =~= funcs.take(k));
    assert(funcs.take(k + 1).last() == funcs[k]);
}

proof fn lemma_ctx_glob_take_succ(globs: Seq<Glob>, k: int)
    requires
        0 <= k < globs.len(),
    ensures
        spec_ctx_glob_data(globs.take(k + 1)) == spec_ctx_glob_data(globs.take(k))
            + spec_value_bytes(globs[k].spec_value()),
{
    assert(globs.take(k + 1).drop_last() =~= globs.take(k));
    assert(globs.take(k + 1).last() == globs[k]);
}

/// One deduplicating string-table step keeps every recorded entry
/// resolving to its name.
proof fn lemma_strings_resolve_step(
    pre_strings: Seq<(Seq<char>, u32)>,
    pre_table: Seq<u8>,
    post_strings: Seq<(Seq<char>, u32)>,
    post_table: Seq<u8>,
    name: Seq<char>,
)
    requires
        spec_strings_resolve(pre_strings, pre_table),
        spec_name_nul_free(name),
        pre_table.len() <= u32::MAX,
        match spec_find_name_off(pre_strings, name) {
            Some(_) => post_strings == pre_strings && post_table == pre_table,
            None => post_strings == pre_strings.push((name, pre_table.len() as u32))
                && post_table == pre_table + encode_utf8(name) + seq![0u8],
        },
    ensures
        spec_strings_resolve(post_strings, post_table),
{
    broadcast use vstd::utf8::encode_utf8_valid_utf8;

    match spec_find_name_off(pre_strings, name) {
        Some(_) => {},
        None => {
            let enc = encode_utf8(name);
            let ext = enc + seq![0u8];
            assert(post_table =~= pre_table + ext);
            assert forall|p: int|
                0 <= p < post_strings.len() implies (spec_name_nul_free(
                (#[trigger] post_strings[p]).0,
            ) ==> spec_name_ok(post_table, post_strings[p].1 as int) && spec_name_bytes(
                post_table,
                post_strings[p].1 as int,
            ) == encode_utf8(post_strings[p].0)) by {
                if p < pre_strings.len() {
                    assert(post_strings[p] == pre_strings[p]);
                    if spec_name_nul_free(pre_strings[p].0) {
                        crate::bin_utils::lemma_first_nul_append_stable(
                            pre_table,
                            ext,
                            pre_strings[p].1 as int,
                        );
                    }
                } else {
                    assert(post_strings[p] == (name, pre_table.len() as u32));
                    crate::bin_utils::lemma_first_nul_fresh(pre_table, enc);
                    assert((pre_table + enc + seq![0u8]) =~= post_table);
                }
            }
        },
    }
}

pub struct Context {
    funcs: Vec<Func>,
    globs: Vec<Glob>,
}

impl Context {
    pub closed spec fn funcs(&self) -> Seq<Func> {
        self.funcs@
    }

    pub closed spec fn globs(&self) -> Seq<Glob> {
        self.globs@
    }

    pub fn new() -> (r: Context)
        ensures
            r.funcs() == Seq::<Func>::empty(),
            r.globs() == Seq::<Glob>::empty(),
    {
        let r = Context { funcs: Vec::new(), globs: Vec::new() };
        proof {
            assert(r.funcs() =~= Seq::<Func>::empty());
            assert(r.globs() =~= Seq::<Glob>::empty());
        }
        r
    }

    /// Create an empty function under a fresh name; a taken name is
    /// rejected.
    pub fn make_func(&mut self, name: &str, result_count: u8) -> (r: Result<(), String>)
        ensures
            match spec_find_func_at(old(self).funcs(), name@) {
                Some(_) => r is Err && *final(self) == *old(self),
                None => r is Ok && final(self).funcs().len() == old(self).funcs().len() + 1
                    && final(self).funcs().drop_last() == old(self).funcs() && final(self).funcs().last().spec_name() == name@ && final(self).funcs().last().spec_code()
                    == Seq::<Instruction>::empty() && final(self).funcs().last().spec_result_count()
                    == result_count,
            },
            final(self).globs() == old(self).globs(),
    {
        if self.find_func_idx(name).is_some() {
            return Err(String::from_str("Function with this name already exists"));
        }
        self.funcs.push(Func::new(name.to_owned(), result_count));
        proof {
            assert(self.funcs@.drop_last() =~= old(self).funcs());
        }
        Ok(())
    }

    /// Create a function with its code under a fresh name; a taken name is
    /// rejected.
    pub fn make_func_with_code(&mut self, name: &str, result_count: u8, code: Vec<Instruction>) -> (r:
        Result<(), String>)
        ensures
            match spec_find_func_at(old(self).funcs(), name@) {
                Some(_) => r is Err && *final(self) == *old(self),
                None => r is Ok && final(self).funcs().len() == old(self).funcs().len() + 1
                    && final(self).funcs().drop_last() == old(self).funcs() && final(self).funcs().last().spec_name() == name@ && final(self).funcs().last().spec_code()
                    == code@ && final(self).funcs().last().spec_result_count() == result_count,
            },
            final(self).globs() == old(self).globs(),
    {
        if self.find_func_idx(name).is_some() {
            return Err(String::from_str("Function with this name already exists"));
        }
        self.funcs.push(Func::new_with_code(name.to_owned(), result_count, code));
        proof {
            assert(self.funcs@.drop_last() =~= old(self).funcs());
        }
        Ok(())
    }

    fn find_func_idx(&self, name: &str) -> (r: Option<usize>)
        ensures
            match spec_find_func_at(self.funcs(), name@) {
                Some(i) => 0 <= i <= usize::MAX && i < self.funcs().len() && r == Some(
                    i as usize,
                ),
                None => r is None,
            },
    {
        let query: String = name.to_owned();
        let n = self.funcs.len();
        let mut i: usize = 0;
        while i < n
            invariant
                i <= n,
                n == self.funcs@.len(),
                query@ == name@,
                forall|j: int| 0 <= j < i ==> (#[trigger] self.funcs@[j]).spec_name() != name@,
            decreases n - i,
        {
            let hit = *self.funcs[i].get_name() == query;
            if hit {
                proof {
                    lemma_find_func_at(self.funcs(), name@, i as int);
                }
                return Some(i);
            }
            i = i + 1;
        }
        proof {
            lemma_find_func_none(self.funcs(), name@);
        }
        None
    }

    fn find_glob_idx(&self, name: &str) -> (r: Option<usize>)
        ensures
            match spec_find_glob_at(self.globs(), name@) {
                Some(i) => 0 <= i <= usize::MAX && i < self.globs().len() && r == Some(
                    i as usize,
                ),
                None => r is None,
            },
    {
        let query: String = name.to_owned();
        let n = self.globs.len();
        let mut i: usize = 0;
        while i < n
            invariant
                i <= n,
                n == self.globs@.len(),
                query@ == name@,
                forall|j: int| 0 <= j < i ==> (#[trigger] self.globs@[j]).spec_name() != name@,
            decreases n - i,
        {
            let hit = *self.globs[i].get_name() == query;
            if hit {
                proof {
                    lemma_find_glob_at(self.globs(), name@, i as int);
                }
                return Some(i);
            }
            i = i + 1;
        }
        proof {
            lemma_find_glob_none(self.globs(), name@);
        }
        None
    }

    pub fn get_func(&self, name: &str) -> (r: Option<&Func>)
        ensures
            match spec_find_func_at(self.funcs(), name@) {
                Some(i) => r matches Some(f) && *f == self.funcs()[i],
                None => r is None,
            },
    {
        match self.find_func_idx(name) {
            Some(i) => Some(&self.funcs[i]),
            None => None,
        }
    }

    pub fn get_mut_func(&mut self, name: &str) -> (r: Option<&mut Func>)
        ensures
            match spec_find_func_at(old(self).funcs(), name@) {
                Some(i) => r matches Some(f) && *f == old(self).funcs()[i] && final(self).funcs()
                    == old(self).funcs().update(i, *final(f)),
                None => r is None && *final(self) == *old(self),
            },
            final(self).globs() == old(self).globs(),
    {
        match self.find_func_idx(name) {
            Some(i) => Some(vstd::std_specs::vec::vec_index_mut(&mut self.funcs, i)),
            None => None,
        }
    }

    /// Create a global holding a zero byte under a fresh name; a taken
    /// name is rejected.
    pub fn make_glob(&mut self, name: &str) -> (r: Result<(), String>)
        ensures
            match spec_find_glob_at(old(self).globs(), name@) {
                Some(_) => r is Err && *final(self) == *old(self),
                None => r is Ok && final(self).globs().len() == old(self).globs().len() + 1
                    && final(self).globs().drop_last() == old(self).globs() && final(self).globs().last().spec_name() == name@ && final(self).globs().last().spec_value()
                    == GlobalValue::U8(0),
            },
            final(self).funcs() == old(self).funcs(),
    {
        if self.find_glob_idx(name).is_some() {
            return Err(String::from_str("Global with this name already exists"));
        }
        self.globs.push(Glob::new(name.to_owned()));
        proof {
            assert(self.globs@.drop_last() =~= old(self).globs());
        }
        Ok(())
    }

    /// Create a global with a value under a fresh name; a taken name is
    /// rejected.
    pub fn make_glob_with_value(&mut self, name: &str, value: GlobalValue) -> (r: Result<
        (),
        String,
    >)
        ensures
            match spec_find_glob_at(old(self).globs(), name@) {
                Some(_) => r is Err && *final(self) == *old(self),
                None => r is Ok && final(self).globs().len() == old(self).globs().len() + 1
                    && final(self).globs().drop_last() == old(self).globs() && final(self).globs().last().spec_name() == name@ && final(self).globs().last().spec_value()
                    == value,
            },
            final(self).funcs() == old(self).funcs(),
    {
        if self.find_glob_idx(name).is_some() {
            return Err(String::from_str("Global with this name already exists"));
        }
        self.globs.push(Glob::new_with_value(name.to_owned(), value));
        proof {
            assert(self.globs@.drop_last() =~= old(self).globs());
        }
        Ok(())
    }

    pub fn get_glob(&self, name: &str) -> (r: Option<&Glob>)
        ensures
            match spec_find_glob_at(self.globs(), name@) {
                Some(i) => r matches Some(g) && *g == self.globs()[i],
                None => r is None,
            },
    {
        match self.find_glob_idx(name) {
            Some(i) => Some(&self.globs[i]),
            None => None,
        }
    }

    pub fn get_mut_glob(&mut self, name: &str) -> (r: Option<&mut Glob>)
        ensures
            match spec_find_glob_at(old(self).globs(), name@) {
                Some(i) => r matches Some(g) && *g == old(self).globs()[i] && final(self).globs()
                    == old(self).globs().update(i, *final(g)),
                None => r is None && *final(self) == *old(self),
            },
            final(self).funcs() == old(self).funcs(),
    {
        match self.find_glob_idx(name) {
            Some(i) => Some(vstd::std_specs::vec::vec_index_mut(&mut self.globs, i)),
            None => None,
        }
    }

    /// Build the whole image: register every function and global (filling
    /// the string table), assemble each function into the code blob, encode
    /// each global into the data blob, and emit the canonical sections.
    /// Succeeds exactly when every instruction literal is well-formed and
    /// every function, global and label name resolves; the result is the
    /// emission of the builder this context determines: one table entry
    /// per function and global in order, carrying the offsets, sizes,
    /// result counts and value types the encoders fill in, the code blob
    /// the assembler produces, and names that resolve through the string
    /// table. The preconditions restate the data model's unique-name
    /// invariant, the NUL-terminated string table's demand that names hold
    /// no NUL, and the wire format's u32 size fields.
    pub fn to_bytes(&self) -> (r: Result<Vec<u8>, String>)
        requires
            spec_names_unique(spec_fn_names(self.funcs())),
            spec_names_unique(spec_gl_names(self.globs())),
            forall|i: int|
                0 <= i < self.funcs().len() ==> spec_name_nul_free(
                    (#[trigger] self.funcs()[i]).spec_name(),
                ),
            forall|j: int|
                0 <= j < self.globs().len() ==> spec_name_nul_free(
                    (#[trigger] self.globs()[j]).spec_name(),
                ),
            spec_names_table_size(spec_fn_names(self.funcs())) + spec_names_table_size(
                spec_gl_names(self.globs()),
            ) <= u32::MAX,
            self.funcs().len() * FUNC_REF_SIZE <= u32::MAX,
            self.globs().len() * GLOB_REF_SIZE <= u32::MAX,
            spec_total_code_size(self.funcs()) <= u32::MAX,
            spec_total_glob_data(self.globs()) <= u32::MAX,
        ensures
            r is Ok <==> spec_ctx_wf(self.funcs()) && spec_ctx_resolvable(
                self.funcs(),
                spec_fn_names(self.funcs()),
                spec_gl_names(self.globs()),
            ),
            r is Ok ==> exists|b: OutBin|
                (#[trigger] crate::out_bin::spec_out_bin_bytes(b)) == r->Ok_0@
                    && spec_ctx_builds(*self, b),
    {
        let ghost fnames = spec_fn_names(self.funcs());
        let ghost gnames = spec_gl_names(self.globs());
        let mut bin = OutBin::new();

        let nf = self.funcs.len();
        let mut i: usize = 0;
        proof {
            assert(fnames.take(0) =~= Seq::<Seq<char>>::empty());
            lemma_table_size_nonneg(gnames);
        }
        while i < nf
            invariant
                i <= nf,
                nf == self.funcs@.len(),
                fnames == spec_fn_names(self.funcs()),
                gnames == spec_gl_names(self.globs()),
                spec_names_unique(fnames),
                forall|k: int|
                    0 <= k < self.funcs().len() ==> spec_name_nul_free(
                        (#[trigger] self.funcs()[k]).spec_name(),
                    ),
                spec_names_table_size(fnames) + spec_names_table_size(gnames) <= u32::MAX,
                spec_names_table_size(gnames) >= 0,
                nf * FUNC_REF_SIZE <= u32::MAX,
                bin.inv(),
                bin.func_names() == fnames.take(i as int),
                bin.glob_names() == Seq::<Seq<char>>::empty(),
                bin.funcs().len() == i,
                bin.globs() == Seq::<GlobRef>::empty(),
                bin.code() == Seq::<u8>::empty(),
                bin.glob_data() == Seq::<u8>::empty(),
                bin.str_table_bytes().len() <= spec_names_table_size(fnames.take(i as int)),
                forall|k: int|
                    0 <= k < i ==> spec_find_name_off(bin.strings(), fnames[k]) == Some(
                        (#[trigger] bin.funcs()[k]).name_idx,
                    ) && bin.funcs()[k].offset == 0 && bin.funcs()[k].size == 0 && bin.funcs()[
                        k
                    ].result_count == 0,
                spec_strings_resolve(bin.strings(), bin.str_table_bytes()),
            decreases nf - i,
        {
            let func = &self.funcs[i];
            proof {
                assert(func.spec_name() == fnames[i as int]);
                assert forall|j: int| 0 <= j < i implies bin.func_names()[j] != func.spec_name()
                    by {
                    assert(bin.func_names()[j] == fnames[j]);
                }
                lemma_find_name_seq_none(bin.func_names(), func.spec_name());
                lemma_table_size_take_succ(fnames, i as int);
                lemma_table_size_take_monotonic(fnames, i + 1, nf as int);
                assert(fnames.take(nf as int) =~= fnames);
            }
            let ghost pre = bin;
            bin.add_func(func);
            proof {
                lemma_strings_resolve_step(
                    pre.strings(),
                    pre.str_table_bytes(),
                    bin.strings(),
                    bin.str_table_bytes(),
                    func.spec_name(),
                );
                assert(bin.func_names() =~= fnames.take(i + 1));
                assert forall|k: int|
                    0 <= k < i + 1 implies spec_find_name_off(bin.strings(), fnames[k]) == Some(
                    (#[trigger] bin.funcs()[k]).name_idx,
                ) && bin.funcs()[k].offset == 0 && bin.funcs()[k].size == 0 && bin.funcs()[
                    k
                ].result_count == 0 by {
                    if k < i {
                        assert(bin.funcs()[k] == pre.funcs()[k]);
                        assert(spec_find_name_off(pre.strings(), fnames[k]) == Some(
                            pre.funcs()[k].name_idx,
                        ));
                        if bin.strings() != pre.strings() {
                            lemma_find_name_off_stable(pre.strings(), fnames[k]);
                        }
                    }
                }
            }
            i = i + 1;
        }

        let ng = self.globs.len();
        let mut j: usize = 0;
        proof {
            assert(gnames.take(0) =~= Seq::<Seq<char>>::empty());
            lemma_table_size_nonneg(fnames);
            assert(fnames.take(nf as int) =~= fnames);
        }
        while j < ng
            invariant
                j <= ng,
                ng == self.globs@.len(),
                nf == self.funcs@.len(),
                fnames == spec_fn_names(self.funcs()),
                gnames == spec_gl_names(self.globs()),
                spec_names_unique(gnames),
                forall|k: int|
                    0 <= k < self.globs().len() ==> spec_name_nul_free(
                        (#[trigger] self.globs()[k]).spec_name(),
                    ),
                spec_names_table_size(fnames) + spec_names_table_size(gnames) <= u32::MAX,
                spec_names_table_size(fnames) >= 0,
                ng * GLOB_REF_SIZE <= u32::MAX,
                bin.inv(),
                bin.func_names() == fnames,
                bin.glob_names() == gnames.take(j as int),
                bin.funcs().len() == nf,
                bin.globs().len() == j,
                bin.code() == Seq::<u8>::empty(),
                bin.glob_data() == Seq::<u8>::empty(),
                bin.str_table_bytes().len() <= spec_names_table_size(fnames)
                    + spec_names_table_size(gnames.take(j as int)),
                forall|k: int|
                    0 <= k < nf ==> spec_find_name_off(bin.strings(), fnames[k]) == Some(
                        (#[trigger] bin.funcs()[k]).name_idx,
                    ) && bin.funcs()[k].offset == 0 && bin.funcs()[k].size == 0 && bin.funcs()[
                        k
                    ].result_count == 0,
                forall|k: int|
                    0 <= k < j ==> spec_find_name_off(bin.strings(), gnames[k]) == Some(
                        (#[trigger] bin.globs()[k]).name_idx,
                    ) && bin.globs()[k].offset == 0 && bin.globs()[k].size == 0 && bin.globs()[
                        k
                    ].value_type == 0,
                spec_strings_resolve(bin.strings(), bin.str_table_bytes()),
            decreases ng - j,
        {
            let glob = &self.globs[j];
            proof {
                assert(glob.spec_name() == gnames[j as int]);
                assert forall|k: int| 0 <= k < j implies bin.glob_names()[k] != glob.spec_name()
                    by {
                    assert(bin.glob_names()[k] == gnames[k]);
                }
                lemma_find_name_seq_none(bin.glob_names(), glob.spec_name());
                lemma_table_size_take_succ(gnames, j as int);
                lemma_table_size_take_monotonic(gnames, j + 1, ng as int);
                assert(gnames.take(ng as int) =~= gnames);
            }
            let ghost pre = bin;
            bin.add_glob(glob);
            proof {
                lemma_strings_resolve_step(
                    pre.strings(),
                    pre.str_table_bytes(),
                    bin.strings(),
                    bin.str_table_bytes(),
                    glob.spec_name(),
                );
                assert(bin.glob_names() =~= gnames.take(j + 1));
                assert forall|k: int|
                    0 <= k < nf implies spec_find_name_off(bin.strings(), fnames[k]) == Some(
                    (#[trigger] bin.funcs()[k]).name_idx,
                ) && bin.funcs()[k].offset == 0 && bin.funcs()[k].size == 0 && bin.funcs()[
                    k
                ].result_count == 0 by {
                    assert(bin.funcs()[k] == pre.funcs()[k]);
                    assert(spec_find_name_off(pre.strings(), fnames[k]) == Some(
                        pre.funcs()[k].name_idx,
                    ));
                    if bin.strings() != pre.strings() {
                        lemma_find_name_off_stable(pre.strings(), fnames[k]);
                    }
                }
                assert forall|k: int|
                    0 <= k < j + 1 implies spec_find_name_off(bin.strings(), gnames[k]) == Some(
                    (#[trigger] bin.globs()[k]).name_idx,
                ) && bin.globs()[k].offset == 0 && bin.globs()[k].size == 0 && bin.globs()[
                    k
                ].value_type == 0 by {
                    if k < j {
                        assert(bin.globs()[k] == pre.globs()[k]);
                        assert(spec_find_name_off(pre.strings(), gnames[k]) == Some(
                            pre.globs()[k].name_idx,
                        ));
                        if bin.strings() != pre.strings() {
                            lemma_find_name_off_stable(pre.strings(), gnames[k]);
                        }
                    }
                }
            }
            j = j + 1;
        }

        let mut i: usize = 0;
        proof {
            assert(self.funcs().take(0) =~= Seq::<Func>::empty());
            assert(spec_ctx_code(self.funcs().take(0), fnames, gnames) =~= Seq::<u8>::empty());
            assert(gnames.take(ng as int) =~= gnames);
            lemma_table_size_nonneg(fnames);
            lemma_table_size_nonneg(gnames);
        }
        while i < nf
            invariant
                i <= nf,
                nf == self.funcs@.len(),
                ng == self.globs@.len(),
                fnames == spec_fn_names(self.funcs()),
                gnames == spec_gl_names(self.globs()),
                spec_names_unique(fnames),
                forall|k: int|
                    0 <= k < self.funcs().len() ==> spec_name_nul_free(
                        (#[trigger] self.funcs()[k]).spec_name(),
                    ),
                spec_total_code_size(self.funcs()) <= u32::MAX,
                bin.inv(),
                bin.func_names() == fnames,
                bin.glob_names() == gnames,
                bin.funcs().len() == nf,
                bin.globs().len() == ng,
                bin.glob_data() == Seq::<u8>::empty(),
                bin.str_table_bytes().len() <= u32::MAX,
                forall|k: int|
                    0 <= k < nf ==> spec_find_name_off(bin.strings(), fnames[k]) == Some(
                        (#[trigger] bin.funcs()[k]).name_idx,
                    ),
                forall|k: int|
                    0 <= k < ng ==> spec_find_name_off(bin.strings(), gnames[k]) == Some(
                        (#[trigger] bin.globs()[k]).name_idx,
                    ) && bin.globs()[k].offset == 0 && bin.globs()[k].size == 0 && bin.globs()[
                        k
                    ].value_type == 0,
                spec_strings_resolve(bin.strings(), bin.str_table_bytes()),
                forall|k: int|
                    0 <= k < i ==> ((#[trigger] bin.funcs()[k]).offset == spec_total_code_size(
                        self.funcs().take(k),
                    ) && bin.funcs()[k].size == spec_code_size(self.funcs()[k].spec_code())
                        && bin.funcs()[k].result_count == self.funcs()[k].spec_result_count()),
                forall|k: int|
                    i <= k < nf ==> ((#[trigger] bin.funcs()[k]).offset == 0 && bin.funcs()[
                        k
                    ].size == 0 && bin.funcs()[k].result_count == 0),
                forall|k: int|
                    0 <= k < i ==> spec_instrs_wf((#[trigger] self.funcs()[k]).spec_code())
                        && spec_instrs_resolvable(self.funcs()[k].spec_code(), fnames, gnames),
                bin.code() == spec_ctx_code(self.funcs().take(i as int), fnames, gnames),
                bin.code().len() == spec_total_code_size(self.funcs().take(i as int)),
            decreases nf - i,
        {
            let func = &self.funcs[i];
            if !func.instructions_well_formed() {
                proof {
                    assert(!spec_ctx_wf(self.funcs()));
                }
                return Err(String::from_str("Malformed instruction literal"));
            }
            proof {
                lemma_total_code_take_succ(self.funcs(), i as int);
                lemma_total_code_take_monotonic(self.funcs(), i + 1, nf as int);
                assert(self.funcs().take(nf as int) =~= self.funcs());
                lemma_code_size_nonneg(func.spec_code());
                assert forall|k: int| 0 <= k < i as int implies fnames[k] != func.spec_name() by {
                    assert(fnames[i as int] == func.spec_name());
                }
                lemma_find_name_seq_at(fnames, func.spec_name(), i as int);
            }
            let ghost pre = bin;
            match func.encode(&mut bin) {
                Ok(_) => {},
                Err(_) => {
                    proof {
                        assert(!spec_instrs_resolvable(func.spec_code(), fnames, gnames));
                        assert(!spec_ctx_resolvable(self.funcs(), fnames, gnames));
                    }
                    return Err(String::from_str("Failed to encode function"));
                },
            }
            proof {
                lemma_ctx_code_take_succ(self.funcs(), fnames, gnames, i as int);
                lemma_assembled_len(func.spec_code(), fnames, gnames);
                assert(bin.code() == spec_ctx_code(self.funcs().take(i + 1), fnames, gnames));
            }
            i = i + 1;
        }

        let mut j: usize = 0;
        proof {
            assert(self.globs().take(0) =~= Seq::<Glob>::empty());
            assert(spec_ctx_glob_data(self.globs().take(0)) =~= Seq::<u8>::empty());
            assert(self.funcs().take(nf as int) =~= self.funcs());
        }
        while j < ng
            invariant
                j <= ng,
                nf == self.funcs@.len(),
                ng == self.globs@.len(),
                fnames == spec_fn_names(self.funcs()),
                gnames == spec_gl_names(self.globs()),
                spec_names_unique(gnames),
                forall|k: int|
                    0 <= k < self.globs().len() ==> spec_name_nul_free(
                        (#[trigger] self.globs()[k]).spec_name(),
                    ),
                spec_total_glob_data(self.globs()) <= u32::MAX,
                bin.inv(),
                bin.func_names() == fnames,
                bin.glob_names() == gnames,
                bin.funcs().len() == nf,
                bin.globs().len() == ng,
                bin.str_table_bytes().len() <= u32::MAX,
                forall|k: int|
                    0 <= k < nf ==> spec_find_name_off(bin.strings(), fnames[k]) == Some(
                        (#[trigger] bin.funcs()[k]).name_idx,
                    ),
                forall|k: int|
                    0 <= k < ng ==> spec_find_name_off(bin.strings(), gnames[k]) == Some(
                        (#[trigger] bin.globs()[k]).name_idx,
                    ),
                spec_strings_resolve(bin.strings(), bin.str_table_bytes()),
                forall|k: int|
                    0 <= k < nf ==> ((#[trigger] bin.funcs()[k]).offset == spec_total_code_size(
                        self.funcs().take(k),
                    ) && bin.funcs()[k].size == spec_code_size(self.funcs()[k].spec_code())
                        && bin.funcs()[k].result_count == self.funcs()[k].spec_result_count()),
                forall|k: int|
                    0 <= k < nf ==> spec_instrs_wf((#[trigger] self.funcs()[k]).spec_code())
                        && spec_instrs_resolvable(self.funcs()[k].spec_code(), fnames, gnames),
                bin.code() == spec_ctx_code(self.funcs(), fnames, gnames),
                bin.code().len() == spec_total_code_size(self.funcs()),
                forall|k: int|
                    0 <= k < j ==> ((#[trigger] bin.globs()[k]).offset == spec_total_glob_data(
                        self.globs().take(k),
                    ) && bin.globs()[k].size == spec_value_bytes(
                        self.globs()[k].spec_value(),
                    ).len() && bin.globs()[k].value_type == spec_value_type(
                        self.globs()[k].spec_value(),
                    )),
                forall|k: int|
                    j <= k < ng ==> ((#[trigger] bin.globs()[k]).offset == 0 && bin.globs()[
                        k
                    ].size == 0 && bin.globs()[k].value_type == 0),
                bin.glob_data() == spec_ctx_glob_data(self.globs().take(j as int)),
                bin.glob_data().len() == spec_total_glob_data(self.globs().take(j as int)),
            decreases ng - j,
        {
            let glob = &self.globs[j];
            proof {
                lemma_total_glob_take_succ(self.globs(), j as int);
                lemma_total_glob_take_monotonic(self.globs(), j + 1, ng as int);
                assert(self.globs().take(ng as int) =~= self.globs());
                assert forall|k: int| 0 <= k < j as int implies gnames[k] != glob.spec_name() by {
                    assert(gnames[j as int] == glob.spec_name());
                }
                lemma_find_name_seq_at(gnames, glob.spec_name(), j as int);
            }
            match glob.encode(&mut bin) {
                Ok(_) => {},
                Err(_) => {
                    return Err(String::from_str("Failed to encode global"));
                },
            }
            proof {
                lemma_ctx_glob_take_succ(self.globs(), j as int);
                assert(bin.glob_data() == spec_ctx_glob_data(self.globs().take(j + 1)));
            }
            j = j + 1;
        }

        proof {
            assert(self.funcs().take(nf as int) =~= self.funcs());
            assert(self.globs().take(ng as int) =~= self.globs());
        }
        let out = bin.to_bytes();
        proof {
            assert forall|k: int|
                0 <= k < nf implies spec_name_ok(
                bin.str_table_bytes(),
                (#[trigger] bin.funcs()[k]).name_idx as int,
            ) && spec_name_bytes(bin.str_table_bytes(), bin.funcs()[k].name_idx as int)
                == encode_utf8(fnames[k]) by {
                assert(spec_find_name_off(bin.strings(), fnames[k]) == Some(
                    bin.funcs()[k].name_idx,
                ));
                lemma_find_name_off_witness(bin.strings(), fnames[k]);
            }
            assert forall|k: int|
                0 <= k < ng implies spec_name_ok(
                bin.str_table_bytes(),
                (#[trigger] bin.globs()[k]).name_idx as int,
            ) && spec_name_bytes(bin.str_table_bytes(), bin.globs()[k].name_idx as int)
                == encode_utf8(gnames[k]) by {
                assert(spec_find_name_off(bin.strings(), gnames[k]) == Some(
                    bin.globs()[k].name_idx,
                ));
                lemma_find_name_off_witness(bin.strings(), gnames[k]);
            }
            assert(spec_ctx_builds(*self, bin));
        }
        Ok(out)
    }
}

} // verus!
