//! String-table lookup: names live in the image as concatenated
//! NUL-terminated UTF-8 byte runs, referenced by byte offset.

use vstd::prelude::*;
use vstd::utf8::{encode_utf8, valid_utf8};

verus! {

/// Index of the first NUL byte at or after `from`; `s.len()` when there is
/// none (or `from` is already outside the table).
pub open spec fn spec_first_nul(s: Seq<u8>, from: int) -> int
    decreases s.len() - from,
{
    if from < 0 || from >= s.len() {
        s.len() as int
    } else if s[from] == 0 {
        from
    } else {
        spec_first_nul(s, from + 1)
    }
}

pub proof fn lemma_first_nul_advance(s: Seq<u8>, from: int, i: int)
    requires
        0 <= from <= i <= s.len(),
        forall|j: int| from <= j < i ==> s[j] != 0,
    ensures
        spec_first_nul(s, from) == spec_first_nul(s, i),
    decreases i - from,
{
    if from < i {
        lemma_first_nul_advance(s, from + 1, i);
    }
}

/// Relies on `String::from_utf8`: it succeeds exactly on valid UTF-8 and
/// the resulting string's characters encode back to the input bytes.
#[verifier::external_body]
fn string_from_utf8(bytes: Vec<u8>) -> (r: Option<String>)
    ensures
        r is Some <==> valid_utf8(bytes@),
        r is Some ==> encode_utf8(r->0@) == bytes@,
{
    String::from_utf8(bytes).ok()
}

/// Parse the NUL-terminated UTF-8 name that starts at byte `offset` of the
/// string table. Fails when no terminator exists before the end of the
/// table or the bytes before it are not valid UTF-8.
pub fn str_from_table(str_table: &Vec<u8>, offset: u32) -> (r: Result<String, String>)
    ensures
        ({
            let e = spec_first_nul(str_table@, offset as int);
            &&& r is Ok <==> e < str_table@.len() && valid_utf8(
                str_table@.subrange(offset as int, e),
            )
            &&& r is Ok ==> encode_utf8(r->Ok_0@) == str_table@.subrange(offset as int, e)
        }),
{
    let n = str_table.len();
    if offset as usize >= n {
        proof {
            assert(spec_first_nul(str_table@, offset as int) == str_table@.len());
        }
        return Err(String::from_str("Failed to parse string from string table"));
    }
    let mut idx: usize = offset as usize;
    loop
        invariant
            offset as usize <= idx <= n,
            n == str_table@.len(),
            forall|j: int| offset <= j < idx ==> str_table@[j] != 0,
        ensures
            offset as usize <= idx < n,
            str_table@[idx as int] == 0,
            forall|j: int| offset <= j < idx ==> str_table@[j] != 0,
        decreases n - idx,
    {
        if idx >= n {
            proof {
                lemma_first_nul_advance(str_table@, offset as int, idx as int);
            }
            return Err(String::from_str("Failed to parse string from string table"));
        }
        if str_table[idx] == 0 {
            break;
        }
        idx = idx + 1;
    }
    proof {
        lemma_first_nul_advance(str_table@, offset as int, idx as int);
        assert(spec_first_nul(str_table@, offset as int) == idx);
    }
    let str_bytes: Vec<u8> = vstd::slice::slice_to_vec(
        vstd::slice::slice_subrange(str_table.as_slice(), offset as usize, idx),
    );
    match string_from_utf8(str_bytes) {
        Some(name) => Ok(name),
        None => Err(String::from_str("Failed to parse string from string table")),
    }
}


/// Appending bytes to a table does not move a terminator that already
/// exists.
pub proof fn lemma_first_nul_append_stable(t: Seq<u8>, ext: Seq<u8>, off: int)
    requires
        0 <= off,
        spec_first_nul(t, off) < t.len(),
    ensures
        spec_first_nul(t + ext, off) == spec_first_nul(t, off),
        (t + ext).subrange(off, spec_first_nul(t, off)) == t.subrange(off, spec_first_nul(t, off)),
    decreases t.len() - off,
{
    lemma_first_nul_bounds(t, off);
    if off < t.len() {
        assert((t + ext)[off] == t[off]);
        if t[off] != 0 {
            lemma_first_nul_append_stable(t, ext, off + 1);
            assert((t + ext).subrange(off, spec_first_nul(t, off)) =~= t.subrange(
                off,
                spec_first_nul(t, off),
            ));
        } else {
            assert((t + ext).subrange(off, off) =~= t.subrange(off, off));
        }
    }
}

/// A name always starts at or after its offset and ends in the table.
pub proof fn lemma_first_nul_bounds(s: Seq<u8>, from: int)
    ensures
        spec_first_nul(s, from) <= s.len(),
        from <= s.len() && 0 <= from ==> from <= spec_first_nul(s, from),
    decreases s.len() - from,
{
    if 0 <= from && from < s.len() && s[from] != 0 {
        lemma_first_nul_bounds(s, from + 1);
    }
}

/// A NUL-free run appended with its terminator is found intact: the scan
/// from its start stops exactly at the terminator.
pub proof fn lemma_first_nul_fresh(t: Seq<u8>, data: Seq<u8>)
    requires
        forall|k: int| 0 <= k < data.len() ==> data[k] != 0,
    ensures
        spec_first_nul(t + data + seq![0u8], t.len() as int) == t.len() + data.len() as int,
        (t + data + seq![0u8]).subrange(t.len() as int, t.len() + data.len() as int) == data,
{
    let full = t + data + seq![0u8];
    assert(forall|j: int|
        t.len() <= j < t.len() + data.len() ==> #[trigger] full[j] == data[j - t.len()]);
    lemma_first_nul_advance(full, t.len() as int, t.len() + data.len() as int);
    assert(full[t.len() + data.len() as int] == 0);
    assert(full.subrange(t.len() as int, t.len() + data.len() as int) =~= data);
}

} // verus!
