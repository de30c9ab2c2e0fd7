//! Kernel symbol lookup for debugging.
//!
//! The symbol table holds the sorted start address of every symbol (`offsets`), and for each
//! symbol the start of its name in a byte table (`markers` into `names`).
use vstd::prelude::*;

verus! {

/// Symbol `i` spans the addresses from its start up to the next symbol's start.
pub open spec fn in_symbol(offsets: Seq<usize>, i: int, pc: int) -> bool {
    0 <= i && i + 1 < offsets.len() && offsets[i] <= pc < offsets[i + 1]
}

/// Looks up an address and returns the symbol's index in the symbol table and its base
/// address, or `None` if no symbol is found. The first matching symbol wins.
pub fn lookup_symbol(offsets: &[usize], pc: usize) -> (r: Option<(usize, usize)>)
    ensures
        match r {
            Some((i, base)) => in_symbol(offsets@, i as int, pc as int) && base == offsets@[i as int]
                && forall|j: int| 0 <= j < i ==> !#[trigger] in_symbol(offsets@, j, pc as int),
            None => forall|j: int| !#[trigger] in_symbol(offsets@, j, pc as int),
        },
{
    let n = offsets.len();
    if n < 2 {
        return None;
    }
    let mut i: usize = 0;
    while i < n - 1
        invariant
            n == offsets@.len(),
            n >= 2,
            i <= n - 1,
            forall|j: int| 0 <= j < i ==> !#[trigger] in_symbol(offsets@, j, pc as int),
        decreases n - i,
    {
        let a = offsets[i];
        let b = offsets[i + 1];
        if a <= pc && pc < b {
            return Some((i, a));
        }
        i += 1;
    }
    None
}

/// The name table is consistent: each symbol's name starts no later than the next one, and
/// within the table.
pub open spec fn names_ok(markers: Seq<usize>, names_len: int) -> bool {
    forall|i: int| 0 <= i < markers.len() - 1 ==> #[trigger] markers[i] <= markers[i + 1] <= names_len
}

/// Looks up a kernel symbol by address and returns its name and the offset of `pc` in it,
/// or `None` if no symbol is found.
pub fn resolve_symbol<'a>(offsets: &[usize], markers: &[usize], names: &'a [u8], pc: usize) -> (r: Option<(&'a [u8], usize)>)
    requires
        markers@.len() == offsets@.len(),
        names_ok(markers@, names@.len() as int),
    ensures
        match r {
            Some((name, off)) => exists|i: int|
                #![trigger in_symbol(offsets@, i, pc as int)]
                in_symbol(offsets@, i, pc as int) && (forall|j: int| 0 <= j < i ==> !#[trigger] in_symbol(offsets@, j, pc as int))
                    && name@ == names@.subrange(markers@[i] as int, markers@[i + 1] as int) && off == pc - offsets@[i],
            None => forall|j: int| !#[trigger] in_symbol(offsets@, j, pc as int),
        },
{
    match lookup_symbol(offsets, pc) {
        Some((i, base)) => {
            let name = vstd::slice::slice_subrange(names, markers[i], markers[i + 1]);
            Some((name, pc - base))
        },
        None => None,
    }
}

} // verus!
