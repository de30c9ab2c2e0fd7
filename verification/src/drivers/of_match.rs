//! Matching device-tree nodes to drivers: a node is handled by the first driver, in table
//! order, that lists one of the node's `compatible` strings.
use vstd::prelude::*;

verus! {

/// The contents of each byte string.
pub open spec fn views(s: Seq<&[u8]>) -> Seq<Seq<u8>> {
    s.map_values(|x: &[u8]| x@)
}

/// Some string of `node` equals some string of `table`.
pub open spec fn any_match(node: Seq<Seq<u8>>, table: Seq<Seq<u8>>) -> bool {
    exists|i: int, j: int| 0 <= i < node.len() && 0 <= j < table.len() && #[trigger] node[i] == #[trigger] table[j]
}

/// Whether two byte strings are equal.
pub fn bytes_eq(a: &[u8], b: &[u8]) -> (r: bool)
    ensures
        r == (a@ == b@),
{
    if a.len() != b.len() {
        return false;
    }
    let mut i: usize = 0;
    while i < a.len()
        invariant
            a@.len() == b@.len(),
            i <= a@.len(),
            forall|k: int| 0 <= k < i ==> a@[k] == b@[k],
        decreases a@.len() - i,
    {
        if a[i] != b[i] {
            return false;
        }
        i += 1;
    }
    assert(a@ =~= b@);
    true
}

/// Whether a node with the given `compatible` strings matches a driver that lists
/// `of_match`.
pub fn compatible_with(compatibles: &[&[u8]], of_match: &[&[u8]]) -> (r: bool)
    ensures
        r == any_match(views(compatibles@), views(of_match@)),
{
    let ghost node = views(compatibles@);
    let ghost table = views(of_match@);
    let mut i: usize = 0;
    while i < compatibles.len()
        invariant
            i <= compatibles@.len(),
            node == views(compatibles@),
            table == views(of_match@),
            forall|a: int, b: int| 0 <= a < i && 0 <= b < table.len() ==> node[a] != table[b],
        decreases compatibles@.len() - i,
    {
        let mut j: usize = 0;
        while j < of_match.len()
            invariant
                i < compatibles@.len(),
                j <= of_match@.len(),
                node == views(compatibles@),
                table == views(of_match@),
                forall|a: int, b: int| 0 <= a < i && 0 <= b < table.len() ==> node[a] != table[b],
                forall|b: int| 0 <= b < j ==> node[i as int] != table[b],
            decreases of_match@.len() - j,
        {
            if bytes_eq(compatibles[i], of_match[j]) {
                assert(node[i as int] == table[j as int]);
                return true;
            }
            j += 1;
        }
        i += 1;
    }
    false
}

/// The first driver, in table order, whose match list shares a string with the node's
/// `compatible` strings.
pub fn find_driver(compatibles: &[&[u8]], drivers: &[&[&[u8]]]) -> (r: Option<usize>)
    ensures
        match r {
            Some(k) => k < drivers@.len() && any_match(views(compatibles@), views(drivers@[k as int]@))
                && forall|j: int| 0 <= j < k ==> !any_match(views(compatibles@), views(#[trigger] drivers@[j]@)),
            None => forall|j: int| 0 <= j < drivers@.len() ==> !any_match(views(compatibles@), views(#[trigger] drivers@[j]@)),
        },
{
    let mut k: usize = 0;
    while k < drivers.len()
        invariant
            k <= drivers@.len(),
            forall|j: int| 0 <= j < k ==> !any_match(views(compatibles@), views(#[trigger] drivers@[j]@)),
        decreases drivers@.len() - k,
    {
        if compatible_with(compatibles, drivers[k]) {
            return Some(k);
        }
        k += 1;
    }
    None
}

} // verus!
