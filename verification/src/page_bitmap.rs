//! Page-descriptor bookkeeping shared by the bitmap frame allocators.
//!
//! Each managed page has a one-byte descriptor: free (`0`), part of an allocated chunk
//! (`PAGE_TAKEN`), or the last page of an allocated chunk (`PAGE_LAST`).
use vstd::prelude::*;

verus! {

/// Descriptor value of a free page.
pub const PAGE_FREE: u8 = 0;
/// Descriptor flag of a page inside an allocated chunk that is not its last page.
pub const PAGE_TAKEN: u8 = 1;
/// Descriptor flag of the last (or only) page of an allocated chunk.
pub const PAGE_LAST: u8 = 2;

/// Every descriptor holds one of the three page states.
pub open spec fn valid_states(s: Seq<u8>) -> bool {
    forall|k: int| 0 <= k < s.len() ==> #[trigger] s[k] == PAGE_FREE || s[k] == PAGE_TAKEN || s[k] == PAGE_LAST
}

/// Pages `[i, i + count)` all exist and are free.
pub open spec fn run_free(s: Seq<u8>, i: int, count: int) -> bool {
    &&& 0 <= i
    &&& i + count <= s.len()
    &&& forall|k: int| i <= k < i + count ==> s[k] == PAGE_FREE
}

/// No run of `count` free pages starts before page `i`.
pub open spec fn no_run_before(s: Seq<u8>, i: int, count: int) -> bool {
    forall|k: int| 0 <= k < i ==> !#[trigger] run_free(s, k, count)
}

/// No run of `count` free pages exists at all.
pub open spec fn no_run(s: Seq<u8>, count: int) -> bool {
    forall|k: int| !#[trigger] run_free(s, k, count)
}

/// The descriptors after marking pages `[i, i + count)` as one allocated chunk.
pub open spec fn marked_run(s: Seq<u8>, i: int, count: int) -> Seq<u8> {
    Seq::new(
        s.len(),
        |k: int|
            if i <= k < i + count - 1 {
                PAGE_TAKEN
            } else if k == i + count - 1 {
                PAGE_LAST
            } else {
                s[k]
            },
    )
}

/// Index of the first page at or after `k` marked as the last page of a chunk, or the
/// number of pages if there is none.
pub open spec fn first_last(s: Seq<u8>, k: int) -> int
    decreases s.len() - k,
{
    if k >= s.len() {
        s.len() as int
    } else if s[k] == PAGE_LAST {
        k
    } else {
        first_last(s, k + 1)
    }
}

/// The pages from `offset` up to the end of the chunk it belongs to are all allocated.
pub open spec fn chunk_tail_intact(s: Seq<u8>, offset: int) -> bool {
    forall|k: int| offset <= k < first_last(s, offset) && k < s.len() ==> s[k] == PAGE_TAKEN
}

/// The descriptors after releasing the pages from `offset` through the end of its chunk.
pub open spec fn released_from(s: Seq<u8>, offset: int) -> Seq<u8> {
    Seq::new(
        s.len(),
        |k: int| if offset <= k <= first_last(s, offset) { PAGE_FREE } else { s[k] },
    )
}

/// Basic facts about `first_last`.
pub proof fn lemma_first_last(s: Seq<u8>, k: int)
    requires
        0 <= k <= s.len(),
    ensures
        k <= first_last(s, k) <= s.len(),
        first_last(s, k) < s.len() ==> s[first_last(s, k)] == PAGE_LAST,
        forall|m: int| k <= m < first_last(s, k) ==> s[m] != PAGE_LAST,
    decreases s.len() - k,
{
    if k < s.len() && s[k] != PAGE_LAST {
        lemma_first_last(s, k + 1);
    }
}

/// In a freshly marked chunk, the chunk end seen from any of its pages is its last page.
pub proof fn lemma_marked_first_last(s: Seq<u8>, i: int, count: int, k: int)
    requires
        run_free(s, i, count),
        count > 0,
        i <= k <= i + count - 1,
    ensures
        first_last(marked_run(s, i, count), k) == i + count - 1,
    decreases i + count - 1 - k,
{
    if k < i + count - 1 {
        lemma_marked_first_last(s, i, count, k + 1);
    }
}

/// Marking a run of free pages as a chunk and then releasing the chunk from its first page
/// gives back the descriptors from before; the release is allowed, since the chunk is intact.
pub proof fn lemma_release_undoes_mark(s: Seq<u8>, i: int, count: int)
    requires
        run_free(s, i, count),
        count > 0,
    ensures
        chunk_tail_intact(marked_run(s, i, count), i),
        released_from(marked_run(s, i, count), i) == s,
{
    let m = marked_run(s, i, count);
    lemma_marked_first_last(s, i, count, i);
    assert(released_from(m, i) =~= s);
}

/// Index of the first non-free page in `[from, to)`, if any.
fn first_taken(d: &Vec<u8>, from: usize, to: usize) -> (r: Option<usize>)
    requires
        from <= to <= d.len(),
    ensures
        match r {
            Some(j) => from <= j < to && d@[j as int] != PAGE_FREE && forall|k: int|
                from <= k < j ==> d@[k] == PAGE_FREE,
            None => forall|k: int| from <= k < to ==> d@[k] == PAGE_FREE,
        },
{
    let mut j = from;
    while j < to
        invariant
            from <= j <= to <= d.len(),
            forall|k: int| from <= k < j ==> d@[k] == PAGE_FREE,
        decreases to - j,
    {
        if d[j] != PAGE_FREE {
            return Some(j);
        }
        j += 1;
    }
    None
}

/// Finds the first run of `count` free pages.
pub fn find_free_run(d: &Vec<u8>, count: usize) -> (r: Option<usize>)
    requires
        count > 0,
    ensures
        match r {
            Some(i) => run_free(d@, i as int, count as int) && no_run_before(d@, i as int, count as int),
            None => no_run(d@, count as int),
        },
{
    let n = d.len();
    let mut i: usize = 0;
    while i < n
        invariant
            0 <= i <= n,
            n == d.len(),
            count > 0,
            no_run_before(d@, i as int, count as int),
        decreases n - i,
    {
        if d[i] != PAGE_FREE {
            // Page already taken: no run can start here.
            assert(!run_free(d@, i as int, count as int));
            i += 1;
        } else {
            if n - i < count {
                // Not enough pages left for any run from here on.
                assert forall|k: int| !#[trigger] run_free(d@, k, count as int) by {
                    if 0 <= k < i {
                    }
                }
                return None;
            }
            match first_taken(d, i, i + count) {
                Some(j) => {
                    // Every run starting in [i, j] covers the taken page j.
                    assert forall|k: int| 0 <= k < j + 1 implies !#[trigger] run_free(d@, k, count as int) by {
                        if k >= i {
                            assert(d@[j as int] != PAGE_FREE);
                        }
                    }
                    i = j + 1;
                },
                None => {
                    return Some(i);
                },
            }
        }
    }
    assert forall|k: int| !#[trigger] run_free(d@, k, count as int) by {
        if 0 <= k < i {
        }
    }
    None
}

/// Marks the free pages `[i, i + count)` as one allocated chunk.
pub fn mark_run(d: &mut Vec<u8>, i: usize, count: usize)
    requires
        count > 0,
        run_free(old(d)@, i as int, count as int),
    ensures
        final(d)@ == marked_run(old(d)@, i as int, count as int),
{
    let ghost s = d@;
    assert(i + count <= s.len());
    assert(s.len() == d.len());
    let end = i + count;
    let mut j = i;
    while j < end
        invariant
            i <= j <= end,
            end == i + count,
            end <= d.len(),
            d.len() == s.len(),
            forall|k: int| 0 <= k < d.len() ==> d@[k] == if i <= k < j {
                marked_run(s, i as int, count as int)[k]
            } else {
                s[k]
            },
        decreases end - j,
    {
        let flag = if j == end - 1 { PAGE_LAST } else { PAGE_TAKEN };
        d.set(j, flag);
        j += 1;
    }
    assert(d@ =~= marked_run(s, i as int, count as int));
}

/// Releases the pages from `offset` through the end of the chunk it belongs to (or through
/// the last page if no chunk end follows).
pub fn release_from(d: &mut Vec<u8>, offset: usize)
    requires
        offset <= old(d).len(),
        chunk_tail_intact(old(d)@, offset as int),
    ensures
        final(d)@ == released_from(old(d)@, offset as int),
{
    let ghost s = d@;
    proof { lemma_first_last(s, offset as int); }
    let mut i = offset;
    while i < d.len()
        invariant
            offset <= i <= first_last(s, offset as int),
            s == old(d)@,
            first_last(s, offset as int) <= s.len(),
            d.len() == s.len(),
            chunk_tail_intact(s, offset as int),
            forall|m: int| offset <= m < first_last(s, offset as int) ==> s[m] != PAGE_LAST,
            first_last(s, offset as int) < s.len() ==> s[first_last(s, offset as int)] == PAGE_LAST,
            forall|k: int| 0 <= k < d.len() ==> d@[k] == if offset <= k < i { PAGE_FREE } else { s[k] },
        decreases d.len() - i,
    {
        let is_last = d[i] == PAGE_LAST;
        d.set(i, PAGE_FREE);
        if is_last {
            assert(d@ =~= released_from(s, offset as int));
            return;
        }
        i += 1;
    }
    assert(d@ =~= released_from(s, offset as int));
}

} // verus!
