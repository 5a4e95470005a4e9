use vstd::prelude::*;

verus! {

/// The number of groups of `group_size` that `len` items fill, the last
/// one perhaps in part.
pub open spec fn group_count(len: nat, group_size: nat) -> nat {
    if len % group_size == 0 {
        len / group_size
    } else {
        len / group_size + 1
    }
}

/// The number of items in group `i` of `len` items cut into groups of
/// `group_size`.
pub open spec fn group_len(len: nat, group_size: nat, i: int) -> int {
    if (i + 1) * group_size <= len {
        group_size as int
    } else {
        len - i * group_size
    }
}

/// Whether place `j` of group `i` holds the item that belongs there: the
/// one at `i * group_size + j`.
pub open spec fn in_place<T>(items: Seq<T>, group_size: nat, groups: Seq<Vec<&T>>, i: int, j: int) -> bool {
    &&& 0 <= i * group_size + j < items.len()
    &&& *groups[i]@[j] == items[i * group_size + j]
}

/// Cuts `items` into groups of `group_size` neighbours, in their order; the
/// last group holds what is left.
pub fn split_into_groups<T>(items: &Vec<T>, group_size: usize) -> (groups: Vec<Vec<&T>>)
    requires
        group_size > 0,
    ensures
        groups@.len() == group_count(items@.len(), group_size as nat),
        forall|i: int|
            0 <= i < groups@.len() ==> (#[trigger] groups@[i])@.len() == group_len(
                items@.len(),
                group_size as nat,
                i,
            ),
        forall|i: int, j: int|
            0 <= i < groups@.len() && 0 <= j < groups@[i]@.len() ==> #[trigger] in_place(
                items@,
                group_size as nat,
                groups@,
                i,
                j,
            ),
{
    let mut groups: Vec<Vec<&T>> = Vec::new();
    let len = items.len();
    proof {
        lemma_group_bounds(len as int, group_size as int);
    }
    let whole: usize = len / group_size;
    let count: usize = if len % group_size == 0 {
        whole
    } else {
        whole + 1
    };
    let mut start: usize = 0;
    let mut g: usize = 0;
    while g < count
        invariant
            group_size > 0,
            len == items@.len(),
            count == group_count(len as nat, group_size as nat),
            (count - 1) * group_size < len <= count * group_size || (count == 0 && len == 0),
            0 <= g <= count,
            groups@.len() == g,
            g < count ==> start == g * group_size,
            start <= len,
            forall|i: int|
                0 <= i < g ==> (#[trigger] groups@[i])@.len() == group_len(
                    len as nat,
                    group_size as nat,
                    i,
                ),
            forall|i: int, j: int|
                0 <= i < g && 0 <= j < groups@[i]@.len() ==> #[trigger] in_place(
                    items@,
                    group_size as nat,
                    groups@,
                    i,
                    j,
                ),
        decreases count - g,
    {
        proof {
            assert(g * group_size <= (count - 1) * group_size) by (nonlinear_arith)
                requires
                    g <= count - 1,
                    group_size > 0,
            ;
            assert((g + 1) * group_size == g * group_size + group_size) by (nonlinear_arith);
            assert(g + 1 < count ==> (g + 1) * group_size <= (count - 1) * group_size)
                by (nonlinear_arith)
                requires
                    group_size > 0,
            ;
        }
        let end: usize = if len - start < group_size {
            len
        } else {
            start + group_size
        };
        let mut group: Vec<&T> = Vec::new();
        let mut j: usize = start;
        while j < end
            invariant
                start <= j <= end <= len,
                len == items@.len(),
                group@.len() == j - start,
                forall|k: int| 0 <= k < group@.len() ==> *(#[trigger] group@[k]) == items@[start + k],
            decreases end - j,
        {
            group.push(&items[j]);
            j += 1;
        }
        let ghost before = groups@;
        let ghost filled = group@;
        groups.push(group);
        proof {
            assert forall|i: int| 0 <= i < g + 1 implies (#[trigger] groups@[i])@.len()
                == group_len(len as nat, group_size as nat, i) by {
                if i < g {
                    assert(groups@[i] == before[i]);
                } else {
                    assert(groups@[i]@ == filled);
                }
            }
            assert forall|i: int, k: int|
                0 <= i < g + 1 && 0 <= k < groups@[i]@.len() implies #[trigger] in_place(
                items@,
                group_size as nat,
                groups@,
                i,
                k,
            ) by {
                if i < g {
                    assert(groups@[i] == before[i]);
                    assert(in_place(items@, group_size as nat, before, i, k));
                } else {
                    assert(groups@[i]@ == filled);
                    assert(i * group_size == start);
                    assert(*filled[k] == items@[start + k]);
                }
            }
        }
        start = end;
        g += 1;
    }
    groups
}

/// The groups but the last are filled by fewer items than there are, and
/// all groups together have room for every item.
proof fn lemma_group_bounds(len: int, size: int)
    requires
        size > 0,
        len >= 0,
    ensures
        (group_count(len as nat, size as nat) - 1) * size < len <= group_count(
            len as nat,
            size as nat,
        ) * size || (group_count(len as nat, size as nat) == 0 && len == 0),
        len / size >= 0,
        len % size != 0 ==> len / size < len,
{
    vstd::arithmetic::div_mod::lemma_fundamental_div_mod(len, size);
    vstd::arithmetic::div_mod::lemma_mod_bound(len, size);
    let d = len / size;
    let r = len % size;
    assert(len == size * d + r);
    assert(size * d == d * size) by (nonlinear_arith);
    assert((d + 1) * size == d * size + size) by (nonlinear_arith);
    assert((d - 1) * size == d * size - size) by (nonlinear_arith);
    assert(d >= 0) by (nonlinear_arith)
        requires
            len == d * size + r,
            0 <= r < size,
            len >= 0,
            size > 0,
    ;
    assert(d <= d * size) by (nonlinear_arith)
        requires
            d >= 0,
            size > 0,
    ;
}

} // verus!
