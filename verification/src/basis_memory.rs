//! Memory of optimal bases.

use crate::matrix;
use crate::number::Real;
use crate::simplex;
use crate::simplex::REFACTOR_EVERY;
use vstd::prelude::*;

verus! {

/// A basis that was optimal once, with the numbers that belong to it.
#[derive(Debug, PartialEq, Eq)]
pub struct RememberedBasis {
    /// Column at each position.
    pub basis: Vec<usize>,
    /// Inverse of the basis.
    pub binv: Vec<Vec<Real>>,
    /// Basic values.
    pub xb: Vec<Real>,
    /// Pivots since the basis was last factorised.
    pub pivots_since_refactor: usize,
}

/// A bounded memory of bases, the oldest of which is replaced when it is full.
#[derive(Debug, PartialEq, Eq)]
pub struct BasisMemory {
    /// The bases.
    pub entries: Vec<RememberedBasis>,
    /// Most bases that are kept.
    pub cap: usize,
    /// Place of the basis that is replaced next.
    pub next: usize,
}

/// Whether all columns of one basis occur in another.
pub open spec fn covers(left: Seq<usize>, right: Seq<usize>) -> bool {
    forall|i: int| 0 <= i < left.len() ==> right.contains(#[trigger] left[i])
}

/// Whether two bases consist of the same columns.
pub open spec fn same_columns(left: Seq<usize>, right: Seq<usize>) -> bool {
    left.len() == right.len() && covers(left, right)
}

fn occurs(columns: &[usize], column: usize) -> (r: bool)
    ensures
        r == columns@.contains(column),
{
    let mut i: usize = 0;
    while i < columns.len()
        invariant
            i <= columns.len(),
            forall|k: int| 0 <= k < i ==> columns@[k] != column,
        decreases columns.len() - i,
    {
        if columns[i] == column {
            assert(columns@[i as int] == column);
            return true;
        }
        i = i + 1;
    }
    false
}

fn are_same_columns(left: &[usize], right: &[usize]) -> (r: bool)
    ensures
        r == same_columns(left@, right@),
{
    if left.len() != right.len() {
        return false;
    }
    let mut i: usize = 0;
    while i < left.len()
        invariant
            i <= left.len(),
            left.len() == right.len(),
            forall|k: int| 0 <= k < i ==> right@.contains(#[trigger] left@[k]),
        decreases left.len() - i,
    {
        if !occurs(right, left[i]) {
            assert(!right@.contains(left@[i as int]));
            return false;
        }
        i = i + 1;
    }
    true
}

/// Whether `i` is the first place of the largest value above `current`.
pub open spec fn best_above(values: Seq<Real>, current: Real, i: int) -> bool {
    &&& 0 <= i < values.len()
    &&& current.lt(values[i])
    &&& forall|k: int| 0 <= k < i ==> !values[i].le(#[trigger] values[k])
    &&& forall|k: int| 0 <= k < values.len() ==> !values[i].lt(#[trigger] values[k])
}

/// The first place of the largest value above `current`, if a value lies above.
pub fn find_best_above(values: &[Real], current: Real) -> (best: Option<usize>)
    ensures
        match best {
            Some(i) => best_above(values@, current, i as int),
            None => forall|k: int| 0 <= k < values.len() ==> !current.lt(#[trigger] values@[k]),
        },
{
    let mut best: Option<usize> = None;
    let mut top = current;
    let mut i: usize = 0;
    while i < values.len()
        invariant
            i <= values.len(),
            match best {
                None => top == current && forall|k: int|
                    0 <= k < i ==> !current.lt(#[trigger] values@[k]),
                Some(b) => {
                    &&& b < i
                    &&& top == values@[b as int]
                    &&& current.lt(top)
                    &&& forall|k: int| 0 <= k < b ==> !top.le(#[trigger] values@[k])
                    &&& forall|k: int| 0 <= k < i ==> !top.lt(#[trigger] values@[k])
                },
            },
        decreases values.len() - i,
    {
        if top.less(values[i]) {
            top = values[i];
            best = Some(i);
        }
        i = i + 1;
    }
    best
}

impl RememberedBasis {
    /// Whether the basis is one of a program with `m` rows and `n` columns.
    pub open spec fn fits(self, m: int, n: int) -> bool {
        &&& self.basis.len() == m
        &&& self.binv.len() == m
        &&& matrix::has_cols(self.binv@, m)
        &&& self.xb.len() == m
        &&& simplex::distinct(self.basis@)
        &&& forall|i: int| 0 <= i < m ==> (#[trigger] self.basis@[i]) < n + m
        &&& self.pivots_since_refactor < REFACTOR_EVERY
    }
}

impl BasisMemory {
    /// The memory is not overfull, and no two bases in it are the same.
    pub open spec fn wf(self) -> bool {
        &&& self.entries.len() <= self.cap
        &&& self.next < self.cap || self.next == 0
        &&& forall|a: int, b: int|
            0 <= a < b < self.entries.len() ==> !same_columns(
                (#[trigger] self.entries@[a]).basis@,
                (#[trigger] self.entries@[b]).basis@,
            )
    }

    /// Whether every basis fits a program.
    pub open spec fn fits(self, m: int, n: int) -> bool {
        forall|i: int| 0 <= i < self.entries.len() ==> (#[trigger] self.entries@[i]).fits(m, n)
    }

    /// Whether a basis is remembered.
    pub open spec fn holds(self, basis: Seq<usize>) -> bool {
        exists|i: int|
            0 <= i < self.entries.len() && same_columns(
                (#[trigger] self.entries@[i]).basis@,
                basis,
            )
    }

    /// An empty memory for `cap` bases.
    pub fn new(cap: usize) -> (memory: Self)
        ensures
            memory.wf(),
            memory.entries@.len() == 0,
            memory.cap == cap,
            memory.next == 0,
    {
        BasisMemory { entries: Vec::new(), cap, next: 0 }
    }

    /// Whether a basis is remembered.
    pub fn knows(&self, basis: &[usize]) -> (r: bool)
        ensures
            r == self.holds(basis@),
    {
        let mut i: usize = 0;
        while i < self.entries.len()
            invariant
                i <= self.entries.len(),
                forall|k: int|
                    0 <= k < i ==> !same_columns((#[trigger] self.entries@[k]).basis@, basis@),
            decreases self.entries.len() - i,
        {
            if are_same_columns(self.entries[i].basis.as_slice(), basis) {
                assert(same_columns(self.entries@[i as int].basis@, basis@));
                return true;
            }
            i = i + 1;
        }
        false
    }

    /// The entries after one more is remembered: behind the others while there
    /// is room, else in place of the next in turn.
    pub open spec fn with_entry(self, entry: RememberedBasis) -> Seq<RememberedBasis> {
        if self.entries.len() < self.cap {
            self.entries@.push(entry)
        } else {
            self.entries@.update(self.next as int, entry)
        }
    }

    /// Remembers a basis that is not known yet.
    pub fn remember(&mut self, entry: RememberedBasis)
        requires
            old(self).wf(),
            old(self).cap > 0,
            !old(self).holds(entry.basis@),
            simplex::distinct(entry.basis@),
            forall|i: int|
                0 <= i < old(self).entries.len() ==> simplex::distinct(
                    (#[trigger] old(self).entries@[i]).basis@,
                ),
        ensures
            final(self).wf(),
            final(self).cap == old(self).cap,
            final(self).entries@ == old(self).with_entry(entry),
            final(self).next == (if old(self).entries.len() < old(self).cap {
                old(self).next as int
            } else {
                (old(self).next + 1) % old(self).cap as int
            }),
    {
        let ghost before = *self;
        let ghost added = entry.basis@;
        proof {
            assert forall|i: int| 0 <= i < before.entries.len() implies !same_columns(
                (#[trigger] before.entries@[i]).basis@,
                added,
            ) && !same_columns(added, before.entries@[i].basis@) by {
                if same_columns(added, before.entries@[i].basis@) {
                    same_columns_both_ways(added, before.entries@[i].basis@);
                }
            }
        }
        if self.entries.len() < self.cap {
            self.entries.push(entry);
        } else {
            let place: usize = self.next;
            self.entries.set(place, entry);
            self.next = (place + 1) % self.cap;
        }
        proof {
            assert forall|a: int, b: int| 0 <= a < b < self.entries.len() implies !same_columns(
                (#[trigger] self.entries@[a]).basis@,
                (#[trigger] self.entries@[b]).basis@,
            ) by {
                if self.entries@[a].basis@ == added && self.entries@[b] == before.entries@[b] {
                    assert(!same_columns(added, before.entries@[b].basis@));
                } else if self.entries@[b].basis@ == added && self.entries@[a]
                    == before.entries@[a] {
                    assert(!same_columns(before.entries@[a].basis@, added));
                }
            }
        }
    }
}

proof fn covering_sets(left: Seq<usize>, right: Seq<usize>)
    requires
        covers(left, right),
    ensures
        left.to_set().subset_of(right.to_set()),
{
    assert forall|x: usize| left.to_set().contains(x) implies right.to_set().contains(x) by {
        let i = choose|i: int| 0 <= i < left.len() && left[i] == x;
        assert(right.contains(left[i]));
    }
}

/// Between lists without repetition, having the same columns does not depend on
/// the order in which the two are named.
pub proof fn same_columns_both_ways(left: Seq<usize>, right: Seq<usize>)
    requires
        simplex::distinct(left),
        simplex::distinct(right),
        same_columns(left, right),
    ensures
        same_columns(right, left),
{
    broadcast use vstd::seq_lib::seq_to_set_is_finite;

    assert(left.no_duplicates()) by {
        assert forall|a: int, b: int|
            0 <= a < left.len() && 0 <= b < left.len() && a != b implies left[a] != left[b] by {
            if a < b {
                assert(left[a] != left[b]);
            } else {
                assert(left[b] != left[a]);
            }
        }
    }
    assert(right.no_duplicates()) by {
        assert forall|a: int, b: int|
            0 <= a < right.len() && 0 <= b < right.len() && a != b implies right[a] != right[b] by {
            if a < b {
                assert(right[a] != right[b]);
            } else {
                assert(right[b] != right[a]);
            }
        }
    }
    left.unique_seq_to_set();
    right.unique_seq_to_set();
    covering_sets(left, right);
    vstd::set_lib::lemma_subset_equality(left.to_set(), right.to_set());
    assert forall|i: int| 0 <= i < right.len() implies left.contains(#[trigger] right[i]) by {
        assert(right.to_set().contains(right[i]));
        assert(left.to_set().contains(right[i]));
    }
}

/// A basis that was remembered is known.
pub proof fn remembered_basis_is_known(
    before: BasisMemory,
    after: BasisMemory,
    entry: RememberedBasis,
)
    requires
        before.wf(),
        before.cap > 0,
        after.entries@ == before.with_entry(entry),
    ensures
        after.holds(entry.basis@),
{
    let place = if before.entries.len() < before.cap {
        before.entries.len() as int
    } else {
        before.next as int
    };
    assert(after.entries@[place] == entry);
    assert(same_columns(entry.basis@, entry.basis@));
}

} // verus!
