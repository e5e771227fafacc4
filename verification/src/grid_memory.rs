//! The memory of a grid search, and the search itself.
//!
//! [`GridMemory`] holds what is known of a grid. Each part of the search asks
//! its questions through it, so that no point is put to the test twice, and each
//! part is specified by the questions it asks and what it concludes, whatever
//! the answers that are still open turn out to be.

use crate::adaptive_grid as model;
use crate::adaptive_grid::{
    accepted_grid_range_from_flags, AcceptedGridRange, AdaptiveGridDiagnostics,
};
use crate::number::Real;
use vstd::prelude::*;

verus! {

broadcast use {vstd::seq_lib::seq_to_set_is_finite, vstd::set::group_set_axioms};

/// What is known of a grid, and the questions that led there.
struct GridMemory {
    slots: Vec<Option<bool>>,
    unique_evaluations: usize,
    cache_hits: usize,
    known: Ghost<Seq<Option<Result<bool, String>>>>,
    asked: Ghost<Seq<int>>,
}

/// Whether `answers` extends what is known.
spec fn extends(
    answers: Seq<Result<bool, String>>,
    known: Seq<Option<Result<bool, String>>>,
) -> bool {
    &&& answers.len() == known.len()
    &&& forall|i: int|
        0 <= i < known.len() && (#[trigger] known[i]) is Some ==> answers[i] == known[i]->0
}

impl GridMemory {
    spec fn wf<F: FnMut(Real) -> Result<bool, String>>(self, grid: Seq<Real>, evaluate: F) -> bool {
        &&& self.slots@.len() == grid.len()
        &&& self.known@.len() == grid.len()
        &&& forall|i: int|
            0 <= i < grid.len() ==> (#[trigger] self.slots@[i] matches Some(flag)
                ==> self.known@[i] == Some(Ok::<bool, String>(flag)))
        &&& forall|i: int|
            0 <= i < grid.len() && self.slots@[i] is None ==> (#[trigger] self.known@[i]) is None
        &&& forall|i: int|
            0 <= i < grid.len() && (#[trigger] self.known@[i]) is Some ==> call_ensures(
                evaluate,
                (grid[i],),
                self.known@[i]->0,
            )
    }

    /// The counters match the questions asked.
    spec fn counted(self) -> bool {
        &&& forall|i: int|
            0 <= i < self.slots@.len() ==> ((#[trigger] self.slots@[i]) is Some
                <==> self.asked@.contains(i))
        &&& forall|i: int| #[trigger] self.asked@.contains(i) ==> 0 <= i < self.slots@.len()
        &&& self.unique_evaluations == model::saturated(self.asked@.to_set().len() as int)
        &&& self.cache_hits == model::saturated(self.asked@.len() - self.asked@.to_set().len())
        &&& self.asked@.to_set().len() <= self.asked@.len()
    }

    /// What a step keeps: it only adds knowledge that the test gave.
    spec fn grown_from<F: FnMut(Real) -> Result<bool, String>>(
        self,
        before: GridMemory,
        grid: Seq<Real>,
        evaluate: F,
    ) -> bool {
        &&& self.known@.len() == before.known@.len()
        &&& forall|i: int|
            0 <= i < grid.len() && (#[trigger] before.known@[i]) is Some ==> self.known@[i]
                == before.known@[i]
        &&& forall|i: int|
            0 <= i < grid.len() && (#[trigger] self.known@[i]) is Some ==> call_ensures(
                evaluate,
                (grid[i],),
                self.known@[i]->0,
            )
    }

    fn new(len: usize) -> (memory: GridMemory)
        ensures
            memory.slots@ == Seq::new(len as nat, |i: int| None::<bool>),
            memory.known@ == Seq::new(len as nat, |i: int| None::<Result<bool, String>>),
            memory.asked@ == Seq::<int>::empty(),
            memory.counted(),
    {
        let mut slots: Vec<Option<bool>> = Vec::new();
        while slots.len() < len
            invariant
                slots.len() <= len,
                forall|i: int| 0 <= i < slots.len() ==> slots@[i] is None,
            decreases len - slots.len(),
        {
            slots.push(None);
        }
        let memory = GridMemory {
            slots,
            unique_evaluations: 0,
            cache_hits: 0,
            known: Ghost(Seq::new(len as nat, |i: int| None)),
            asked: Ghost(Seq::empty()),
        };
        proof {
            assert(memory.slots@ =~= Seq::new(len as nat, |i: int| None::<bool>));
            assert(Seq::<int>::empty().to_set() =~= Set::empty());
        }
        memory
    }

    /// Asks about one point, from memory where it is known.
    fn ask<F: FnMut(Real) -> Result<bool, String>>(
        &mut self,
        grid: &[Real],
        idx: usize,
        evaluate: &mut F,
    ) -> (answer: Result<bool, String>)
        requires
            old(self).wf(grid@, *old(evaluate)),
            old(self).counted(),
            idx < grid.len(),
            call_requires(*old(evaluate), (grid@[idx as int],)),
        ensures
            *final(evaluate) == *old(evaluate),
            final(self).grown_from(*old(self), grid@, *old(evaluate)),
            final(self).known@[idx as int] == Some(answer),
            answer is Ok ==> final(self).wf(grid@, *old(evaluate)) && final(self).counted()
                && final(self).asked@ == old(self).asked@.push(idx as int),
    {
        let ghost before = self.asked@;
        proof {
            before.lemma_push_to_set_commute(idx as int);
            assert forall|i: int| #[trigger] before.push(idx as int).contains(i) == (
            before.contains(i) || i == idx) by {
                if before.contains(i) {
                    let k = choose|k: int| 0 <= k < before.len() && before[k] == i;
                    assert(before.push(idx as int)[k] == i);
                }
                if i == idx {
                    assert(before.push(idx as int)[before.len() as int] == i);
                }
            }
        }
        match self.slots[idx] {
            Some(accepted) => {
                self.cache_hits = self.cache_hits.saturating_add(1);
                self.asked = Ghost(before.push(idx as int));
                proof {
                    assert(before.to_set().contains(idx as int));
                    assert(before.to_set().insert(idx as int) =~= before.to_set());
                }
                Ok(accepted)
            },
            None => {
                let answer = evaluate(grid[idx]);
                let ghost known = self.known@;
                match answer {
                    Ok(accepted) => {
                        self.slots.set(idx, Some(accepted));
                        self.unique_evaluations = self.unique_evaluations.saturating_add(1);
                        self.known = Ghost(known.update(idx as int, Some(Ok(accepted))));
                        self.asked = Ghost(before.push(idx as int));
                        proof {
                            assert(!before.to_set().contains(idx as int));
                        }
                        Ok(accepted)
                    },
                    Err(error) => {
                        self.known = Ghost(known.update(idx as int, Some(Err(error))));
                        Err(error)
                    },
                }
            },
        }
    }
}

/// The first error of a concatenation is that of its first part, if it has one.
proof fn first_error_of_concat(answers: Seq<Result<bool, String>>, left: Seq<int>, right: Seq<int>)
    ensures
        model::first_error(answers, left + right) == (if model::first_error(answers, left) is Some {
            model::first_error(answers, left)
        } else {
            model::first_error(answers, right)
        }),
    decreases left.len(),
{
    if left.len() == 0 {
        assert(left + right =~= right);
    } else {
        assert((left + right).drop_first() =~= left.drop_first() + right);
        first_error_of_concat(answers, left.drop_first(), right);
    }
}

/// A single query fails where its answer is an error.
proof fn first_error_of_one(answers: Seq<Result<bool, String>>, i: int)
    ensures
        model::first_error(answers, seq![i]) == (match answers[i] {
            Err(error) => Some(error),
            Ok(_) => None,
        }),
{
    assert(seq![i].drop_first() =~= Seq::<int>::empty());
    assert(model::first_error(answers, Seq::<int>::empty()) is None);
}

/// What a part of the search owes: it grew the memory, and every way to fill in
/// the rest of the answers agrees on the questions it asked.
spec fn part_done(
    before: GridMemory,
    after: GridMemory,
    failure: Option<String>,
    queries: spec_fn(Seq<Result<bool, String>>) -> Seq<int>,
) -> bool {
    forall|answers: Seq<Result<bool, String>>| #[trigger]
        extends(answers, after.known@) ==> {
            &&& model::first_error(answers, queries(answers)) == failure
            &&& failure is None ==> after.asked@ == before.asked@ + queries(answers)
            &&& failure is Some ==> covered(after, model::until_error(answers, queries(answers)))
        }
}

/// Whether the answers to all of `queries` are known.
spec fn covered(memory: GridMemory, queries: Seq<int>) -> bool {
    forall|i: int| #[trigger]
        queries.contains(i) ==> 0 <= i < memory.known@.len() && memory.known@[i] is Some
}

/// The queries of a concatenation up to its first failure.
proof fn until_error_of_concat(answers: Seq<Result<bool, String>>, left: Seq<int>, right: Seq<int>)
    ensures
        model::until_error(answers, left + right) == (if model::first_error(answers, left) is Some {
            model::until_error(answers, left)
        } else {
            left + model::until_error(answers, right)
        }),
        model::first_error(answers, left) is None ==> model::until_error(answers, left) == left,
    decreases left.len(),
{
    if left.len() == 0 {
        assert(left + right =~= right);
        assert(left + model::until_error(answers, right) =~= model::until_error(answers, right));
    } else {
        let rest = left.drop_first();
        assert((left + right).drop_first() =~= rest + right);
        until_error_of_concat(answers, rest, right);
        assert(seq![left[0]] + (rest + model::until_error(answers, right)) =~= left + model::until_error(
            answers,
            right,
        ));
        assert(seq![left[0]] + rest =~= left);
    }
}

/// A part fails at the first query of `rest` after `entry` was answered.
proof fn part_fails<F: FnMut(Real) -> Result<bool, String>>(
    earlier: Seq<int>,
    before: GridMemory,
    after: GridMemory,
    answers: Seq<Result<bool, String>>,
    entry: Seq<int>,
    rest: Seq<int>,
    error: String,
    grid: Seq<Real>,
    evaluate: F,
)
    requires
        before.wf(grid, evaluate),
        before.counted(),
        before.asked@ == earlier + entry,
        after.grown_from(before, grid, evaluate),
        rest.len() > 0,
        0 <= rest[0] < grid.len(),
        after.known@[rest[0]] == Some(Err::<bool, String>(error)),
        extends(answers, after.known@),
        model::first_error(answers, entry) is None,
    ensures
        model::first_error(answers, entry + rest) == Some(error),
        covered(after, model::until_error(answers, entry + rest)),
{
    first_error_of_concat(answers, entry, rest);
    until_error_of_concat(answers, entry, rest);
    let failing = rest[0];
    assert(answers[failing] == Err::<bool, String>(error));
    assert forall|i: int| #[trigger]
        model::until_error(answers, entry + rest).contains(i) implies 0 <= i < after.known@.len()
        && after.known@[i] is Some by {
        let all = model::until_error(answers, entry + rest);
        let k = choose|k: int| 0 <= k < all.len() && all[k] == i;
        assert(all =~= entry + seq![failing]);
        if k < entry.len() {
            assert(before.asked@[earlier.len() + k] == i);
            assert(before.asked@.contains(i));
            assert(before.slots@[i] is Some);
            assert(before.known@[i] is Some);
        } else {
            assert(i == failing);
        }
    }
}

impl GridMemory {
    /// Looks for the accepted point nearest to a rejected anchor, the left one
    /// first at equal distance.
    fn find_nearest_accepted_index<F: FnMut(Real) -> Result<bool, String>>(
        &mut self,
        grid: &[Real],
        anchor_idx: usize,
        evaluate: &mut F,
    ) -> (found: Result<Option<usize>, String>)
        requires
            old(self).wf(grid@, *old(evaluate)),
            old(self).counted(),
            anchor_idx < grid.len(),
            forall|i: int|
                0 <= i < grid.len() ==> call_requires(*old(evaluate), (#[trigger] grid@[i],)),
        ensures
            *final(evaluate) == *old(evaluate),
            final(self).grown_from(*old(self), grid@, *old(evaluate)),
            part_done(
                *old(self),
                *final(self),
                found.err(),
                |answers: Seq<Result<bool, String>>|
                    model::nearest_queries(answers, anchor_idx as int, 1),
            ),
            found matches Ok(index) ==> {
                &&& final(self).wf(grid@, *old(evaluate))
                &&& final(self).counted()
                &&& index matches Some(i) ==> i < grid.len()
                &&& forall|answers: Seq<Result<bool, String>>| #[trigger]
                    extends(answers, final(self).known@) ==> model::nearest_accepted(
                        answers,
                        anchor_idx as int,
                        1,
                    ) == (match index {
                        Some(i) => Some(i as int),
                        None => None,
                    })
            },
    {
        let ghost first = *self;
        let ghost mut done = Seq::<int>::empty();
        let mut radius: usize = 1;
        proof {
            assert(self.asked@ + done =~= self.asked@);
            assert forall|answers: Seq<Result<bool, String>>| #[trigger]
                extends(answers, self.known@) implies model::nearest_queries(answers, anchor_idx as int, 1)
                == done + model::nearest_queries(answers, anchor_idx as int, 1) by {
                assert(done + model::nearest_queries(answers, anchor_idx as int, 1) =~= model::nearest_queries(
                    answers,
                    anchor_idx as int,
                    1,
                ));
            }
        }
        while radius < grid.len()
            invariant
                1 <= radius,
                grid.len() > 0 ==> radius <= grid.len() || radius == 1,
                anchor_idx < grid.len(),
                *evaluate == *old(evaluate),
                first == *old(self),
                self.wf(grid@, *evaluate),
                self.counted(),
                self.grown_from(first, grid@, *evaluate),
                self.asked@ == first.asked@ + done,
                forall|i: int|
                    0 <= i < grid.len() ==> call_requires(*evaluate, (#[trigger] grid@[i],)),
                forall|answers: Seq<Result<bool, String>>| #[trigger]
                    extends(answers, self.known@) ==> {
                        &&& model::nearest_accepted(answers, anchor_idx as int, 1) == model::nearest_accepted(
                            answers,
                            anchor_idx as int,
                            radius as int,
                        )
                        &&& model::nearest_queries(answers, anchor_idx as int, 1) == done
                            + model::nearest_queries(answers, anchor_idx as int, radius as int)
                        &&& model::first_error(answers, done) is None
                    },
            decreases grid.len() - radius,
        {
            let ghost entry = done;
            let ghost opening = *self;
            if anchor_idx >= radius {
                let left: usize = anchor_idx - radius;
                let ghost before = *self;
                let answer = self.ask(grid, left, evaluate);
                match answer {
                    Err(error) => {
                        proof {
                            assert forall|answers: Seq<Result<bool, String>>| #[trigger]
                                extends(answers, self.known@) implies {
                            let queries = model::nearest_queries(answers, anchor_idx as int, 1);
                            model::first_error(answers, queries) == Some(error) && covered(
                                *self,
                                model::until_error(answers, queries),
                            )
                        } by {
                                assert(extends(answers, before.known@));
                                let rest = model::nearest_queries(
                                    answers,
                                    anchor_idx as int,
                                    radius as int,
                                );
                                assert(rest[0] == left);
                                part_fails(
                                    first.asked@,
                                    before,
                                    *self,
                                    answers,
                                    entry,
                                    rest,
                                    error,
                                    grid@,
                                    *evaluate,
                                );
                            }
                        }
                        return Err(error);
                    },
                    Ok(accepted) => {
                        proof {
                            done = entry.push(left as int);
                            assert(self.asked@ =~= first.asked@ + done);
                            assert forall|answers: Seq<Result<bool, String>>| #[trigger]
                                extends(answers, self.known@) implies model::first_error(answers, done)
                                is None by {
                                assert(extends(answers, before.known@));
                                assert(done =~= entry + seq![left as int]);
                                first_error_of_concat(answers, entry, seq![left as int]);
                                first_error_of_one(answers, left as int);
                            }
                            if accepted {
                                assert forall|answers: Seq<Result<bool, String>>| #[trigger]
                                    extends(answers, self.known@) implies model::nearest_queries(
                                    answers,
                                    anchor_idx as int,
                                    1,
                                ) == done && model::nearest_accepted(answers, anchor_idx as int, 1)
                                    == Some(left as int) by {
                                    assert(extends(answers, before.known@));
                                    assert(model::accepts(answers, left as int));
                                    assert(entry + seq![left as int] =~= done);
                                }
                            }
                        }
                        if accepted {
                            return Ok(Some(left));
                        }
                    },
                }
            }
            let ghost middle = done;
            let ghost halfway = *self;
            proof {
                assert forall|answers: Seq<Result<bool, String>>| #[trigger]
                    extends(answers, self.known@) implies {
                    &&& model::first_error(answers, middle) is None
                    &&& !(anchor_idx >= radius && model::accepts(answers, anchor_idx - radius))
                    &&& middle == entry + model::query_where(anchor_idx >= radius, anchor_idx - radius)
                } by {
                    assert(middle =~= entry + model::query_where(
                        anchor_idx >= radius,
                        anchor_idx - radius,
                    ));
                }
            }
            if radius < grid.len() - anchor_idx {
                let right: usize = anchor_idx + radius;
                let answer = self.ask(grid, right, evaluate);
                match answer {
                    Err(error) => {
                        proof {
                            assert forall|answers: Seq<Result<bool, String>>| #[trigger]
                                extends(answers, self.known@) implies {
                            let queries = model::nearest_queries(answers, anchor_idx as int, 1);
                            model::first_error(answers, queries) == Some(error) && covered(
                                *self,
                                model::until_error(answers, queries),
                            )
                        } by {
                                assert(extends(answers, halfway.known@) && extends(answers, opening.known@));
                                let rest = model::nearest_queries(
                                    answers,
                                    anchor_idx as int,
                                    radius as int,
                                );
                                let tail = model::nearest_queries(
                                    answers,
                                    anchor_idx as int,
                                    radius + 1,
                                );
                                assert(entry + rest =~= middle + (seq![right as int] + tail));
                                part_fails(
                                    first.asked@,
                                    halfway,
                                    *self,
                                    answers,
                                    middle,
                                    seq![right as int] + tail,
                                    error,
                                    grid@,
                                    *evaluate,
                                );
                            }
                        }
                        return Err(error);
                    },
                    Ok(accepted) => {
                        proof {
                            done = middle.push(right as int);
                            assert(self.asked@ =~= first.asked@ + done);
                            assert forall|answers: Seq<Result<bool, String>>| #[trigger]
                                extends(answers, self.known@) implies model::first_error(answers, done)
                                is None by {
                                assert(extends(answers, halfway.known@) && extends(answers, opening.known@));
                                assert(done =~= middle + seq![right as int]);
                                first_error_of_concat(answers, middle, seq![right as int]);
                                first_error_of_one(answers, right as int);
                            }
                            if accepted {
                                assert forall|answers: Seq<Result<bool, String>>| #[trigger]
                                    extends(answers, self.known@) implies model::nearest_queries(
                                    answers,
                                    anchor_idx as int,
                                    1,
                                ) == done && model::nearest_accepted(answers, anchor_idx as int, 1)
                                    == Some(right as int) by {
                                    assert(extends(answers, halfway.known@) && extends(answers, opening.known@));
                                    assert(model::accepts(answers, right as int));
                                    let rest = model::nearest_queries(
                                        answers,
                                        anchor_idx as int,
                                        radius as int,
                                    );
                                    assert(entry + rest =~= done);
                                }
                            }
                        }
                        if accepted {
                            return Ok(Some(right));
                        }
                    },
                }
            }
            proof {
                assert forall|answers: Seq<Result<bool, String>>| #[trigger]
                    extends(answers, self.known@) implies {
                    &&& model::nearest_accepted(answers, anchor_idx as int, 1) == model::nearest_accepted(
                        answers,
                        anchor_idx as int,
                        radius + 1,
                    )
                    &&& model::nearest_queries(answers, anchor_idx as int, 1) == done + model::nearest_queries(
                        answers,
                        anchor_idx as int,
                        radius + 1,
                    )
                    &&& model::first_error(answers, done) is None
                } by {
                    assert(extends(answers, halfway.known@) && extends(answers, opening.known@));
                    let rest = model::nearest_queries(answers, anchor_idx as int, radius as int);
                    let tail = model::nearest_queries(answers, anchor_idx as int, radius + 1);
                    assert(entry + rest =~= done + tail);
                }
            }
            radius = radius + 1;
        }
        proof {
            assert forall|answers: Seq<Result<bool, String>>| #[trigger]
                extends(answers, self.known@) implies model::nearest_queries(answers, anchor_idx as int, 1)
                == done by {
                assert(done + Seq::<int>::empty() =~= done);
            }
        }
        Ok(None)
    }
}


impl GridMemory {
    /// Proposes the lower end of the accepted interval around `start`.
    fn find_lower_end<F: FnMut(Real) -> Result<bool, String>>(
        &mut self,
        grid: &[Real],
        start: usize,
        evaluate: &mut F,
    ) -> (end: Result<usize, String>)
        requires
            old(self).wf(grid@, *old(evaluate)),
            old(self).counted(),
            forall|i: int|
                0 <= i < grid.len() ==> call_requires(*old(evaluate), (#[trigger] grid@[i],)),
            start < grid.len(),
        ensures
            *final(evaluate) == *old(evaluate),
            final(self).grown_from(*old(self), grid@, *old(evaluate)),
            part_done(
                *old(self),
                *final(self),
                end.err(),
                |answers: Seq<Result<bool, String>>| model::lower_queries(answers, start as int),
            ),
            end matches Ok(index) ==> {
                &&& final(self).wf(grid@, *old(evaluate))
                &&& final(self).counted()
                &&& index <= start
                &&& forall|answers: Seq<Result<bool, String>>| #[trigger]
                    extends(answers, final(self).known@) ==> model::lower_end(answers, start as int)
                        == index
            },
    {
        let ghost first = *self;
        let edge: usize = 0;
        if start == edge {
            proof {
                assert(self.asked@ + Seq::<int>::empty() =~= self.asked@);
            }
            return Ok(edge);
        }
        let answer = self.ask(grid, edge, evaluate);
        let ghost mut done = seq![edge as int];
        match answer {
            Err(error) => {
                proof {
                    assert forall|answers: Seq<Result<bool, String>>| #[trigger]
                        extends(answers, self.known@) implies {
                            let queries = model::lower_queries(answers, start as int);
                            model::first_error(answers, queries) == Some(error) && covered(
                                *self,
                                model::until_error(answers, queries),
                            )
                        } by {
                        let rest = model::lower_queries(answers, start as int);
                        assert(first.asked@ + Seq::<int>::empty() =~= first.asked@);
                        assert(Seq::<int>::empty() + rest =~= rest);
                        part_fails(
                            first.asked@,
                            first,
                            *self,
                            answers,
                            Seq::empty(),
                            rest,
                            error,
                            grid@,
                            *evaluate,
                        );
                    }
                }
                return Err(error);
            },
            Ok(accepted) => {
                proof {
                    assert(self.asked@ =~= first.asked@ + done);
                    assert forall|answers: Seq<Result<bool, String>>| #[trigger]
                        extends(answers, self.known@) implies model::first_error(answers, done)
                        is None by {
                        first_error_of_one(answers, edge as int);
                    }
                }
                if accepted {
                    proof {
                        assert forall|answers: Seq<Result<bool, String>>| #[trigger]
                            extends(answers, self.known@) implies model::accepts(
                            answers,
                            edge as int,
                        ) by {
                        }
                    }
                    return Ok(edge);
                }
                proof {
                    assert forall|answers: Seq<Result<bool, String>>| #[trigger]
                        extends(answers, self.known@) implies !model::accepts(answers, edge as int) by {
                    }
                }
            },
        }
        let mut lo: usize = 0;
        let mut hi: usize = start;
        while lo < hi
            invariant
                *evaluate == *old(evaluate),
                first == *old(self),
                self.wf(grid@, *evaluate),
                self.counted(),
                self.grown_from(first, grid@, *evaluate),
                self.asked@ == first.asked@ + done,
                forall|i: int|
                    0 <= i < grid.len() ==> call_requires(*evaluate, (#[trigger] grid@[i],)),
                start < grid.len(),
                start != edge,
                edge == 0,
                0 <= lo <= hi <= start,
                forall|answers: Seq<Result<bool, String>>| #[trigger]
                    extends(answers, self.known@) ==> {
                        &&& model::lower_end(answers, start as int) == model::bisect_lower(
                            answers,
                            lo as int,
                            hi as int,
                        )
                        &&& model::lower_queries(answers, start as int) == done + model::bisect_lower_queries(
                            answers,
                            lo as int,
                            hi as int,
                        )
                        &&& model::first_error(answers, done) is None
                    },
            decreases hi - lo,
        {
            let ghost entry = done;
            let ghost before = *self;
            let mid: usize = lo + (hi - lo) / 2;
            let answer = self.ask(grid, mid, evaluate);
            match answer {
                Err(error) => {
                    proof {
                        assert forall|answers: Seq<Result<bool, String>>| #[trigger]
                            extends(answers, self.known@) implies {
                            let queries = model::lower_queries(answers, start as int);
                            model::first_error(answers, queries) == Some(error) && covered(
                                *self,
                                model::until_error(answers, queries),
                            )
                        } by {
                            assert(extends(answers, before.known@));
                            let rest = model::bisect_lower_queries(answers, lo as int, hi as int);
                            assert(rest[0] == mid);
                            part_fails(
                                first.asked@,
                                before,
                                *self,
                                answers,
                                entry,
                                rest,
                                error,
                                grid@,
                                *evaluate,
                            );
                        }
                    }
                    return Err(error);
                },
                Ok(accepted) => {
                    proof {
                        done = entry.push(mid as int);
                        assert(self.asked@ =~= first.asked@ + done);
                        assert forall|answers: Seq<Result<bool, String>>| #[trigger]
                            extends(answers, self.known@) implies {
                            &&& model::first_error(answers, done) is None
                            &&& model::accepts(answers, mid as int) == accepted
                            &&& entry + model::bisect_lower_queries(answers, lo as int, hi as int) == done + (
                            if accepted {
                                model::bisect_lower_queries(answers, lo as int, mid as int)
                            } else {
                                model::bisect_lower_queries(answers, mid + 1, hi as int)
                            })
                        } by {
                            assert(extends(answers, before.known@));
                            assert(done =~= entry + seq![mid as int]);
                            first_error_of_concat(answers, entry, seq![mid as int]);
                            first_error_of_one(answers, mid as int);
                            assert(entry + model::bisect_lower_queries(answers, lo as int, hi as int) =~= done + (
                            if accepted {
                                model::bisect_lower_queries(answers, lo as int, mid as int)
                            } else {
                                model::bisect_lower_queries(answers, mid + 1, hi as int)
                            }));
                        }
                        assert forall|answers: Seq<Result<bool, String>>| #[trigger]
                            extends(answers, self.known@) implies extends(
                            answers,
                            before.known@,
                        ) by {
                        }
                    }
                    if accepted {
                        hi = mid;
                    } else {
                        lo = mid + 1;
                    }
                },
            }
        }
        proof {
            assert forall|answers: Seq<Result<bool, String>>| #[trigger]
                extends(answers, self.known@) implies model::lower_queries(answers, start as int)
                == done by {
                assert(done + Seq::<int>::empty() =~= done);
            }
        }
        Ok(lo)
    }
}

impl GridMemory {
    /// Proposes the upper end of the accepted interval around `start`.
    fn find_upper_end<F: FnMut(Real) -> Result<bool, String>>(
        &mut self,
        grid: &[Real],
        start: usize,
        evaluate: &mut F,
    ) -> (end: Result<usize, String>)
        requires
            old(self).wf(grid@, *old(evaluate)),
            old(self).counted(),
            forall|i: int|
                0 <= i < grid.len() ==> call_requires(*old(evaluate), (#[trigger] grid@[i],)),
            start < grid.len(),
        ensures
            *final(evaluate) == *old(evaluate),
            final(self).grown_from(*old(self), grid@, *old(evaluate)),
            part_done(
                *old(self),
                *final(self),
                end.err(),
                |answers: Seq<Result<bool, String>>| model::upper_queries(answers, start as int),
            ),
            end matches Ok(index) ==> {
                &&& final(self).wf(grid@, *old(evaluate))
                &&& final(self).counted()
                &&& start <= index < grid.len()
                &&& forall|answers: Seq<Result<bool, String>>| #[trigger]
                    extends(answers, final(self).known@) ==> model::upper_end(answers, start as int)
                        == index
            },
    {
        let ghost first = *self;
        let edge: usize = grid.len() - 1;
        if start == edge {
            proof {
                assert(self.asked@ + Seq::<int>::empty() =~= self.asked@);
            }
            return Ok(edge);
        }
        let answer = self.ask(grid, edge, evaluate);
        let ghost mut done = seq![edge as int];
        match answer {
            Err(error) => {
                proof {
                    assert forall|answers: Seq<Result<bool, String>>| #[trigger]
                        extends(answers, self.known@) implies {
                            let queries = model::upper_queries(answers, start as int);
                            model::first_error(answers, queries) == Some(error) && covered(
                                *self,
                                model::until_error(answers, queries),
                            )
                        } by {
                        let rest = model::upper_queries(answers, start as int);
                        assert(first.asked@ + Seq::<int>::empty() =~= first.asked@);
                        assert(Seq::<int>::empty() + rest =~= rest);
                        part_fails(
                            first.asked@,
                            first,
                            *self,
                            answers,
                            Seq::empty(),
                            rest,
                            error,
                            grid@,
                            *evaluate,
                        );
                    }
                }
                return Err(error);
            },
            Ok(accepted) => {
                proof {
                    assert(self.asked@ =~= first.asked@ + done);
                    assert forall|answers: Seq<Result<bool, String>>| #[trigger]
                        extends(answers, self.known@) implies model::first_error(answers, done)
                        is None by {
                        first_error_of_one(answers, edge as int);
                    }
                }
                if accepted {
                    proof {
                        assert forall|answers: Seq<Result<bool, String>>| #[trigger]
                            extends(answers, self.known@) implies model::accepts(
                            answers,
                            edge as int,
                        ) by {
                        }
                    }
                    return Ok(edge);
                }
                proof {
                    assert forall|answers: Seq<Result<bool, String>>| #[trigger]
                        extends(answers, self.known@) implies !model::accepts(answers, edge as int) by {
                    }
                }
            },
        }
        let mut lo: usize = start;
        let mut hi: usize = edge;
        while lo < hi
            invariant
                *evaluate == *old(evaluate),
                first == *old(self),
                self.wf(grid@, *evaluate),
                self.counted(),
                self.grown_from(first, grid@, *evaluate),
                self.asked@ == first.asked@ + done,
                forall|i: int|
                    0 <= i < grid.len() ==> call_requires(*evaluate, (#[trigger] grid@[i],)),
                start < grid.len(),
                start != edge,
                edge == grid.len() - 1,
                start <= lo <= hi <= edge,
                forall|answers: Seq<Result<bool, String>>| #[trigger]
                    extends(answers, self.known@) ==> {
                        &&& model::upper_end(answers, start as int) == model::bisect_upper(
                            answers,
                            lo as int,
                            hi as int,
                        )
                        &&& model::upper_queries(answers, start as int) == done + model::bisect_upper_queries(
                            answers,
                            lo as int,
                            hi as int,
                        )
                        &&& model::first_error(answers, done) is None
                    },
            decreases hi - lo,
        {
            let ghost entry = done;
            let ghost before = *self;
            let mid: usize = lo + (hi - lo + 1) / 2;
            let answer = self.ask(grid, mid, evaluate);
            match answer {
                Err(error) => {
                    proof {
                        assert forall|answers: Seq<Result<bool, String>>| #[trigger]
                            extends(answers, self.known@) implies {
                            let queries = model::upper_queries(answers, start as int);
                            model::first_error(answers, queries) == Some(error) && covered(
                                *self,
                                model::until_error(answers, queries),
                            )
                        } by {
                            assert(extends(answers, before.known@));
                            let rest = model::bisect_upper_queries(answers, lo as int, hi as int);
                            assert(rest[0] == mid);
                            part_fails(
                                first.asked@,
                                before,
                                *self,
                                answers,
                                entry,
                                rest,
                                error,
                                grid@,
                                *evaluate,
                            );
                        }
                    }
                    return Err(error);
                },
                Ok(accepted) => {
                    proof {
                        done = entry.push(mid as int);
                        assert(self.asked@ =~= first.asked@ + done);
                        assert forall|answers: Seq<Result<bool, String>>| #[trigger]
                            extends(answers, self.known@) implies {
                            &&& model::first_error(answers, done) is None
                            &&& model::accepts(answers, mid as int) == accepted
                            &&& entry + model::bisect_upper_queries(answers, lo as int, hi as int) == done + (
                            if accepted {
                                model::bisect_upper_queries(answers, mid as int, hi as int)
                            } else {
                                model::bisect_upper_queries(answers, lo as int, mid - 1)
                            })
                        } by {
                            assert(extends(answers, before.known@));
                            assert(done =~= entry + seq![mid as int]);
                            first_error_of_concat(answers, entry, seq![mid as int]);
                            first_error_of_one(answers, mid as int);
                            assert(entry + model::bisect_upper_queries(answers, lo as int, hi as int) =~= done + (
                            if accepted {
                                model::bisect_upper_queries(answers, mid as int, hi as int)
                            } else {
                                model::bisect_upper_queries(answers, lo as int, mid - 1)
                            }));
                        }
                        assert forall|answers: Seq<Result<bool, String>>| #[trigger]
                            extends(answers, self.known@) implies extends(
                            answers,
                            before.known@,
                        ) by {
                        }
                    }
                    if accepted {
                        lo = mid;
                    } else {
                        hi = mid - 1;
                    }
                },
            }
        }
        proof {
            assert forall|answers: Seq<Result<bool, String>>| #[trigger]
                extends(answers, self.known@) implies model::upper_queries(answers, start as int)
                == done by {
                assert(done + Seq::<int>::empty() =~= done);
            }
        }
        Ok(lo)
    }
}

impl GridMemory {
    /// Decides whether an accepted point lies between `start` and the end of
    /// the grid on the rejected anchor's side of it.
    fn is_accepted_across<F: FnMut(Real) -> Result<bool, String>>(
        &mut self,
        grid: &[Real],
        anchor_idx: usize,
        start: usize,
        evaluate: &mut F,
    ) -> (found: Result<bool, String>)
        requires
            old(self).wf(grid@, *old(evaluate)),
            old(self).counted(),
            forall|i: int|
                0 <= i < grid.len() ==> call_requires(*old(evaluate), (#[trigger] grid@[i],)),
            start < grid.len(),
        ensures
            *final(evaluate) == *old(evaluate),
            final(self).grown_from(*old(self), grid@, *old(evaluate)),
            part_done(
                *old(self),
                *final(self),
                found.err(),
                |answers: Seq<Result<bool, String>>|
                    model::across_queries(answers, anchor_idx as int, start as int),
            ),
            found matches Ok(across) ==> {
                &&& final(self).wf(grid@, *old(evaluate))
                &&& final(self).counted()
                &&& forall|answers: Seq<Result<bool, String>>| #[trigger]
                    extends(answers, final(self).known@) ==> model::accepted_across(
                        answers,
                        anchor_idx as int,
                        start as int,
                    ) == across
            },
    {
        let ghost first = *self;
        let ghost mut done = Seq::<int>::empty();
        let upward = start < anchor_idx;
        if start == anchor_idx {
            proof {
                assert(self.asked@ + done =~= self.asked@);
            }
            return Ok(false);
        }
        proof {
            assert(self.asked@ + done =~= self.asked@);
            assert forall|answers: Seq<Result<bool, String>>| #[trigger]
                extends(answers, self.known@) implies model::across_queries(
                answers,
                anchor_idx as int,
                start as int,
            ) == done + model::across_queries(answers, anchor_idx as int, start as int) by {
                assert(done + model::across_queries(answers, anchor_idx as int, start as int)
                    =~= model::across_queries(answers, anchor_idx as int, start as int));
            }
        }
        let mut steps: usize = 0;
        let total: usize = if upward {
            grid.len() - 1 - start
        } else {
            start
        };
        while steps < total
            invariant
                *evaluate == *old(evaluate),
                first == *old(self),
                self.wf(grid@, *evaluate),
                self.counted(),
                self.grown_from(first, grid@, *evaluate),
                self.asked@ == first.asked@ + done,
                forall|i: int|
                    0 <= i < grid.len() ==> call_requires(*evaluate, (#[trigger] grid@[i],)),
                start < grid.len(),
                start != anchor_idx,
                upward == (start < anchor_idx),
                total == (if upward {
                    grid.len() - 1 - start
                } else {
                    start as int
                }),
                steps <= total,
                forall|i: int|
                    0 <= i < grid.len() && (if upward {
                        start < i <= start + steps
                    } else {
                        start - steps <= i < start
                    }) ==> #[trigger] self.known@[i] == Some(Ok::<bool, String>(false)),
                forall|answers: Seq<Result<bool, String>>| #[trigger]
                    extends(answers, self.known@) ==> {
                        &&& model::across_queries(answers, anchor_idx as int, start as int) == done + (
                        if upward {
                            model::walk_up_queries(answers, start + 1 + steps)
                        } else {
                            model::walk_down_queries(answers, start - steps)
                        })
                        &&& model::first_error(answers, done) is None
                    },
            decreases total - steps,
        {
            let ghost entry = done;
            let ghost before = *self;
            let idx: usize = if upward {
                start + 1 + steps
            } else {
                start - 1 - steps
            };
            let answer = self.ask(grid, idx, evaluate);
            match answer {
                Err(error) => {
                    proof {
                        assert forall|answers: Seq<Result<bool, String>>| #[trigger]
                            extends(answers, self.known@) implies {
                            let queries = model::across_queries(answers, anchor_idx as int, start as int);
                            model::first_error(answers, queries) == Some(error) && covered(
                                *self,
                                model::until_error(answers, queries),
                            )
                        } by {
                            assert(extends(answers, before.known@));
                            let rest = if upward {
                                model::walk_up_queries(answers, start + 1 + steps)
                            } else {
                                model::walk_down_queries(answers, start - steps)
                            };
                            assert(rest[0] == idx);
                            part_fails(
                                first.asked@,
                                before,
                                *self,
                                answers,
                                entry,
                                rest,
                                error,
                                grid@,
                                *evaluate,
                            );
                        }
                    }
                    return Err(error);
                },
                Ok(accepted) => {
                    proof {
                        done = entry.push(idx as int);
                        assert(self.asked@ =~= first.asked@ + done);
                        assert forall|answers: Seq<Result<bool, String>>| #[trigger]
                            extends(answers, self.known@) implies {
                            &&& model::first_error(answers, done) is None
                            &&& model::accepts(answers, idx as int) == accepted
                            &&& model::across_queries(answers, anchor_idx as int, start as int) == done + (
                            if accepted {
                                Seq::<int>::empty()
                            } else if upward {
                                model::walk_up_queries(answers, start + 2 + steps)
                            } else {
                                model::walk_down_queries(answers, start - steps - 1)
                            })
                        } by {
                            assert(extends(answers, before.known@));
                            assert(done =~= entry + seq![idx as int]);
                            first_error_of_concat(answers, entry, seq![idx as int]);
                            first_error_of_one(answers, idx as int);
                            assert(model::across_queries(answers, anchor_idx as int, start as int)
                                =~= done + (if accepted {
                                Seq::<int>::empty()
                            } else if upward {
                                model::walk_up_queries(answers, start + 2 + steps)
                            } else {
                                model::walk_down_queries(answers, start - steps - 1)
                            }));
                        }
                    }
                    if accepted {
                        proof {
                            assert forall|answers: Seq<Result<bool, String>>| #[trigger]
                                extends(answers, self.known@) implies model::across_queries(
                                answers,
                                anchor_idx as int,
                                start as int,
                            ) == done && model::accepted_across(
                                answers,
                                anchor_idx as int,
                                start as int,
                            ) by {
                                assert(done + Seq::<int>::empty() =~= done);
                                assert(model::accepts(answers, idx as int));
                            }
                        }
                        return Ok(true);
                    }
                },
            }
            proof {
                assert forall|i: int|
                    0 <= i < grid.len() && (if upward {
                        start < i <= start + steps + 1
                    } else {
                        start - steps - 1 <= i < start
                    }) implies #[trigger] self.known@[i] == Some(Ok::<bool, String>(false)) by {
                    if i != idx {
                        assert(before.known@[i] == Some(Ok::<bool, String>(false)));
                    }
                }
            }
            steps = steps + 1;
        }
        proof {
            assert forall|answers: Seq<Result<bool, String>>| #[trigger]
                extends(answers, self.known@) implies model::across_queries(
                answers,
                anchor_idx as int,
                start as int,
            ) == done && !model::accepted_across(answers, anchor_idx as int, start as int) by {
                assert(done + Seq::<int>::empty() =~= done);
                assert forall|i: int|
                    0 <= i < grid.len() && (if upward {
                        start < i
                    } else {
                        i < start
                    }) implies !#[trigger] model::accepts(answers, i) by {
                    assert(self.known@[i] == Some(Ok::<bool, String>(false)));
                }
            }
        }
        Ok(false)
    }

    /// Asks about one point where the answer is needed.
    fn ask_where<F: FnMut(Real) -> Result<bool, String>>(
        &mut self,
        grid: &[Real],
        needed: bool,
        idx: usize,
        evaluate: &mut F,
    ) -> (answer: Result<Option<bool>, String>)
        requires
            old(self).wf(grid@, *old(evaluate)),
            old(self).counted(),
            forall|i: int|
                0 <= i < grid.len() ==> call_requires(*old(evaluate), (#[trigger] grid@[i],)),
            needed ==> idx < grid.len(),
        ensures
            *final(evaluate) == *old(evaluate),
            final(self).grown_from(*old(self), grid@, *old(evaluate)),
            part_done(
                *old(self),
                *final(self),
                answer.err(),
                |answers: Seq<Result<bool, String>>| model::query_where(needed, idx as int),
            ),
            answer matches Ok(flag) ==> {
                &&& final(self).wf(grid@, *old(evaluate))
                &&& final(self).counted()
                &&& flag is Some == needed
                &&& needed ==> forall|answers: Seq<Result<bool, String>>| #[trigger]
                    extends(answers, final(self).known@) ==> model::accepts(answers, idx as int)
                        == flag->0
            },
    {
        let ghost first = *self;
        if !needed {
            proof {
                assert(self.asked@ + Seq::<int>::empty() =~= self.asked@);
            }
            return Ok(None);
        }
        let answer = self.ask(grid, idx, evaluate);
        proof {
            assert forall|answers: Seq<Result<bool, String>>| #[trigger]
                extends(answers, self.known@) implies model::first_error(
                answers,
                model::query_where(needed, idx as int),
            ) == answer.err() && covered(
                *self,
                model::until_error(answers, model::query_where(needed, idx as int)),
            ) by {
                first_error_of_one(answers, idx as int);
                until_error_of_concat(answers, seq![idx as int], Seq::empty());
                assert(seq![idx as int] + Seq::<int>::empty() =~= seq![idx as int]);
                assert(model::until_error(answers, seq![idx as int]) =~= seq![idx as int]);
            }
        }
        match answer {
            Err(error) => Err(error),
            Ok(accepted) => {
                proof {
                    assert(self.asked@ =~= first.asked@ + seq![idx as int]);
                    assert forall|answers: Seq<Result<bool, String>>| #[trigger]
                        extends(answers, self.known@) implies model::accepts(answers, idx as int)
                        == accepted by {
                    }
                }
                Ok(Some(accepted))
            },
        }
    }

    /// Tests every point that is not known yet and returns the first and the
    /// last accepted one.
    fn test_whole_grid<F: FnMut(Real) -> Result<bool, String>>(
        &mut self,
        grid: &[Real],
        evaluate: &mut F,
    ) -> (range: Result<Option<AcceptedGridRange>, String>)
        requires
            old(self).wf(grid@, *old(evaluate)),
            forall|i: int|
                0 <= i < grid.len() ==> call_requires(*old(evaluate), (#[trigger] grid@[i],)),
        ensures
            *final(evaluate) == *old(evaluate),
            final(self).grown_from(*old(self), grid@, *old(evaluate)),
            final(self).unique_evaluations == old(self).unique_evaluations,
            final(self).cache_hits == old(self).cache_hits,
            final(self).asked@ == old(self).asked@,
            range is Ok ==> final(self).wf(grid@, *old(evaluate)) && forall|i: int|
                0 <= i < grid.len() ==> (#[trigger] final(self).slots@[i]) is Some,
            forall|answers: Seq<Result<bool, String>>| #[trigger]
                extends(answers, final(self).known@) ==> {
                    &&& model::first_error(answers, model::every_index(grid.len() as int)) == range.err()
                    &&& covered(
                        *final(self),
                        model::until_error(answers, model::every_index(grid.len() as int)),
                    )
                    &&& range matches Ok(found) ==> found == model::full_grid_range(answers)
                },
    {
        let ghost first = *self;
        let mut flags: Vec<bool> = Vec::new();
        let mut idx: usize = 0;
        while idx < grid.len()
            invariant
                idx <= grid.len(),
                flags.len() == idx,
                *evaluate == *old(evaluate),
                first == *old(self),
                self.wf(grid@, *evaluate),
                self.grown_from(first, grid@, *evaluate),
                self.unique_evaluations == first.unique_evaluations,
                self.cache_hits == first.cache_hits,
                self.asked@ == first.asked@,
                forall|i: int| 0 <= i < idx ==> (#[trigger] self.slots@[i]) is Some,
                forall|i: int|
                    0 <= i < grid.len() ==> call_requires(*evaluate, (#[trigger] grid@[i],)),
                forall|i: int|
                    0 <= i < idx ==> #[trigger] self.known@[i] == Some(
                        Ok::<bool, String>(flags@[i]),
                    ),
            decreases grid.len() - idx,
        {
            let flag = match self.slots[idx] {
                Some(accepted) => accepted,
                None => {
                    let ghost before = *self;
                    let answer = evaluate(grid[idx]);
                    match answer {
                        Ok(accepted) => {
                            self.slots.set(idx, Some(accepted));
                            self.known = Ghost(self.known@.update(idx as int, Some(Ok(accepted))));
                            accepted
                        },
                        Err(error) => {
                            self.known = Ghost(self.known@.update(idx as int, Some(Err(error))));
                            proof {
                                assert forall|answers: Seq<Result<bool, String>>| #[trigger]
                                    extends(answers, self.known@) implies {
                                    let queries = model::every_index(grid.len() as int);
                                    model::first_error(answers, queries) == Some(error) && covered(
                                        *self,
                                        model::until_error(answers, queries),
                                    )
                                } by {
                                    let head = model::every_index(idx as int);
                                    let tail = model::every_index(grid.len() as int).skip(idx as int);
                                    assert(model::every_index(grid.len() as int) =~= head + tail);
                                    first_error_of_concat(answers, head, tail);
                                    assert forall|k: int| 0 <= k < head.len() implies (
                                    #[trigger] answers[head[k]]) is Ok by {
                                        assert(self.known@[k] is Some);
                                    }
                                    no_error_where_all_answered(answers, head);
                                    assert(tail[0] == idx);
                                    assert(self.known@[idx as int] is Some);
                                    assert(model::first_error(answers, tail) == Some(error));
                                    until_error_of_concat(answers, head, tail);
                                    assert(model::until_error(answers, tail) =~= seq![idx as int]);
                                    assert forall|i: int| #[trigger]
                                        (head + seq![idx as int]).contains(i) implies 0 <= i
                                        < self.known@.len() && self.known@[i] is Some by {
                                    }
                                }
                            }
                            return Err(error);
                        },
                    }
                },
            };
            flags.push(flag);
            idx = idx + 1;
        }
        proof {
            assert forall|answers: Seq<Result<bool, String>>| #[trigger]
                extends(answers, self.known@) implies {
                &&& model::first_error(answers, model::every_index(grid.len() as int)) is None
                &&& covered(*self, model::until_error(answers, model::every_index(grid.len() as int)))
                &&& model::acceptance_flags(answers) == flags@
            } by {
                let all = model::every_index(grid.len() as int);
                assert forall|k: int| 0 <= k < all.len() implies (#[trigger] answers[all[k]])
                    is Ok by {
                    assert(self.known@[k] is Some);
                }
                no_error_where_all_answered(answers, all);
                until_error_of_concat(answers, all, Seq::empty());
                assert forall|i: int| 0 <= i < grid.len() implies model::accepts(answers, i)
                    == #[trigger] flags@[i] by {
                    assert(self.known@[i] is Some);
                }
                assert(model::acceptance_flags(answers) =~= flags@);
            }
        }
        Ok(accepted_grid_range_from_flags(flags.as_slice()))
    }
}

/// Where every answer came, there is no error.
proof fn no_error_where_all_answered(answers: Seq<Result<bool, String>>, queries: Seq<int>)
    requires
        forall|k: int| 0 <= k < queries.len() ==> (#[trigger] answers[queries[k]]) is Ok,
    ensures
        model::first_error(answers, queries) is None,
    decreases queries.len(),
{
    if queries.len() > 0 {
        let rest = queries.drop_first();
        assert(answers[queries[0]] is Ok);
        assert forall|k: int| 0 <= k < rest.len() implies (#[trigger] answers[rest[k]]) is Ok by {
            assert(rest[k] == queries[k + 1]);
        }
        no_error_where_all_answered(answers, rest);
    }
}

/// One way to fill in the answers that are not known.
spec fn filled(known: Seq<Option<Result<bool, String>>>) -> Seq<Result<bool, String>> {
    Seq::new(
        known.len(),
        |i: int|
            match known[i] {
                Some(answer) => answer,
                None => Ok(false),
            },
    )
}

/// No question that was answered from memory or by the test has failed.
proof fn asked_without_error<F: FnMut(Real) -> Result<bool, String>>(
    memory: GridMemory,
    answers: Seq<Result<bool, String>>,
    grid: Seq<Real>,
    evaluate: F,
)
    requires
        memory.wf(grid, evaluate),
        memory.counted(),
        extends(answers, memory.known@),
    ensures
        model::first_error(answers, memory.asked@) is None,
        covered(memory, memory.asked@),
{
    assert forall|k: int| 0 <= k < memory.asked@.len() implies (
    #[trigger] answers[memory.asked@[k]]) is Ok by {
        let i = memory.asked@[k];
        assert(memory.asked@.contains(i));
        assert(memory.slots@[i] is Some);
        assert(memory.known@[i] is Some);
    }
    no_error_where_all_answered(answers, memory.asked@);
    assert forall|i: int| #[trigger] memory.asked@.contains(i) implies 0 <= i < memory.known@.len()
        && memory.known@[i] is Some by {
        assert(memory.slots@[i] is Some);
    }
}

impl GridMemory {
    /// Finds the accepted index from which the ends are sought, and says
    /// whether it is the anchor itself.
    fn locate_anchor<F: FnMut(Real) -> Result<bool, String>>(
        &mut self,
        grid: &[Real],
        anchor: usize,
        evaluate: &mut F,
    ) -> (found: Result<(bool, Option<usize>), String>)
        requires
            old(self).wf(grid@, *old(evaluate)),
            old(self).counted(),
            forall|i: int|
                0 <= i < grid.len() ==> call_requires(*old(evaluate), (#[trigger] grid@[i],)),
            anchor < grid.len(),
        ensures
            *final(evaluate) == *old(evaluate),
            final(self).grown_from(*old(self), grid@, *old(evaluate)),
            part_done(
                *old(self),
                *final(self),
                found.err(),
                |answers: Seq<Result<bool, String>>| model::anchor_queries(answers, anchor as int),
            ),
            found matches Ok((direct, start)) ==> {
                &&& final(self).wf(grid@, *old(evaluate))
                &&& final(self).counted()
                &&& start matches Some(i) ==> i < grid.len()
                &&& direct ==> start == Some(anchor)
                &&& forall|answers: Seq<Result<bool, String>>| #[trigger]
                    extends(answers, final(self).known@) ==> {
                        &&& model::accepts(answers, anchor as int) == direct
                        &&& model::search_anchor(answers, anchor as int) == (match start {
                            Some(i) => Some(i as int),
                            None => None,
                        })
                    }
            },
    {
        let ghost first = *self;
        let answer = self.ask(grid, anchor, evaluate);
        match answer {
            Err(error) => {
                proof {
                    assert forall|answers: Seq<Result<bool, String>>| #[trigger]
                        extends(answers, self.known@) implies {
                        let queries = model::anchor_queries(answers, anchor as int);
                        model::first_error(answers, queries) == Some(error) && covered(
                            *self,
                            model::until_error(answers, queries),
                        )
                    } by {
                        let rest = model::anchor_queries(answers, anchor as int);
                        assert(first.asked@ + Seq::<int>::empty() =~= first.asked@);
                        assert(Seq::<int>::empty() + rest =~= rest);
                        part_fails(
                            first.asked@,
                            first,
                            *self,
                            answers,
                            Seq::empty(),
                            rest,
                            error,
                            grid@,
                            *evaluate,
                        );
                    }
                }
                Err(error)
            },
            Ok(accepted) => {
                let ghost head = seq![anchor as int];
                proof {
                    assert(self.asked@ =~= first.asked@ + head);
                    assert forall|answers: Seq<Result<bool, String>>| #[trigger]
                        extends(answers, self.known@) implies model::first_error(answers, head) is None
                        && model::accepts(answers, anchor as int) == accepted by {
                        first_error_of_one(answers, anchor as int);
                    }
                }
                if accepted {
                    return Ok((true, Some(anchor)));
                }
                let ghost middle = *self;
                let found = self.find_nearest_accepted_index(grid, anchor, evaluate);
                proof {
                    assert forall|answers: Seq<Result<bool, String>>| #[trigger]
                        extends(answers, self.known@) implies {
                        let queries = model::anchor_queries(answers, anchor as int);
                        &&& !model::accepts(answers, anchor as int)
                        &&& model::first_error(answers, queries) == found.err()
                        &&& found is Ok ==> self.asked@ == first.asked@ + queries
                        &&& found is Err ==> covered(*self, model::until_error(answers, queries))
                    } by {
                        assert(extends(answers, middle.known@));
                        let tail = model::nearest_queries(answers, anchor as int, 1);
                        first_error_of_concat(answers, head, tail);
                        until_error_of_concat(answers, head, tail);
                        assert(first.asked@ + (head + tail) =~= first.asked@ + head + tail);
                        let stopped = model::until_error(answers, tail);
                        if found is Err {
                            assert forall|i: int| #[trigger]
                                (head + stopped).contains(i) implies 0 <= i < self.known@.len()
                                && self.known@[i] is Some by {
                                let k = choose|k: int|
                                    0 <= k < (head + stopped).len() && (head + stopped)[k] == i;
                                if k == 0 {
                                    assert(middle.known@[anchor as int] is Some);
                                } else {
                                    assert(stopped[k - 1] == i);
                                    assert(stopped.contains(i));
                                }
                            }
                        }
                    }
                }
                match found {
                    Err(error) => Err(error),
                    Ok(index) => Ok((false, index)),
                }
            },
        }
    }

}

/// A part that fails also fails with more questions behind it.
proof fn part_fails_early(
    before: GridMemory,
    after: GridMemory,
    error: String,
    head: spec_fn(Seq<Result<bool, String>>) -> Seq<int>,
    tail: spec_fn(Seq<Result<bool, String>>) -> Seq<int>,
    whole: spec_fn(Seq<Result<bool, String>>) -> Seq<int>,
)
    requires
        part_done(before, after, Some(error), head),
        forall|answers: Seq<Result<bool, String>>| #[trigger]
            extends(answers, after.known@) ==> whole(answers) == head(answers) + tail(answers),
    ensures
        part_done(before, after, Some(error), whole),
{
    assert forall|answers: Seq<Result<bool, String>>| #[trigger]
        extends(answers, after.known@) implies model::first_error(answers, whole(answers)) == Some(error)
        && covered(after, model::until_error(answers, whole(answers))) by {
        first_error_of_concat(answers, head(answers), tail(answers));
        until_error_of_concat(answers, head(answers), tail(answers));
    }
}

/// Two parts in a row make one part.
proof fn parts_compose<F: FnMut(Real) -> Result<bool, String>>(
    before: GridMemory,
    middle: GridMemory,
    after: GridMemory,
    failure: Option<String>,
    head: spec_fn(Seq<Result<bool, String>>) -> Seq<int>,
    tail: spec_fn(Seq<Result<bool, String>>) -> Seq<int>,
    whole: spec_fn(Seq<Result<bool, String>>) -> Seq<int>,
    grid: Seq<Real>,
    evaluate: F,
)
    requires
        part_done(before, middle, None, head),
        part_done(middle, after, failure, tail),
        middle.wf(grid, evaluate),
        middle.counted(),
        middle.grown_from(before, grid, evaluate),
        after.grown_from(middle, grid, evaluate),
        forall|answers: Seq<Result<bool, String>>| #[trigger]
            extends(answers, after.known@) ==> whole(answers) == head(answers) + tail(answers),
    ensures
        part_done(before, after, failure, whole),
        after.grown_from(before, grid, evaluate),
        forall|answers: Seq<Result<bool, String>>| #[trigger]
            extends(answers, after.known@) ==> extends(answers, middle.known@),
{
    assert forall|i: int|
        0 <= i < grid.len() && (#[trigger] before.known@[i]) is Some implies after.known@[i]
        == before.known@[i] by {
        assert(middle.known@[i] is Some);
    }
    assert forall|answers: Seq<Result<bool, String>>| #[trigger]
        extends(answers, after.known@) implies {
        &&& extends(answers, middle.known@)
        &&& model::first_error(answers, whole(answers)) == failure
        &&& failure is None ==> after.asked@ == before.asked@ + whole(answers)
        &&& failure is Some ==> covered(after, model::until_error(answers, whole(answers)))
    } by {
        let left = head(answers);
        let right = tail(answers);
        assert(extends(answers, middle.known@));
        first_error_of_concat(answers, left, right);
        until_error_of_concat(answers, left, right);
        assert(before.asked@ + (left + right) =~= before.asked@ + left + right);
        asked_without_error(middle, answers, grid, evaluate);
        if failure is Some {
            let stopped = model::until_error(answers, right);
            assert forall|i: int| #[trigger] (left + stopped).contains(i) implies 0 <= i
                < after.known@.len() && after.known@[i] is Some by {
                let all = left + stopped;
                let k = choose|k: int| 0 <= k < all.len() && all[k] == i;
                if k < left.len() {
                    assert(middle.asked@[before.asked@.len() + k] == i);
                    assert(middle.asked@.contains(i));
                    assert(middle.known@[i] is Some);
                } else {
                    assert(stopped[k - left.len()] == i);
                    assert(stopped.contains(i));
                }
            }
        }
    }
}

impl GridMemory {
    /// Asks about two points, each where its answer is needed.
    fn ask_two<F: FnMut(Real) -> Result<bool, String>>(
        &mut self,
        grid: &[Real],
        first_needed: bool,
        first_idx: usize,
        second_needed: bool,
        second_idx: usize,
        evaluate: &mut F,
    ) -> (answer: Result<(Option<bool>, Option<bool>), String>)
        requires
            old(self).wf(grid@, *old(evaluate)),
            old(self).counted(),
            forall|i: int|
                0 <= i < grid.len() ==> call_requires(*old(evaluate), (#[trigger] grid@[i],)),
            first_needed ==> first_idx < grid.len(),
            second_needed ==> second_idx < grid.len(),
        ensures
            *final(evaluate) == *old(evaluate),
            final(self).grown_from(*old(self), grid@, *old(evaluate)),
            part_done(
                *old(self),
                *final(self),
                answer.err(),
                |answers: Seq<Result<bool, String>>|
                    model::query_where(first_needed, first_idx as int) + model::query_where(
                        second_needed,
                        second_idx as int,
                    ),
            ),
            answer matches Ok((left, right)) ==> {
                &&& final(self).wf(grid@, *old(evaluate))
                &&& final(self).counted()
                &&& left is Some == first_needed
                &&& right is Some == second_needed
                &&& forall|answers: Seq<Result<bool, String>>| #[trigger]
                    extends(answers, final(self).known@) ==> {
                        &&& first_needed ==> model::accepts(answers, first_idx as int) == left->0
                        &&& second_needed ==> model::accepts(answers, second_idx as int) == right->0
                    }
            },
    {
        let ghost first = *self;
        let ghost head = |answers: Seq<Result<bool, String>>|
            model::query_where(first_needed, first_idx as int);
        let ghost tail = |answers: Seq<Result<bool, String>>|
            model::query_where(second_needed, second_idx as int);
        let ghost whole = |answers: Seq<Result<bool, String>>|
            model::query_where(first_needed, first_idx as int) + model::query_where(
                second_needed,
                second_idx as int,
            );
        let left_answer = self.ask_where(grid, first_needed, first_idx, evaluate);
        let ghost middle = *self;
        match left_answer {
            Err(error) => {
                proof {
                    part_fails_early(first, *self, error, head, tail, whole);
                }
                Err(error)
            },
            Ok(left) => {
                let right_answer = self.ask_where(grid, second_needed, second_idx, evaluate);
                proof {
                    parts_compose(
                        first,
                        middle,
                        *self,
                        right_answer.err(),
                        head,
                        tail,
                        whole,
                        grid@,
                        *evaluate,
                    );
                }
                match right_answer {
                    Err(error) => Err(error),
                    Ok(right) => Ok((left, right)),
                }
            },
        }
    }

    /// Checks the points around the proposed ends.
    fn check_ends<F: FnMut(Real) -> Result<bool, String>>(
        &mut self,
        grid: &[Real],
        start: usize,
        lower: usize,
        upper: usize,
        evaluate: &mut F,
    ) -> (fit: Result<bool, String>)
        requires
            old(self).wf(grid@, *old(evaluate)),
            old(self).counted(),
            forall|i: int|
                0 <= i < grid.len() ==> call_requires(*old(evaluate), (#[trigger] grid@[i],)),
            lower <= start <= upper < grid.len(),
        ensures
            *final(evaluate) == *old(evaluate),
            final(self).grown_from(*old(self), grid@, *old(evaluate)),
            part_done(
                *old(self),
                *final(self),
                fit.err(),
                |answers: Seq<Result<bool, String>>|
                    model::ends_queries(grid.len() as int, start as int, lower as int, upper as int),
            ),
            fit matches Ok(all_fit) ==> {
                &&& final(self).wf(grid@, *old(evaluate))
                &&& final(self).counted()
                &&& forall|answers: Seq<Result<bool, String>>| #[trigger]
                    extends(answers, final(self).known@) ==> model::ends_fit(
                        answers,
                        start as int,
                        lower as int,
                        upper as int,
                    ) == all_fit
            },
    {
        let ghost first = *self;
        let below: usize = if lower > 0 {
            lower - 1
        } else {
            0
        };
        let above: usize = if upper < grid.len() - 1 {
            upper + 1
        } else {
            upper
        };
        let left_mid: usize = lower + (start - lower) / 2;
        let right_mid: usize = start + (upper - start + 1) / 2;
        let lower_open = lower != 0;
        let upper_open = upper < grid.len() - 1;
        let lower_apart = lower != start;
        let upper_apart = upper != start;
        let ghost head = |answers: Seq<Result<bool, String>>|
            model::query_where(lower_open, below as int) + model::query_where(upper_open, above as int);
        let ghost tail = |answers: Seq<Result<bool, String>>|
            model::query_where(lower_apart, left_mid as int) + model::query_where(upper_apart, right_mid as int);
        let ghost whole = |answers: Seq<Result<bool, String>>|
            model::ends_queries(grid.len() as int, start as int, lower as int, upper as int);
        proof {
            let all = model::ends_queries(grid.len() as int, start as int, lower as int, upper as int);
            assert(model::query_where(lower_open, below as int) =~= model::query_where(lower != 0, lower - 1));
            assert(model::query_where(upper_open, above as int) =~= model::query_where(
                upper + 1 != grid.len(),
                upper + 1,
            ));
            assert(all =~= model::query_where(lower_open, below as int) + model::query_where(
                upper_open,
                above as int,
            ) + (model::query_where(lower_apart, left_mid as int) + model::query_where(
                upper_apart,
                right_mid as int,
            )));
        }
        let outer = self.ask_two(grid, lower_open, below, upper_open, above, evaluate);
        let ghost middle = *self;
        match outer {
            Err(error) => {
                proof {
                    part_fails_early(first, *self, error, head, tail, whole);
                }
                Err(error)
            },
            Ok((outer_left, outer_right)) => {
                let inner = self.ask_two(
                    grid,
                    lower_apart,
                    left_mid,
                    upper_apart,
                    right_mid,
                    evaluate,
                );
                proof {
                    parts_compose(
                        first,
                        middle,
                        *self,
                        inner.err(),
                        head,
                        tail,
                        whole,
                        grid@,
                        *evaluate,
                    );
                }
                match inner {
                    Err(error) => Err(error),
                    Ok((inner_left, inner_right)) => {
                        let left_free = match outer_left {
                            Some(accepted) => !accepted,
                            None => true,
                        };
                        let right_free = match outer_right {
                            Some(accepted) => !accepted,
                            None => true,
                        };
                        let left_fits = match inner_left {
                            Some(accepted) => accepted,
                            None => true,
                        };
                        let right_fits = match inner_right {
                            Some(accepted) => accepted,
                            None => true,
                        };
                        Ok(left_free && right_free && left_fits && right_fits)
                    },
                }
            },
        }
    }

    /// Proposes both ends of the accepted interval around `start`.
    fn propose_ends<F: FnMut(Real) -> Result<bool, String>>(
        &mut self,
        grid: &[Real],
        start: usize,
        evaluate: &mut F,
    ) -> (ends: Result<(usize, usize), String>)
        requires
            old(self).wf(grid@, *old(evaluate)),
            old(self).counted(),
            forall|i: int|
                0 <= i < grid.len() ==> call_requires(*old(evaluate), (#[trigger] grid@[i],)),
            start < grid.len(),
        ensures
            *final(evaluate) == *old(evaluate),
            final(self).grown_from(*old(self), grid@, *old(evaluate)),
            part_done(
                *old(self),
                *final(self),
                ends.err(),
                |answers: Seq<Result<bool, String>>|
                    model::lower_queries(answers, start as int) + model::upper_queries(answers, start as int),
            ),
            ends matches Ok((lower, upper)) ==> {
                &&& final(self).wf(grid@, *old(evaluate))
                &&& final(self).counted()
                &&& lower <= start <= upper < grid.len()
                &&& forall|answers: Seq<Result<bool, String>>| #[trigger]
                    extends(answers, final(self).known@) ==> {
                        &&& model::lower_end(answers, start as int) == lower
                        &&& model::upper_end(answers, start as int) == upper
                    }
            },
    {
        let ghost first = *self;
        let ghost head = |answers: Seq<Result<bool, String>>| model::lower_queries(answers, start as int);
        let ghost tail = |answers: Seq<Result<bool, String>>| model::upper_queries(answers, start as int);
        let ghost whole = |answers: Seq<Result<bool, String>>|
            model::lower_queries(answers, start as int) + model::upper_queries(answers, start as int);
        let lower_found = self.find_lower_end(grid, start, evaluate);
        let ghost middle = *self;
        match lower_found {
            Err(error) => {
                proof {
                    part_fails_early(first, *self, error, head, tail, whole);
                }
                Err(error)
            },
            Ok(lower) => {
                let upper_found = self.find_upper_end(grid, start, evaluate);
                proof {
                    parts_compose(
                        first,
                        middle,
                        *self,
                        upper_found.err(),
                        head,
                        tail,
                        whole,
                        grid@,
                        *evaluate,
                    );
                }
                match upper_found {
                    Err(error) => Err(error),
                    Ok(upper) => Ok((lower, upper)),
                }
            },
        }
    }
}

/// The questions about the side across the anchor, where they are asked.
spec fn across_part(answers: Seq<Result<bool, String>>, anchor: int, start: int) -> Seq<int> {
    if model::accepts(answers, anchor) {
        Seq::empty()
    } else {
        model::across_queries(answers, anchor, start)
    }
}

/// The questions about the proposed ends, where they are asked.
spec fn ends_part(
    answers: Seq<Result<bool, String>>,
    anchor: int,
    start: int,
    lower: int,
    upper: int,
) -> Seq<int> {
    if (!model::accepts(answers, anchor) && model::accepted_across(answers, anchor, start)) || (lower == 0
        && upper == answers.len() - 1) {
        Seq::empty()
    } else {
        model::ends_queries(answers.len() as int, start, lower, upper)
    }
}

/// Whether the answers contradict the proposed ends.
spec fn contradicted(
    answers: Seq<Result<bool, String>>,
    anchor: int,
    start: int,
    lower: int,
    upper: int,
) -> bool {
    ||| !model::accepts(answers, anchor) && model::accepted_across(answers, anchor, start)
    ||| !(lower == 0 && upper == answers.len() - 1) && !model::ends_fit(answers, start, lower, upper)
}

impl GridMemory {
    /// Asks whether the points across the anchor, where it was rejected,
    /// contradict an interval around `start`.
    fn check_across<F: FnMut(Real) -> Result<bool, String>>(
        &mut self,
        grid: &[Real],
        anchor: usize,
        direct: bool,
        start: usize,
        evaluate: &mut F,
    ) -> (found: Result<bool, String>)
        requires
            old(self).wf(grid@, *old(evaluate)),
            old(self).counted(),
            forall|i: int|
                0 <= i < grid.len() ==> call_requires(*old(evaluate), (#[trigger] grid@[i],)),
            start < grid.len(),
            anchor < grid.len(),
            forall|answers: Seq<Result<bool, String>>| #[trigger]
                extends(answers, old(self).known@) ==> model::accepts(answers, anchor as int) == direct,
        ensures
            *final(evaluate) == *old(evaluate),
            final(self).grown_from(*old(self), grid@, *old(evaluate)),
            part_done(
                *old(self),
                *final(self),
                found.err(),
                |answers: Seq<Result<bool, String>>|
                    across_part(answers, anchor as int, start as int),
            ),
            found matches Ok(across) ==> {
                &&& final(self).wf(grid@, *old(evaluate))
                &&& final(self).counted()
                &&& forall|answers: Seq<Result<bool, String>>| #[trigger]
                    extends(answers, final(self).known@) ==> (!model::accepts(answers, anchor as int)
                        && model::accepted_across(answers, anchor as int, start as int)) == across
            },
    {
        let ghost first = *self;
        if direct {
            proof {
                assert(self.asked@ + Seq::<int>::empty() =~= self.asked@);
            }
            return Ok(false);
        }
        let found = self.is_accepted_across(grid, anchor, start, evaluate);
        proof {
            assert forall|answers: Seq<Result<bool, String>>| #[trigger]
                extends(answers, self.known@) implies extends(answers, first.known@) by {
            }
        }
        found
    }

    /// Decides whether the answers contradict the proposed ends.
    fn is_contradicted<F: FnMut(Real) -> Result<bool, String>>(
        &mut self,
        grid: &[Real],
        anchor: usize,
        direct: bool,
        start: usize,
        lower: usize,
        upper: usize,
        evaluate: &mut F,
    ) -> (doubt: Result<bool, String>)
        requires
            old(self).wf(grid@, *old(evaluate)),
            old(self).counted(),
            forall|i: int|
                0 <= i < grid.len() ==> call_requires(*old(evaluate), (#[trigger] grid@[i],)),
            lower <= start <= upper < grid.len(),
            anchor < grid.len(),
            forall|answers: Seq<Result<bool, String>>| #[trigger]
                extends(answers, old(self).known@) ==> model::accepts(answers, anchor as int) == direct,
        ensures
            *final(evaluate) == *old(evaluate),
            final(self).grown_from(*old(self), grid@, *old(evaluate)),
            part_done(
                *old(self),
                *final(self),
                doubt.err(),
                |answers: Seq<Result<bool, String>>|
                    across_part(answers, anchor as int, start as int) + ends_part(
                        answers,
                        anchor as int,
                        start as int,
                        lower as int,
                        upper as int,
                    ),
            ),
            doubt matches Ok(contradiction) ==> {
                &&& final(self).wf(grid@, *old(evaluate))
                &&& final(self).counted()
                &&& forall|answers: Seq<Result<bool, String>>| #[trigger]
                    extends(answers, final(self).known@) ==> contradicted(
                        answers,
                        anchor as int,
                        start as int,
                        lower as int,
                        upper as int,
                    ) == contradiction
            },
    {
        let ghost first = *self;
        let ghost head = |answers: Seq<Result<bool, String>>|
            across_part(answers, anchor as int, start as int);
        let ghost tail = |answers: Seq<Result<bool, String>>|
            ends_part(answers, anchor as int, start as int, lower as int, upper as int);
        let ghost whole = |answers: Seq<Result<bool, String>>|
            across_part(answers, anchor as int, start as int) + ends_part(
                answers,
                anchor as int,
                start as int,
                lower as int,
                upper as int,
            );
        let across_found = self.check_across(grid, anchor, direct, start, evaluate);
        let ghost middle = *self;
        let spans = lower == 0 && upper == grid.len() - 1;
        match across_found {
            Err(error) => {
                proof {
                    part_fails_early(first, *self, error, head, tail, whole);
                }
                Err(error)
            },
            Ok(across) => {
                if across || spans {
                    proof {
                        assert(self.asked@ + Seq::<int>::empty() =~= self.asked@);
                        assert(part_done(middle, *self, None, tail));
                        parts_compose(
                            first,
                            middle,
                            *self,
                            None,
                            head,
                            tail,
                            whole,
                            grid@,
                            *evaluate,
                        );
                    }
                    return Ok(across);
                }
                let ends = self.check_ends(grid, start, lower, upper, evaluate);
                proof {
                    assert forall|answers: Seq<Result<bool, String>>| #[trigger]
                        extends(answers, self.known@) implies ends_part(
                        answers,
                        anchor as int,
                        start as int,
                        lower as int,
                        upper as int,
                    ) == model::ends_queries(
                        grid.len() as int,
                        start as int,
                        lower as int,
                        upper as int,
                    ) by {
                        assert(extends(answers, middle.known@));
                    }
                    assert(part_done(middle, *self, ends.err(), tail));
                    parts_compose(
                        first,
                        middle,
                        *self,
                        ends.err(),
                        head,
                        tail,
                        whole,
                        grid@,
                        *evaluate,
                    );
                }
                match ends {
                    Err(error) => Err(error),
                    Ok(fit) => Ok(!fit),
                }
            },
        }
    }

    /// Proposes the ends around `start` and decides whether they stand.
    fn refine<F: FnMut(Real) -> Result<bool, String>>(
        &mut self,
        grid: &[Real],
        anchor: usize,
        direct: bool,
        start: usize,
        evaluate: &mut F,
    ) -> (refined: Result<(usize, usize, bool), String>)
        requires
            old(self).wf(grid@, *old(evaluate)),
            old(self).counted(),
            forall|i: int|
                0 <= i < grid.len() ==> call_requires(*old(evaluate), (#[trigger] grid@[i],)),
            start < grid.len(),
            anchor < grid.len(),
            forall|answers: Seq<Result<bool, String>>| #[trigger]
                extends(answers, old(self).known@) ==> model::accepts(answers, anchor as int) == direct,
        ensures
            *final(evaluate) == *old(evaluate),
            final(self).grown_from(*old(self), grid@, *old(evaluate)),
            part_done(
                *old(self),
                *final(self),
                refined.err(),
                |answers: Seq<Result<bool, String>>|
                    model::refinement_queries(answers, anchor as int, start as int),
            ),
            refined matches Ok((lower, upper, doubt)) ==> {
                &&& final(self).wf(grid@, *old(evaluate))
                &&& final(self).counted()
                &&& lower <= upper < grid.len()
                &&& forall|answers: Seq<Result<bool, String>>| #[trigger]
                    extends(answers, final(self).known@) ==> {
                        &&& model::lower_end(answers, start as int) == lower
                        &&& model::upper_end(answers, start as int) == upper
                        &&& contradicted(
                            answers,
                            anchor as int,
                            start as int,
                            lower as int,
                            upper as int,
                        ) == doubt
                    }
            },
    {
        let ghost first = *self;
        let ghost head = |answers: Seq<Result<bool, String>>|
            model::lower_queries(answers, start as int) + model::upper_queries(answers, start as int);
        let ghost tail = |answers: Seq<Result<bool, String>>|
            across_part(answers, anchor as int, start as int) + ends_part(
                answers,
                anchor as int,
                start as int,
                model::lower_end(answers, start as int),
                model::upper_end(answers, start as int),
            );
        let ghost whole = |answers: Seq<Result<bool, String>>|
            model::refinement_queries(answers, anchor as int, start as int);
        proof {
            assert forall|answers: Seq<Result<bool, String>>|
                answers.len() == grid.len() implies #[trigger] whole(answers) == head(answers)
                + tail(answers) by {
                refinement_in_two(answers, anchor as int, start as int);
            }
        }
        let proposed = self.propose_ends(grid, start, evaluate);
        let ghost middle = *self;
        match proposed {
            Err(error) => {
                proof {
                    part_fails_early(first, *self, error, head, tail, whole);
                }
                Err(error)
            },
            Ok((lower, upper)) => {
                proof {
                    assert forall|answers: Seq<Result<bool, String>>| #[trigger]
                        extends(answers, middle.known@) implies model::accepts(answers, anchor as int)
                        == direct by {
                        assert(extends(answers, first.known@));
                    }
                }
                let doubt = self.is_contradicted(
                    grid,
                    anchor,
                    direct,
                    start,
                    lower,
                    upper,
                    evaluate,
                );
                proof {
                    assert forall|answers: Seq<Result<bool, String>>| #[trigger]
                        extends(answers, self.known@) implies model::lower_end(answers, start as int)
                        == lower && model::upper_end(answers, start as int) == upper by {
                        assert(extends(answers, middle.known@));
                    }
                    assert(part_done(middle, *self, doubt.err(), tail));
                    parts_compose(
                        first,
                        middle,
                        *self,
                        doubt.err(),
                        head,
                        tail,
                        whole,
                        grid@,
                        *evaluate,
                    );
                }
                match doubt {
                    Err(error) => Err(error),
                    Ok(contradiction) => Ok((lower, upper, contradiction)),
                }
            },
        }
    }
}

/// The refinement asks first for the ends and then for contradictions.
proof fn refinement_in_two(answers: Seq<Result<bool, String>>, anchor: int, start: int)
    ensures
        model::refinement_queries(answers, anchor, start) == model::lower_queries(answers, start)
            + model::upper_queries(answers, start) + (across_part(answers, anchor, start) + ends_part(
            answers,
            anchor,
            start,
            model::lower_end(answers, start),
            model::upper_end(answers, start),
        )),
{
    let low = model::lower_queries(answers, start);
    let high = model::upper_queries(answers, start);
    let across = across_part(answers, anchor, start);
    let ends = ends_part(
        answers,
        anchor,
        start,
        model::lower_end(answers, start),
        model::upper_end(answers, start),
    );
    assert(model::refinement_queries(answers, anchor, start) == low + high + across + ends);
    concat_is_associative(low + high, across, ends);
}

/// Concatenation is associative.
proof fn concat_is_associative(left: Seq<int>, middle: Seq<int>, right: Seq<int>)
    ensures
        left + middle + right == left + (middle + right),
{
    assert(left + middle + right =~= left + (middle + right));
}

/// A search that fails before any fallback.
proof fn search_fails<F: FnMut(Real) -> Result<bool, String>>(
    before: GridMemory,
    after: GridMemory,
    error: String,
    anchor: int,
    asked: Seq<int>,
    grid: Seq<Real>,
    evaluate: F,
)
    requires
        before.asked@ == Seq::<int>::empty(),
        after.grown_from(before, grid, evaluate),
        after.known@.len() == grid.len(),
        model::first_error(filled(after.known@), asked) == Some(error),
        covered(after, model::until_error(filled(after.known@), asked)),
        asked == model::search_queries(filled(after.known@), anchor) || (exists|rest: Seq<int>|
            model::search_queries(filled(after.known@), anchor) == #[trigger] (asked + rest)),
    ensures
        model::explains(filled(after.known@), evaluate, grid, anchor, Err(error)),
{
    let answers = filled(after.known@);
    let all = model::all_queries(answers, anchor);
    let queries = model::search_queries(answers, anchor);
    let whole = model::every_index(answers.len() as int);
    if asked != queries {
        let rest = choose|rest: Seq<int>| queries == #[trigger] (asked + rest);
        first_error_of_concat(answers, asked, rest);
        until_error_of_concat(answers, asked, rest);
    }
    first_error_of_concat(answers, queries, whole);
    until_error_of_concat(answers, queries, whole);
    assert(model::first_error(answers, all) == Some(error));
    assert(model::until_error(answers, all) == model::until_error(answers, asked));
    known_answers_explain(after, model::until_error(answers, all), grid, evaluate);
}

/// Known answers came from the test.
proof fn known_answers_explain<F: FnMut(Real) -> Result<bool, String>>(
    memory: GridMemory,
    queries: Seq<int>,
    grid: Seq<Real>,
    evaluate: F,
)
    requires
        memory.known@.len() == grid.len(),
        memory.grown_from(memory, grid, evaluate),
        covered(memory, queries),
    ensures
        model::answered_by(evaluate, grid, filled(memory.known@), queries),
{
    let answers = filled(memory.known@);
    assert forall|i: int|
        0 <= i < grid.len() && #[trigger] queries.contains(i) implies call_ensures(
        evaluate,
        (grid[i],),
        answers[i],
    ) by {
        assert(memory.known@[i] is Some);
    }
}

/// A search that has asked all its questions, before or without a fallback.
proof fn search_ends<F: FnMut(Real) -> Result<bool, String>>(
    before: GridMemory,
    after: GridMemory,
    anchor: int,
    whole: Result<Option<AcceptedGridRange>, String>,
    outcome: Result<(Option<AcceptedGridRange>, AdaptiveGridDiagnostics), String>,
    grid: Seq<Real>,
    evaluate: F,
)
    requires
        before.wf(grid, evaluate),
        before.counted(),
        after.grown_from(before, grid, evaluate),
        after.known@.len() == grid.len(),
        before.asked@ == model::search_queries(filled(after.known@), anchor),
        model::falls_back(filled(after.known@), anchor) ==> {
            let answers = filled(after.known@);
            &&& model::first_error(answers, model::every_index(grid.len() as int)) == whole.err()
            &&& covered(after, model::until_error(answers, model::every_index(grid.len() as int)))
        },
        !model::falls_back(filled(after.known@), anchor) ==> whole is Ok,
        outcome == (match whole {
            Err(error) => Err(error),
            Ok(_) => Ok(
                (
                    model::adaptive_range(filled(after.known@), anchor),
                    model::adaptive_diagnostics(filled(after.known@), anchor),
                ),
            ),
        }),
    ensures
        model::explains(filled(after.known@), evaluate, grid, anchor, outcome),
{
    let answers = filled(after.known@);
    assert(extends(answers, after.known@));
    assert(extends(answers, before.known@));
    asked_without_error(before, answers, grid, evaluate);
    let tail = model::every_index(grid.len() as int);
    first_error_of_concat(answers, before.asked@, tail);
    until_error_of_concat(answers, before.asked@, tail);
    if model::falls_back(answers, anchor) {
        union_is_covered(after, before, before.asked@, model::until_error(answers, tail));
    } else {
        union_is_covered(after, before, before.asked@, Seq::empty());
        assert(before.asked@ + Seq::<int>::empty() =~= before.asked@);
    }
    known_answers_explain(after, model::until_error(answers, model::all_queries(answers, anchor)), grid, evaluate);
}

/// The search with a memory at hand.
fn search_from<F: FnMut(Real) -> Result<bool, String>>(
    grid: &[Real],
    anchor: usize,
    memory: &mut GridMemory,
    evaluate: &mut F,
) -> (outcome: Result<(Option<AcceptedGridRange>, AdaptiveGridDiagnostics), String>)
    requires
        anchor < grid.len(),
        old(memory).wf(grid@, *old(evaluate)),
        old(memory).counted(),
        old(memory).asked@ == Seq::<int>::empty(),
        forall|i: int|
            0 <= i < grid.len() ==> call_requires(*old(evaluate), (#[trigger] grid@[i],)),
    ensures
        exists|answers: Seq<Result<bool, String>>| #[trigger]
            model::explains(answers, *old(evaluate), grid@, anchor as int, outcome),
{
    let ghost test = *evaluate;
    let ghost m0 = *memory;
    let located = memory.locate_anchor(grid, anchor, evaluate);
    let ghost m1 = *memory;
    proof {
        assert forall|answers: Seq<Result<bool, String>>| #[trigger]
            extends(answers, m1.known@) implies m0.asked@ + model::anchor_queries(answers, anchor as int)
            == model::anchor_queries(answers, anchor as int) by {
            assert(m0.asked@ + model::anchor_queries(answers, anchor as int) =~= model::anchor_queries(
                answers,
                anchor as int,
            ));
        }
    }
    match located {
        Err(error) => {
            proof {
                let answers = filled(m1.known@);
                assert(extends(answers, m1.known@));
                let asked = model::anchor_queries(answers, anchor as int);
                match model::search_anchor(answers, anchor as int) {
                    None => {},
                    Some(start) => {
                        assert(model::search_queries(answers, anchor as int) == asked
                            + model::refinement_queries(answers, anchor as int, start));
                    },
                }
                search_fails(m0, m1, error, anchor as int, asked, grid@, test);
            }
            Err(error)
        },
        Ok((direct, None)) => {
            let unique_evaluations = memory.unique_evaluations;
            let cache_hits = memory.cache_hits;
            let whole = memory.test_whole_grid(grid, evaluate);
            let ghost answers = filled(memory.known@);
            proof {
                assert(extends(answers, memory.known@));
                assert(extends(answers, m1.known@));
            }
            match whole {
                Err(error) => {
                    proof {
                        search_ends(
                            m1,
                            *memory,
                            anchor as int,
                            Err(error),
                            Err(error),
                            grid@,
                            test,
                        );
                    }
                    Err(error)
                },
                Ok(range) => {
                    let diagnostics = AdaptiveGridDiagnostics {
                        anchor_idx: anchor,
                        accepted_anchor_idx: None,
                        unique_evaluations,
                        cache_hits,
                        anchor_accepted: false,
                        used_nearest_accepted_anchor: false,
                        used_full_grid_fallback: true,
                    };
                    proof {
                        search_ends(
                            m1,
                            *memory,
                            anchor as int,
                            Ok(range),
                            Ok((range, diagnostics)),
                            grid@,
                            test,
                        );
                    }
                    Ok((range, diagnostics))
                },
            }
        },
        Ok((direct, Some(start))) => {
            let refined = memory.refine(grid, anchor, direct, start, evaluate);
            let ghost m2 = *memory;
            let ghost head = |answers: Seq<Result<bool, String>>|
                model::anchor_queries(answers, anchor as int);
            let ghost tail = |answers: Seq<Result<bool, String>>|
                model::refinement_queries(answers, anchor as int, start as int);
            let ghost both = |answers: Seq<Result<bool, String>>|
                model::search_queries(answers, anchor as int);
            proof {
                assert forall|answers: Seq<Result<bool, String>>| #[trigger]
                    extends(answers, m2.known@) implies both(answers) == head(answers) + tail(
                    answers,
                ) by {
                    assert(extends(answers, m1.known@));
                }
                parts_compose(m0, m1, m2, refined.err(), head, tail, both, grid@, test);
            }
            match refined {
                Err(error) => {
                    proof {
                        let answers = filled(m2.known@);
                        assert(extends(answers, m2.known@));
                        let asked = model::search_queries(answers, anchor as int);
                        search_fails(m0, m2, error, anchor as int, asked, grid@, test);
                    }
                    Err(error)
                },
                Ok((lower, upper, doubt)) => {
                    let diagnostics = AdaptiveGridDiagnostics {
                        anchor_idx: anchor,
                        accepted_anchor_idx: Some(start),
                        unique_evaluations: memory.unique_evaluations,
                        cache_hits: memory.cache_hits,
                        anchor_accepted: direct,
                        used_nearest_accepted_anchor: !direct,
                        used_full_grid_fallback: doubt,
                    };
                    if !doubt {
                        let range = AcceptedGridRange { lower_idx: lower, upper_idx: upper };
                        proof {
                            let answers = filled(m2.known@);
                            assert(extends(answers, m2.known@));
                            assert(extends(answers, m1.known@));
                            assert(m0.asked@ + model::search_queries(answers, anchor as int)
                                =~= model::search_queries(answers, anchor as int));
                            search_ends(
                                m2,
                                m2,
                                anchor as int,
                                Ok(Some(range)),
                                Ok((Some(range), diagnostics)),
                                grid@,
                                test,
                            );
                        }
                        return Ok((Some(range), diagnostics));
                    }
                    let whole = memory.test_whole_grid(grid, evaluate);
                    proof {
                        let answers = filled(memory.known@);
                        assert(extends(answers, memory.known@));
                        assert(extends(answers, m2.known@));
                        assert(extends(answers, m1.known@));
                        assert(m0.asked@ + model::search_queries(answers, anchor as int)
                            =~= model::search_queries(answers, anchor as int));
                    }
                    match whole {
                        Err(error) => {
                            proof {
                                search_ends(
                                    m2,
                                    *memory,
                                    anchor as int,
                                    Err(error),
                                    Err(error),
                                    grid@,
                                    test,
                                );
                            }
                            Err(error)
                        },
                        Ok(range) => {
                            proof {
                                search_ends(
                                    m2,
                                    *memory,
                                    anchor as int,
                                    Ok(range),
                                    Ok((range, diagnostics)),
                                    grid@,
                                    test,
                                );
                            }
                            Ok((range, diagnostics))
                        },
                    }
                },
            }
        },
    }
}

/// What an earlier memory covers and what the present one covers, it covers
/// together.
proof fn union_is_covered(after: GridMemory, before: GridMemory, left: Seq<int>, right: Seq<int>)
    requires
        covered(before, left),
        covered(after, right),
        after.known@.len() == before.known@.len(),
        forall|i: int|
            0 <= i < before.known@.len() && (#[trigger] before.known@[i]) is Some
                ==> after.known@[i] == before.known@[i],
    ensures
        covered(after, left + right),
{
    assert forall|i: int| #[trigger] (left + right).contains(i) implies 0 <= i < after.known@.len()
        && after.known@[i] is Some by {
        let all = left + right;
        let k = choose|k: int| 0 <= k < all.len() && all[k] == i;
        if k < left.len() {
            assert(left.contains(i));
            assert(before.known@[i] is Some);
        } else {
            assert(right[k - left.len()] == i);
            assert(right.contains(i));
        }
    }
}

/// Searches a grid from an anchor on it.
pub(crate) fn search_grid<F: FnMut(Real) -> Result<bool, String>>(
    grid: &[Real],
    anchor: usize,
    evaluate: F,
) -> (outcome: Result<(Option<AcceptedGridRange>, AdaptiveGridDiagnostics), String>)
    requires
        anchor < grid.len(),
        forall|i: int| 0 <= i < grid.len() ==> call_requires(evaluate, (#[trigger] grid@[i],)),
    ensures
        exists|answers: Seq<Result<bool, String>>| #[trigger]
            model::explains(answers, evaluate, grid@, anchor as int, outcome),
{
    let mut evaluate = evaluate;
    let mut memory = GridMemory::new(grid.len());
    search_from(grid, anchor, &mut memory, &mut evaluate)
}

/// Tests a whole grid, point by point.
pub(crate) fn test_grid<F: FnMut(Real) -> Result<bool, String>>(
    grid: &[Real],
    evaluate: F,
) -> (range:
    Result<Option<AcceptedGridRange>, String>)
    requires
        forall|i: int| 0 <= i < grid.len() ==> call_requires(evaluate, (#[trigger] grid@[i],)),
    ensures
        exists|answers: Seq<Result<bool, String>>| #[trigger]
            model::explains_full_grid(answers, evaluate, grid@, range),
{
    let ghost test = evaluate;
    let mut evaluate = evaluate;
    let mut memory = GridMemory::new(grid.len());
    let range = memory.test_whole_grid(grid, &mut evaluate);
    proof {
        let answers = filled(memory.known@);
        assert(extends(answers, memory.known@));
        known_answers_explain(
            memory,
            model::until_error(answers, model::every_index(grid.len() as int)),
            grid@,
            test,
        );
        assert(model::explains_full_grid(answers, test, grid@, range));
    }
    range
}

} // verus!
