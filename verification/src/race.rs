//! The race: the first outcome that any member delivers.
//!
//! A race is run as a series of sweeps. A sweep looks once at each member
//! that is still in the race, in order, and stops at the first outcome it
//! finds. What it found decides how it ends, and [`judge`] is that decision:
//! it takes the findings, whatever they are. Members found dead leave the
//! race. The race itself is dead once no member is left.

use crate::{sights, Poll, Promise};
use vstd::prelude::*;

verus! {

/// How one sweep over the members of a race ends.
#[verifier::reject_recursive_types(T)]
#[verifier::reject_recursive_types(E)]
pub enum Round<T, E> {
    /// A member had an outcome: the race settles with it.
    Won(Result<T, E>),
    /// No outcome yet: these members, at least one, stay in the race.
    Waiting(Vec<Promise<T, E>>),
    /// No member is left: the race will never settle.
    Dead,
}

/// Whether `polls` may be what one look at each of `handles` finds.
pub open spec fn sighted<T, E>(handles: Seq<Promise<T, E>>, polls: Seq<Poll<T, E>>) -> bool {
    &&& polls.len() == handles.len()
    &&& forall|i: int| 0 <= i < handles.len() ==> sights(handles[i], #[trigger] polls[i])
}

/// The first outcome among the findings, in order.
pub open spec fn winner<T, E>(polls: Seq<Poll<T, E>>) -> Option<Result<T, E>>
    decreases polls.len(),
{
    if polls.len() == 0 {
        None
    } else {
        match winner(polls.drop_last()) {
            Some(o) => Some(o),
            None => match polls.last() {
                Poll::Settled(o) => Some(o),
                _ => None,
            },
        }
    }
}

/// The handle that a pending finding hands back.
pub open spec fn handed_back<T, E>(seen: Poll<T, E>) -> Option<Promise<T, E>> {
    match seen {
        Poll::Pending(h) => Some(h),
        _ => None,
    }
}

/// The handles that were found pending, in order.
pub open spec fn survivors<T, E>(polls: Seq<Poll<T, E>>) -> Seq<Promise<T, E>> {
    polls.filter_map(|seen: Poll<T, E>| handed_back(seen))
}

/// Whether a sweep that found `polls` ends as `round`. The findings leave no
/// choice: the first outcome wins; without one, the pending members stay, and
/// the race is dead if there are none.
pub open spec fn decides<T, E>(polls: Seq<Poll<T, E>>, round: Round<T, E>) -> bool {
    match round {
        Round::Won(o) => winner(polls) == Some(o),
        Round::Waiting(rest) => winner(polls) is None && rest@ == survivors(polls) && rest@.len()
            > 0,
        Round::Dead => winner(polls) is None && survivors(polls).len() == 0,
    }
}

/// An outcome with none before it is the winner.
pub proof fn lemma_first_outcome_wins<T, E>(polls: Seq<Poll<T, E>>, i: int, o: Result<T, E>)
    requires
        0 <= i < polls.len(),
        polls[i] == Poll::Settled(o),
        forall|j: int| 0 <= j < i ==> !(polls[j] is Settled),
    ensures
        winner(polls) == Some(o),
    decreases polls.len(),
{
    if i == polls.len() - 1 {
        lemma_no_outcome_no_winner(polls.drop_last());
    } else {
        lemma_first_outcome_wins(polls.drop_last(), i, o);
    }
}

/// Without an outcome among the findings there is no winner.
pub proof fn lemma_no_outcome_no_winner<T, E>(polls: Seq<Poll<T, E>>)
    requires
        forall|j: int| 0 <= j < polls.len() ==> !(polls[j] is Settled),
    ensures
        winner(polls) is None,
    decreases polls.len(),
{
    if polls.len() > 0 {
        lemma_no_outcome_no_winner(polls.drop_last());
    }
}

/// Without a pending finding no member stays.
pub proof fn lemma_no_pending_no_survivors<T, E>(polls: Seq<Poll<T, E>>)
    requires
        forall|j: int| 0 <= j < polls.len() ==> !(polls[j] is Pending),
    ensures
        survivors(polls).len() == 0,
    decreases polls.len(),
{
    if polls.len() > 0 {
        lemma_no_pending_no_survivors(polls.drop_last());
    }
}

/// A race whose members are all found dead is dead: it settles with nothing.
/// A race without members is such a race.
pub proof fn lemma_dead_members_dead_race<T, E>(polls: Seq<Poll<T, E>>, round: Round<T, E>)
    requires
        forall|j: int| 0 <= j < polls.len() ==> polls[j] is Dead,
        decides(polls, round),
    ensures
        round is Dead,
{
    lemma_no_outcome_no_winner(polls);
    lemma_no_pending_no_survivors(polls);
}

/// The outcome that a race settles with is one that a member delivered.
pub proof fn lemma_winner_was_found<T, E>(polls: Seq<Poll<T, E>>, o: Result<T, E>)
    requires
        winner(polls) == Some(o),
    ensures
        exists|i: int| 0 <= i < polls.len() && #[trigger] polls[i] == Poll::Settled(o),
    decreases polls.len(),
{
    if winner(polls.drop_last()) == Some(o) {
        lemma_winner_was_found(polls.drop_last(), o);
        let i = choose|i: int|
            0 <= i < polls.len() - 1 && #[trigger] polls.drop_last()[i] == Poll::Settled(o);
        assert(polls[i] == Poll::Settled(o));
    } else {
        assert(polls[polls.len() - 1] == Poll::Settled(o));
    }
}

/// A member that holds its outcome wins the sweep if no member before it is
/// found with one. The first member wins whenever it holds its outcome.
pub proof fn lemma_settled_member_wins<T, E>(
    handles: Seq<Promise<T, E>>,
    polls: Seq<Poll<T, E>>,
    i: int,
    o: Result<T, E>,
    round: Round<T, E>,
)
    requires
        sighted(handles, polls),
        0 <= i < handles.len(),
        handles[i].outcome() == Some(o),
        forall|j: int| 0 <= j < i ==> !(polls[j] is Settled),
        decides(polls, round),
    ensures
        round == Round::Won(o),
{
    assert(sights(handles[i], polls[i]));
    lemma_first_outcome_wins(polls, i, o);
}

/// A member found pending stays in the race, behind the members that were
/// found pending before it: a sweep neither reorders the race nor adds to it.
pub proof fn lemma_survivors_keep_order<T, E>(
    handles: Seq<Promise<T, E>>,
    polls: Seq<Poll<T, E>>,
    i: int,
)
    requires
        sighted(handles, polls),
        0 <= i < polls.len(),
        polls[i] is Pending,
    ensures
        survivors(polls.take(i)).len() < survivors(polls).len(),
        survivors(polls)[survivors(polls.take(i)).len() as int] == handles[i],
    decreases polls.len(),
{
    if i == polls.len() - 1 {
        assert(polls.take(i) =~= polls.drop_last());
        assert(sights(handles[i], polls[i]));
    } else {
        assert(sighted(handles.drop_last(), polls.drop_last()));
        lemma_survivors_keep_order(handles.drop_last(), polls.drop_last(), i);
        assert(polls.drop_last().take(i) =~= polls.take(i));
    }
}

/// The round that the findings of a sweep decide: the first outcome among
/// them, or else the handles found pending, in order.
pub fn judge<T, E>(polls: Vec<Poll<T, E>>) -> (round: Round<T, E>)
    ensures
        decides(polls@, round),
{
    let ghost all = polls@;
    let mut rest: Vec<Promise<T, E>> = Vec::new();
    for seen in it: polls
        invariant
            it.seq() == all,
            forall|j: int| 0 <= j < it.index() ==> !(all[j] is Settled),
            rest@ == survivors(all.take(it.index())),
    {
        let ghost i = it.index();
        proof {
            assert(all.take(i + 1).drop_last() =~= all.take(i));
        }
        match seen {
            Poll::Settled(o) => {
                proof {
                    lemma_first_outcome_wins(all, i, o);
                }
                return Round::Won(o);
            },
            Poll::Pending(h) => {
                rest.push(h);
            },
            Poll::Dead => {},
        }
    }
    proof {
        assert(all.take(all.len() as int) =~= all);
        lemma_no_outcome_no_winner(all);
    }
    if rest.len() == 0 {
        Round::Dead
    } else {
        Round::Waiting(rest)
    }
}

/// One sweep: looks at each candidate in order, up to the first that has an
/// outcome, and hands the findings to [`judge`].
pub fn sweep<T, E>(candidates: Vec<Promise<T, E>>) -> (round: Round<T, E>)
    ensures
        exists|polls: Seq<Poll<T, E>>| #[trigger]
            sighted(candidates@, polls) && decides(polls, round),
{
    let ghost handles = candidates@;
    let mut polls: Vec<Poll<T, E>> = Vec::with_capacity(candidates.len());
    for handle in it: candidates
        invariant
            it.seq() == handles,
            polls@.len() == it.index(),
            forall|j: int| 0 <= j < polls@.len() ==> sights(handles[j], #[trigger] polls@[j]),
            forall|j: int| 0 <= j < polls@.len() ==> !(polls@[j] is Settled),
    {
        let ghost i = it.index();
        let seen = handle.poll();
        match seen {
            Poll::Settled(_) => {
                polls.push(seen);
                let ghost made = polls@;
                let round = judge(polls);
                proof {
                    let o = seen->Settled_0;
                    let all = Seq::new(
                        handles.len(),
                        |j: int|
                            if j <= i {
                                made[j]
                            } else {
                                match handles[j].outcome() {
                                    Some(r) => Poll::Settled(r),
                                    None => Poll::Dead,
                                }
                            },
                    );
                    lemma_first_outcome_wins(made, i, o);
                    lemma_first_outcome_wins(all, i, o);
                    assert(sighted(handles, all));
                }
                return round;
            },
            _ => {
                polls.push(seen);
            },
        }
    }
    proof {
        assert(sighted(handles, polls@));
    }
    judge(polls)
}

} // verus!
