//! The gathering: the values of all members, in the order of the members.
//!
//! A gathering is run as a series of sweeps. A sweep looks once at each
//! member that is still awaited, in order. A value is kept at its member's
//! place, so the values come out in the order in which the members went in,
//! whichever settled first. The first failure found ends the gathering. A
//! member found dead is awaited no longer and adds no value.
//!
//! What a sweep found decides how it ends. [`note`] says what one finding
//! makes of a member, and [`conclude`] how the members end the sweep; both
//! take what was found as it is, whatever it is.

use crate::{sights, Poll, Promise};
use vstd::prelude::*;

verus! {

/// A member of a gathering. Once it is no longer `Waiting` it never changes.
#[verifier::reject_recursive_types(T)]
#[verifier::reject_recursive_types(E)]
pub enum Member<T, E> {
    /// Still awaited.
    Waiting(Promise<T, E>),
    /// Settled with this value.
    Done(T),
    /// Dead: no value will come.
    Dead,
}

/// How one sweep over the members of a gathering ends.
#[verifier::reject_recursive_types(T)]
#[verifier::reject_recursive_types(E)]
pub enum Round<T, E> {
    /// The gathering settles: with the values, or with the first failure.
    Settled(Result<Vec<T>, E>),
    /// Some member is still awaited: the members as the sweep leaves them.
    Waiting(Vec<Member<T, E>>),
    /// There were members, and all of them are dead.
    Dead,
}

/// The members of a new gathering: every handle awaited, in order.
pub open spec fn members_of<T, E>(handles: Seq<Promise<T, E>>) -> Seq<Member<T, E>> {
    handles.map_values(|h: Promise<T, E>| Member::Waiting(h))
}

/// Whether `polls` may be what one look at each awaited member finds. The
/// entries at the places of the other members do not count.
pub open spec fn sighted<T, E>(members: Seq<Member<T, E>>, polls: Seq<Poll<T, E>>) -> bool {
    &&& polls.len() == members.len()
    &&& forall|i: int|
        0 <= i < members.len() ==> (members[i] matches Member::Waiting(h) ==> sights(
            h,
            #[trigger] polls[i],
        ))
}

/// The failure that a finding holds, if any.
pub open spec fn failing<T, E>(seen: Poll<T, E>) -> Option<E> {
    match seen {
        Poll::Settled(Err(e)) => Some(e),
        _ => None,
    }
}

/// What an awaited member becomes on a finding that holds no failure: done
/// with the value found, awaited on with the handle that came back, or dead.
pub open spec fn found<T, E>(seen: Poll<T, E>) -> Member<T, E> {
    match seen {
        Poll::Settled(Ok(v)) => Member::Done(v),
        Poll::Pending(h) => Member::Waiting(h),
        _ => Member::Dead,
    }
}

/// The failure that an awaited member was found with, if any.
pub open spec fn failed<T, E>(member: Member<T, E>, seen: Poll<T, E>) -> Option<E> {
    match member {
        Member::Waiting(_) => failing(seen),
        _ => None,
    }
}

/// The first failure among the findings, in order.
pub open spec fn failure<T, E>(members: Seq<Member<T, E>>, polls: Seq<Poll<T, E>>) -> Option<E>
    recommends
        polls.len() == members.len(),
    decreases members.len(),
{
    if members.len() == 0 {
        None
    } else {
        match failure(members.drop_last(), polls.drop_last()) {
            Some(e) => Some(e),
            None => failed(members.last(), polls.last()),
        }
    }
}

/// A member after a sweep that found `seen` at its place. Only an awaited
/// member is looked at.
pub open spec fn step<T, E>(member: Member<T, E>, seen: Poll<T, E>) -> Member<T, E> {
    match member {
        Member::Waiting(_) => found(seen),
        _ => member,
    }
}

/// The members after a sweep that found `polls`.
pub open spec fn advance<T, E>(members: Seq<Member<T, E>>, polls: Seq<Poll<T, E>>) -> Seq<
    Member<T, E>,
>
    recommends
        polls.len() == members.len(),
{
    Seq::new(members.len(), |i: int| step(members[i], polls[i]))
}

/// Whether some member is still awaited.
pub open spec fn awaited<T, E>(members: Seq<Member<T, E>>) -> bool {
    exists|i: int| 0 <= i < members.len() && #[trigger] members[i] is Waiting
}

/// The value of a member that is done.
pub open spec fn value<T, E>(member: Member<T, E>) -> Option<T> {
    match member {
        Member::Done(v) => Some(v),
        _ => None,
    }
}

/// The values of the members that are done, in the order of the members.
pub open spec fn values<T, E>(members: Seq<Member<T, E>>) -> Seq<T> {
    members.filter_map(|m: Member<T, E>| value(m))
}

/// Whether a sweep that found no failure and leaves `next` ends as `round`.
/// The gathering waits as long as a member is awaited. After that it settles
/// with the values, unless there were members and none of them gave a value:
/// then it is dead.
pub open spec fn concludes<T, E>(next: Seq<Member<T, E>>, round: Round<T, E>) -> bool {
    if awaited(next) {
        round matches Round::Waiting(m) && m@ == next
    } else if next.len() == 0 || values(next).len() > 0 {
        round matches Round::Settled(Ok(v)) && v@ == values(next)
    } else {
        round is Dead
    }
}

/// Whether a sweep over `members` that found `polls` ends as `round`. The
/// findings leave no choice. The first failure settles the gathering.
/// Without a failure the round is the one that the members conclude as the
/// sweep leaves them.
pub open spec fn decides<T, E>(
    members: Seq<Member<T, E>>,
    polls: Seq<Poll<T, E>>,
    round: Round<T, E>,
) -> bool {
    match failure(members, polls) {
        Some(e) => round == Round::Settled(Err::<Vec<T>, E>(e)),
        None => concludes(advance(members, polls), round),
    }
}

/// A finding that a look at `member` may have: its own outcome where it holds
/// one, the dead state otherwise.
spec fn idle<T, E>(member: Member<T, E>) -> Poll<T, E> {
    match member {
        Member::Waiting(h) => match h.outcome() {
            Some(o) => Poll::Settled(o),
            None => Poll::Dead,
        },
        _ => Poll::Dead,
    }
}

/// A failure with none before it is the first.
pub proof fn lemma_first_failure<T, E>(
    members: Seq<Member<T, E>>,
    polls: Seq<Poll<T, E>>,
    i: int,
    e: E,
)
    requires
        polls.len() == members.len(),
        0 <= i < members.len(),
        failed(members[i], polls[i]) == Some(e),
        forall|j: int| 0 <= j < i ==> failed(members[j], polls[j]) is None,
    ensures
        failure(members, polls) == Some(e),
    decreases members.len(),
{
    if i == members.len() - 1 {
        lemma_no_failure(members.drop_last(), polls.drop_last());
    } else {
        lemma_first_failure(members.drop_last(), polls.drop_last(), i, e);
    }
}

/// Where no member is found with a failure there is none.
pub proof fn lemma_no_failure<T, E>(members: Seq<Member<T, E>>, polls: Seq<Poll<T, E>>)
    requires
        polls.len() == members.len(),
        forall|j: int| 0 <= j < members.len() ==> failed(members[j], polls[j]) is None,
    ensures
        failure(members, polls) is None,
    decreases members.len(),
{
    if members.len() > 0 {
        lemma_no_failure(members.drop_last(), polls.drop_last());
    }
}

/// A member that is no longer awaited is left as it is by every sweep: it
/// settles or dies once.
pub proof fn lemma_settled_members_stay<T, E>(
    members: Seq<Member<T, E>>,
    polls: Seq<Poll<T, E>>,
    i: int,
)
    requires
        0 <= i < members.len(),
        !(members[i] is Waiting),
    ensures
        advance(members, polls)[i] == members[i],
{
}

/// A member found pending is awaited on, with the same handle.
pub proof fn lemma_pending_members_wait<T, E>(
    members: Seq<Member<T, E>>,
    polls: Seq<Poll<T, E>>,
    i: int,
)
    requires
        sighted(members, polls),
        0 <= i < members.len(),
        members[i] is Waiting,
        polls[i] is Pending,
    ensures
        advance(members, polls)[i] == members[i],
{
    assert(sights(members[i]->Waiting_0, polls[i]));
}

/// Where every member is done, the values are those of the members, place by
/// place: the order in which the members settled leaves no trace.
pub proof fn lemma_values_by_place<T, E>(members: Seq<Member<T, E>>, vals: Seq<T>)
    requires
        vals.len() == members.len(),
        forall|i: int| 0 <= i < members.len() ==> members[i] == Member::<T, E>::Done(vals[i]),
    ensures
        values(members) == vals,
    decreases members.len(),
{
    if members.len() > 0 {
        lemma_values_by_place(members.drop_last(), vals.drop_last());
        assert(vals.drop_last().push(vals.last()) =~= vals);
    } else {
        assert(vals =~= Seq::empty());
    }
}

/// Where no member is done, there are no values.
pub proof fn lemma_no_values<T, E>(members: Seq<Member<T, E>>)
    requires
        forall|i: int| 0 <= i < members.len() ==> !(members[i] is Done),
    ensures
        values(members).len() == 0,
    decreases members.len(),
{
    if members.len() > 0 {
        lemma_no_values(members.drop_last());
    }
}

/// A gathering of handles that all hold a value settles in its first sweep,
/// with these values in the order of the handles.
pub proof fn lemma_settled_values_in_order<T, E>(
    handles: Seq<Promise<T, E>>,
    vals: Seq<T>,
    polls: Seq<Poll<T, E>>,
    round: Round<T, E>,
)
    requires
        vals.len() == handles.len(),
        forall|i: int|
            0 <= i < handles.len() ==> (#[trigger] handles[i]).outcome() == Some(
                Ok::<T, E>(vals[i]),
            ),
        sighted(members_of(handles), polls),
        decides(members_of(handles), polls, round),
    ensures
        round matches Round::Settled(Ok(v)) && v@ == vals,
{
    let members = members_of(handles);
    let next = advance(members, polls);
    assert forall|i: int| 0 <= i < members.len() implies polls[i] == Poll::Settled(
        Ok::<T, E>(vals[i]),
    ) by {
        assert(sights(handles[i], polls[i]));
    }
    lemma_no_failure(members, polls);
    lemma_values_by_place(next, vals);
}

/// The first failure that a sweep finds settles the gathering, whatever the
/// other members hold: no value is handed on.
pub proof fn lemma_failure_settles<T, E>(
    members: Seq<Member<T, E>>,
    polls: Seq<Poll<T, E>>,
    i: int,
    e: E,
    round: Round<T, E>,
)
    requires
        polls.len() == members.len(),
        0 <= i < members.len(),
        failed(members[i], polls[i]) == Some(e),
        forall|j: int| 0 <= j < i ==> failed(members[j], polls[j]) is None,
        decides(members, polls, round),
    ensures
        round == Round::Settled(Err::<Vec<T>, E>(e)),
{
    lemma_first_failure(members, polls, i, e);
}

/// A gathering whose members are all found dead is dead: it does not settle
/// with an empty list of values.
pub proof fn lemma_dead_members_dead_gathering<T, E>(
    members: Seq<Member<T, E>>,
    polls: Seq<Poll<T, E>>,
    round: Round<T, E>,
)
    requires
        polls.len() == members.len(),
        members.len() > 0,
        forall|i: int|
            0 <= i < members.len() ==> members[i] is Dead || (members[i] is Waiting
                && polls[i] is Dead),
        decides(members, polls, round),
    ensures
        round is Dead,
{
    let next = advance(members, polls);
    lemma_no_failure(members, polls);
    lemma_no_values(next);
}

/// A gathering without members settles at once, with no values.
pub proof fn lemma_empty_gathering<T, E>(polls: Seq<Poll<T, E>>, round: Round<T, E>)
    requires
        decides(Seq::<Member<T, E>>::empty(), polls, round),
    ensures
        round matches Round::Settled(Ok(v)) && v@.len() == 0,
{
}

/// The members of a new gathering: every handle awaited, in order.
pub fn start<T, E>(handles: Vec<Promise<T, E>>) -> (members: Vec<Member<T, E>>)
    ensures
        members@ == members_of(handles@),
{
    let ghost all = handles@;
    let mut members: Vec<Member<T, E>> = Vec::with_capacity(handles.len());
    for handle in it: handles
        invariant
            it.seq() == all,
            members@ == all.take(it.index()).map_values(|h: Promise<T, E>| Member::Waiting(h)),
    {
        proof {
            let i = it.index();
            assert(all.take(i + 1).map_values(|h: Promise<T, E>| Member::Waiting(h))
                =~= all.take(i).map_values(|h: Promise<T, E>| Member::Waiting(h)).push(
                Member::Waiting(handle),
            ));
        }
        members.push(Member::Waiting(handle));
    }
    proof {
        assert(all.take(all.len() as int) =~= all);
    }
    members
}

/// The values of the members that are done, in the order of the members.
pub fn collect<T, E>(members: Vec<Member<T, E>>) -> (out: Vec<T>)
    ensures
        out@ == values(members@),
{
    let ghost all = members@;
    let mut out: Vec<T> = Vec::new();
    for member in it: members
        invariant
            it.seq() == all,
            out@ == values(all.take(it.index())),
    {
        proof {
            let i = it.index();
            assert(all.take(i + 1).drop_last() =~= all.take(i));
        }
        match member {
            Member::Done(v) => out.push(v),
            _ => {},
        }
    }
    proof {
        assert(all.take(all.len() as int) =~= all);
    }
    out
}

/// What a finding makes of an awaited member: the failure that ends the
/// gathering, or the member as it goes on.
pub fn note<T, E>(seen: Poll<T, E>) -> (next: Result<Member<T, E>, E>)
    ensures
        match failing(seen) {
            Some(e) => next == Err::<Member<T, E>, E>(e),
            None => next == Ok::<Member<T, E>, E>(found(seen)),
        },
{
    match seen {
        Poll::Settled(Ok(v)) => Ok(Member::Done(v)),
        Poll::Settled(Err(e)) => Err(e),
        Poll::Pending(h) => Ok(Member::Waiting(h)),
        Poll::Dead => Ok(Member::Dead),
    }
}

/// The round that ends a sweep without a failure, given the members as the
/// sweep leaves them.
pub fn conclude<T, E>(next: Vec<Member<T, E>>) -> (round: Round<T, E>)
    ensures
        concludes(next@, round),
{
    let mut waiting = false;
    let ghost mut at: int = 0;
    for i in 0..next.len()
        invariant
            waiting ==> 0 <= at < next.len() && next[at] is Waiting,
            !waiting ==> forall|j: int| 0 <= j < i ==> !(#[trigger] next[j] is Waiting),
    {
        match &next[i] {
            Member::Waiting(_) => {
                waiting = true;
                proof {
                    at = i as int;
                }
            },
            _ => {},
        }
    }
    if waiting {
        Round::Waiting(next)
    } else {
        let total = next.len();
        let found = collect(next);
        if total == 0 || found.len() > 0 {
            Round::Settled(Ok(found))
        } else {
            Round::Dead
        }
    }
}

/// One sweep: looks at each awaited member in order, hands each finding to
/// [`note`], and stops at the first failure. Without one, the members as
/// they then are go to [`conclude`].
pub fn sweep<T, E>(members: Vec<Member<T, E>>) -> (round: Round<T, E>)
    ensures
        exists|polls: Seq<Poll<T, E>>| #[trigger]
            sighted(members@, polls) && decides(members@, polls, round),
{
    let ghost all = members@;
    let ghost mut polls: Seq<Poll<T, E>> = Seq::empty();
    let mut next: Vec<Member<T, E>> = Vec::with_capacity(members.len());
    for member in it: members
        invariant
            it.seq() == all,
            polls.len() == it.index(),
            sighted(all.take(it.index()), polls),
            forall|j: int| 0 <= j < polls.len() ==> failed(all[j], #[trigger] polls[j]) is None,
            next@ == advance(all.take(it.index()), polls),
    {
        let ghost i = it.index();
        let ghost before = polls;
        let ghost seen;
        assert(all.take(i + 1).drop_last() =~= all.take(i));
        match member {
            Member::Waiting(handle) => {
                let finding = handle.poll();
                proof {
                    seen = finding;
                }
                match note(finding) {
                    Ok(noted) => {
                        next.push(noted);
                    },
                    Err(e) => {
                        proof {
                            let rest = Seq::new(
                                all.len(),
                                |j: int|
                                    if j < i {
                                        polls[j]
                                    } else if j == i {
                                        seen
                                    } else {
                                        idle(all[j])
                                    },
                            );
                            lemma_first_failure(all, rest, i, e);
                            assert(sighted(all, rest));
                        }
                        return Round::Settled(Err(e));
                    },
                }
            },
            settled => {
                proof {
                    seen = Poll::Dead;
                }
                next.push(settled);
            },
        }
        proof {
            polls = before.push(seen);
            assert(polls.drop_last() =~= before);
            assert(next@ =~= advance(all.take(i + 1), polls));
        }
    }
    proof {
        assert(all.take(all.len() as int) =~= all);
        lemma_no_failure(all, polls);
    }
    conclude(next)
}

} // verus!
