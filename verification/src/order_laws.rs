//! Picking entries of a list and keeping their order: the vocabulary in which laws
//! say what a selection leaves.
use vstd::prelude::*;

verus! {

/// Whether `got` are the entries of `from` at the positions `at`, and these are
/// the chosen positions in ascending order.
pub open spec fn is_pick<A>(
    at: Seq<int>,
    got: Seq<A>,
    from: Seq<A>,
    chosen: spec_fn(int) -> bool,
) -> bool {
    &&& at.len() == got.len()
    &&& forall|k: int|
        0 <= k < at.len() ==> 0 <= #[trigger] at[k] < from.len() && chosen(at[k]) && got[k]
            == from[at[k]]
    &&& forall|j: int, k: int| 0 <= j < k < at.len() ==> #[trigger] at[j] < #[trigger] at[k]
    &&& forall|i: int| 0 <= i < from.len() && #[trigger] chosen(i) ==> at.contains(i)
}

/// Whether `got` are the chosen entries of `from`, each once and in their order.
pub open spec fn picks<A>(got: Seq<A>, from: Seq<A>, chosen: spec_fn(int) -> bool) -> bool {
    exists|at: Seq<int>| is_pick(at, got, from, chosen)
}

/// Nothing is picked from nothing.
pub proof fn pick_of_nothing<A>(chosen: spec_fn(int) -> bool)
    ensures
        picks(Seq::<A>::empty(), Seq::<A>::empty(), chosen),
{
    assert(is_pick(Seq::<int>::empty(), Seq::<A>::empty(), Seq::<A>::empty(), chosen));
}

/// One more entry is picked where it is chosen.
pub proof fn pick_goes_on<A>(got: Seq<A>, from: Seq<A>, x: A, chosen: spec_fn(int) -> bool)
    requires
        picks(got, from, chosen),
    ensures
        picks(
            if chosen(from.len() as int) {
                got.push(x)
            } else {
                got
            },
            from.push(x),
            chosen,
        ),
{
    let at = choose|at: Seq<int>| is_pick(at, got, from, chosen);
    let n = from.len() as int;
    if chosen(n) {
        let more = at.push(n);
        assert forall|i: int|
            0 <= i < from.push(x).len() && #[trigger] chosen(i) implies more.contains(i) by {
            if i < n {
                assert(at.contains(i));
                let k = choose|k: int| 0 <= k < at.len() && at[k] == i;
                assert(more[k] == i);
            } else {
                assert(more[at.len() as int] == n);
            }
        }
        assert(is_pick(more, got.push(x), from.push(x), chosen));
    } else {
        assert(is_pick(at, got, from.push(x), chosen));
    }
}

/// What is picked does not depend on how the choice is told.
pub proof fn pick_by_the_same<A>(
    got: Seq<A>,
    from: Seq<A>,
    a: spec_fn(int) -> bool,
    b: spec_fn(int) -> bool,
)
    requires
        picks(got, from, a),
        forall|i: int| 0 <= i < from.len() ==> #[trigger] a(i) == b(i),
    ensures
        picks(got, from, b),
{
    let at = choose|at: Seq<int>| is_pick(at, got, from, a);
    assert forall|k: int| 0 <= k < at.len() implies 0 <= #[trigger] at[k] < from.len() && b(at[k])
        && got[k] == from[at[k]] by {
        assert(a(at[k]));
    }
    assert forall|i: int| 0 <= i < from.len() && #[trigger] b(i) implies at.contains(i) by {
        assert(a(i));
    }
    assert(is_pick(at, got, from, b));
}

} // verus!
