//! A model of the rotation directory, and what rotations do to it.

use vstd::prelude::*;
use vstd::set_lib::lemma_len_subset;
use crate::naming::{archive_number, is_archive_name, lemma_archive_name_round_trip};
use crate::planner::{ascending, describes, is_plan, names_of, next_number, RotationResult};
use crate::rotation::{excess, is_step_of, RotationStep};

verus! {

/// The names a directory listing holds.
pub open spec fn entries_of(listing: Seq<String>) -> Set<Seq<char>> {
    listing.map_values(|s: String| s@).to_set()
}

/// The archive names among the entries of a directory.
pub open spec fn archives_in(dir: Set<Seq<char>>, base: Seq<char>, compress: bool) -> Set<Seq<char>> {
    dir.filter(|n: Seq<char>| is_archive_name(base, compress, n))
}

/// The entries of a directory once a rotation step has been carried out on it.
pub open spec fn after_step(dir: Set<Seq<char>>, step: RotationStep) -> Set<Seq<char>> {
    match step {
        RotationStep::Discard { remove } => dir.difference(names_of(remove@).to_set()),
        RotationStep::Archive { remove, target } => dir.difference(names_of(remove@).to_set()).insert(
            target.name@,
        ),
    }
}

/// Every archive name in the listing is one of the plan's archives.
proof fn lemma_plan_complete(
    base: Seq<char>,
    dir: Seq<char>,
    compress: bool,
    listing: Seq<String>,
    plan: RotationResult,
    n: Seq<char>,
)
    requires
        is_plan(base, dir, compress, listing, plan),
        entries_of(listing).contains(n),
        is_archive_name(base, compress, n),
    ensures
        exists|i: int|
            0 <= i < plan.existing_rotated@.len() && #[trigger] plan.existing_rotated@[i].name@ == n,
{
    let m = listing.map_values(|s: String| s@);
    assert(m.contains(n));
    let k = choose|k: int| 0 <= k < m.len() && #[trigger] m[k] == n;
    assert(listing[k]@ == n);
    assert(names_of(plan.existing_rotated@).contains(n));
    let i = choose|i: int|
        0 <= i < plan.existing_rotated@.len() && names_of(plan.existing_rotated@)[i] == n;
    assert(plan.existing_rotated@[i].name@ == n);
}

/// Retention bound: after a rotation, the rotation directory holds at most
/// `max_history` archives.
pub proof fn lemma_retention_bound(
    base: Seq<char>,
    dir: Seq<char>,
    compress: bool,
    listing: Seq<String>,
    plan: RotationResult,
    max_history: u32,
    step: RotationStep,
)
    requires
        is_plan(base, dir, compress, listing, plan),
        is_step_of(max_history, plan, step),
    ensures
        archives_in(after_step(entries_of(listing), step), base, compress).len() <= max_history,
{
    let ex = plan.existing_rotated@;
    let d = entries_of(listing);
    let after = archives_in(after_step(d, step), base, compress);
    match step {
        RotationStep::Discard { remove } => {
            assert forall|n: Seq<char>| !after.contains(n) by {
                if after.contains(n) {
                    lemma_plan_complete(base, dir, compress, listing, plan, n);
                    let i = choose|i: int| 0 <= i < ex.len() && #[trigger] ex[i].name@ == n;
                    assert(names_of(remove@)[i] == n);
                    assert(names_of(remove@).to_set().contains(n));
                }
            }
            assert(after =~= Set::<Seq<char>>::empty());
        },
        RotationStep::Archive { remove, target } => {
            let c = excess(ex.len(), (max_history - 1) as nat) as int;
            let kept = names_of(ex).skip(c);
            let bound = kept.to_set().insert(target.name@);
            assert forall|n: Seq<char>| after.contains(n) implies bound.contains(n) by {
                if n != target.name@ {
                    lemma_plan_complete(base, dir, compress, listing, plan, n);
                    let i = choose|i: int| 0 <= i < ex.len() && #[trigger] ex[i].name@ == n;
                    if i < c {
                        assert(names_of(remove@)[i] == n);
                        assert(names_of(remove@).to_set().contains(n));
                    } else {
                        assert(kept[i - c] == n);
                        assert(kept.to_set().contains(n));
                    }
                }
            }
            kept.lemma_cardinality_of_set();
            lemma_len_subset(after, bound);
        },
    }
}

/// Zero retention: with `max_history` zero, no archive is left after a
/// rotation.
pub proof fn lemma_zero_retention(
    base: Seq<char>,
    dir: Seq<char>,
    compress: bool,
    listing: Seq<String>,
    plan: RotationResult,
    step: RotationStep,
)
    requires
        is_plan(base, dir, compress, listing, plan),
        is_step_of(0, plan, step),
    ensures
        step is Discard,
        archives_in(after_step(entries_of(listing), step), base, compress).is_empty(),
{
    lemma_retention_bound(base, dir, compress, listing, plan, 0, step);
    let after = archives_in(after_step(entries_of(listing), step), base, compress);
    assert(entries_of(listing).finite()) by {
        vstd::seq_lib::seq_to_set_is_finite(listing.map_values(|s: String| s@));
    }
    after.lemma_len0_is_empty();
}

/// Archive numbering: the archive a rotation creates carries a number above
/// every archive left beside it, and a plan made afterwards numbers the next
/// archive one higher, whatever the retention deleted.
pub proof fn lemma_numbering_monotonic(
    base: Seq<char>,
    dir: Seq<char>,
    compress: bool,
    listing: Seq<String>,
    plan: RotationResult,
    max_history: u32,
    step: RotationStep,
    later_listing: Seq<String>,
    later_plan: RotationResult,
)
    requires
        is_plan(base, dir, compress, listing, plan),
        is_step_of(max_history, plan, step),
        max_history > 0,
        entries_of(later_listing) == after_step(entries_of(listing), step),
        is_plan(base, dir, compress, later_listing, later_plan),
    ensures
        forall|n: Seq<char>|
            #[trigger] archives_in(entries_of(later_listing), base, compress).contains(n)
                ==> archive_number(base, compress, n) <= plan.next_rotation.number,
        later_plan.next_rotation.number == plan.next_rotation.number + 1,
{
    let ex = plan.existing_rotated@;
    let ex2 = later_plan.existing_rotated@;
    let t = plan.next_rotation;
    let tn = t.number as nat;
    lemma_archive_name_round_trip(base, tn, compress);
    let d2 = entries_of(later_listing);
    assert forall|n: Seq<char>|
        #[trigger] archives_in(d2, base, compress).contains(n) implies archive_number(
        base,
        compress,
        n,
    ) <= tn by {
        if n != t.name@ {
            lemma_plan_complete(base, dir, compress, listing, plan, n);
            let i = choose|i: int| 0 <= i < ex.len() && #[trigger] ex[i].name@ == n;
            assert(describes(ex[i], base, dir, compress));
            assert(ex[i].number <= ex.last().number);
        }
    }
    // The new archive is among the later plan's archives, so the later
    // plan's largest number is at least its number, and at most by the above.
    assert(step matches RotationStep::Archive { target, .. } && target == t);
    assert(d2.contains(t.name@));
    lemma_plan_complete(base, dir, compress, later_listing, later_plan, t.name@);
    let w = choose|w: int| 0 <= w < ex2.len() && #[trigger] ex2[w].name@ == t.name@;
    assert(describes(ex2[w], base, dir, compress));
    assert(ex2[w].number <= ex2.last().number);
    let last = ex2.len() - 1;
    assert(describes(ex2[last], base, dir, compress));
    let k = choose|k: int| 0 <= k < later_listing.len() && #[trigger] later_listing[k]@ == ex2[last].name@;
    assert(later_listing.map_values(|s: String| s@)[k] == ex2[last].name@);
    assert(archives_in(d2, base, compress).contains(ex2[last].name@));
}

} // verus!
