//! Laws of the engine, proved of the model of a run.

use crate::action::{mutations_of, MutationView};
use crate::config::ConfigView;
use crate::digest::digest_of;
use crate::model::{
    distinct_digests, files_read, has_digest, run, seen_before, step, survivors, ObservationView,
    OutcomeView, VisitView,
};
use crate::path::{
    is_absolute, join, lemma_parent_of_join, lemma_reroot_preserves_relative_path, parent,
    shorter,
};
use vstd::prelude::*;

verus! {

/// A run answers every visit with one outcome.
pub proof fn lemma_one_outcome_per_visit(config: ConfigView, visits: Seq<VisitView>)
    ensures
        run(config, visits).outcomes.len() == visits.len(),
    decreases visits.len(),
{
    if visits.len() > 0 {
        lemma_one_outcome_per_visit(config, visits.drop_last());
    }
}

/// The outcome of a visit depends on the visits before it alone: it is the
/// answer of [`step`] to the registry that those visits built.
pub proof fn lemma_outcome_of_visit(config: ConfigView, visits: Seq<VisitView>, i: int)
    requires
        0 <= i < visits.len(),
    ensures
        run(config, visits).outcomes.len() == visits.len(),
        run(config, visits).outcomes[i] == step(
            config,
            run(config, visits.take(i)).registry,
            visits[i],
        ).1,
    decreases visits.len(),
{
    lemma_one_outcome_per_visit(config, visits);
    lemma_one_outcome_per_visit(config, visits.drop_last());
    if i == visits.len() - 1 {
        assert(visits.take(i) =~= visits.drop_last());
    } else {
        lemma_outcome_of_visit(config, visits.drop_last(), i);
        assert(visits.drop_last().take(i) =~= visits.take(i));
    }
}

/// The registry holds exactly the fingerprints of the readable files visited
/// so far, and it is finite.
pub proof fn lemma_registry_holds_digests_seen(config: ConfigView, visits: Seq<VisitView>)
    ensures
        run(config, visits).registry.dom().finite(),
        forall|digest: Seq<char>| #[trigger]
            run(config, visits).registry.contains_key(digest) <==> seen_before(
                visits,
                visits.len() as int,
                digest,
            ),
    decreases visits.len(),
{
    if visits.len() > 0 {
        let front = visits.drop_last();
        let before = run(config, front).registry;
        let after = run(config, visits).registry;
        lemma_registry_holds_digests_seen(config, front);
        assert forall|digest: Seq<char>| #[trigger]
            after.contains_key(digest) <==> seen_before(visits, visits.len() as int, digest) by {
            if after.contains_key(digest) {
                if before.contains_key(digest) {
                    let j = choose|j: int|
                        0 <= j < front.len() && #[trigger] has_digest(front[j], digest);
                    assert(has_digest(visits[j], digest));
                } else {
                    assert(has_digest(visits[visits.len() - 1], digest));
                }
            }
            if seen_before(visits, visits.len() as int, digest) {
                let j = choose|j: int|
                    0 <= j < visits.len() && #[trigger] has_digest(visits[j], digest);
                if j < front.len() {
                    assert(has_digest(front[j], digest));
                    assert(before.contains_key(digest));
                }
            }
        }
    }
}

/// Every path in the registry is the path of a readable file that was
/// visited with that fingerprint.
pub proof fn lemma_registry_names_visited_files(
    config: ConfigView,
    visits: Seq<VisitView>,
    digest: Seq<char>,
)
    requires
        run(config, visits).registry.contains_key(digest),
    ensures
        exists|j: int|
            0 <= j < visits.len() && #[trigger] has_digest(visits[j], digest) && visits[j].path
                == run(config, visits).registry[digest],
    decreases visits.len(),
{
    if visits.len() > 0 {
        let front = visits.drop_last();
        let before = run(config, front).registry;
        let last = visits.len() - 1;
        if has_digest(visits[last], digest) && run(config, visits).registry[digest]
            == visits[last].path {
        } else {
            assert(before.contains_key(digest));
            assert(before[digest] == run(config, visits).registry[digest]);
            lemma_registry_names_visited_files(config, front, digest);
            let j = choose|j: int|
                0 <= j < front.len() && #[trigger] has_digest(front[j], digest) && front[j].path
                    == before[digest];
            assert(has_digest(visits[j], digest));
        }
    }
}

/// A readable file is registered as canonical exactly when no earlier visit
/// had its fingerprint. A directory is ignored and an unreadable file is
/// skipped, whatever the policy.
pub proof fn lemma_first_of_a_content_is_registered(
    config: ConfigView,
    visits: Seq<VisitView>,
    i: int,
)
    requires
        0 <= i < visits.len(),
    ensures
        run(config, visits).outcomes.len() == visits.len(),
        visits[i].observation is Directory ==> run(config, visits).outcomes[i]
            == OutcomeView::Ignored,
        visits[i].observation is Unreadable ==> run(config, visits).outcomes[i]
            == OutcomeView::Skipped,
        forall|digest: Seq<char>| #[trigger]
            has_digest(visits[i], digest) ==> (run(config, visits).outcomes[i]
                == OutcomeView::Registered <==> !seen_before(visits, i, digest)),
{
    lemma_outcome_of_visit(config, visits, i);
    lemma_registry_holds_digests_seen(config, visits.take(i));
    assert forall|digest: Seq<char>| #[trigger]
        has_digest(visits[i], digest) implies (run(config, visits).outcomes[i]
        == OutcomeView::Registered <==> !seen_before(visits, i, digest)) by {
        lemma_seen_before_in_prefix(visits, i, digest);
    }
}

/// What was seen before visit `i` is what the first `i` visits hold.
proof fn lemma_seen_before_in_prefix(visits: Seq<VisitView>, i: int, digest: Seq<char>)
    requires
        0 <= i <= visits.len(),
    ensures
        seen_before(visits.take(i), i, digest) == seen_before(visits, i, digest),
{
    let front = visits.take(i);
    if seen_before(front, i, digest) {
        let j = choose|j: int|
            0 <= j < i && j < front.len() && #[trigger] has_digest(front[j], digest);
        assert(has_digest(visits[j], digest));
    }
    if seen_before(visits, i, digest) {
        let j = choose|j: int|
            0 <= j < i && j < visits.len() && #[trigger] has_digest(visits[j], digest);
        assert(has_digest(front[j], digest));
    }
}

/// Under the delete policy a readable file is kept if it is the first with
/// its content, and removed otherwise.
pub proof fn lemma_delete_removes_later_copies(
    config: ConfigView,
    visits: Seq<VisitView>,
    i: int,
    digest: Seq<char>,
)
    requires
        config.policy is Delete,
        0 <= i < visits.len(),
        has_digest(visits[i], digest),
    ensures
        run(config, visits).outcomes.len() == visits.len(),
        run(config, visits).outcomes[i] == if seen_before(visits, i, digest) {
            OutcomeView::Deleted
        } else {
            OutcomeView::Registered
        },
{
    lemma_outcome_of_visit(config, visits, i);
    lemma_registry_holds_digests_seen(config, visits.take(i));
    lemma_seen_before_in_prefix(visits, i, digest);
}

/// Under a policy that never replaces a canonical file, the registry names,
/// for each fingerprint, the first file visited with it.
pub proof fn lemma_first_visited_stays_canonical(
    config: ConfigView,
    visits: Seq<VisitView>,
    i: int,
    digest: Seq<char>,
)
    requires
        !(config.policy is RelocateKeepShortest),
        0 <= i < visits.len(),
        has_digest(visits[i], digest),
        !seen_before(visits, i, digest),
    ensures
        run(config, visits).registry.contains_key(digest),
        run(config, visits).registry[digest] == visits[i].path,
    decreases visits.len(),
{
    let front = visits.drop_last();
    lemma_registry_holds_digests_seen(config, front);
    if i == visits.len() - 1 {
        assert(visits.take(i) =~= front);
        lemma_seen_before_in_prefix(visits, i, digest);
    } else {
        assert(front[i] == visits[i]);
        if seen_before(front, i, digest) {
            let j = choose|j: int|
                0 <= j < i && j < front.len() && #[trigger] has_digest(front[j], digest);
            assert(has_digest(visits[j], digest));
        }
        lemma_first_visited_stays_canonical(config, front, i, digest);
    }
}

/// Of two files with the same content, the delete policy keeps the one that
/// was visited first and removes the other. The registry names the one kept.
pub proof fn lemma_delete_keeps_first_visited(
    config: ConfigView,
    visits: Seq<VisitView>,
    first: int,
    second: int,
    digest: Seq<char>,
)
    requires
        config.policy is Delete,
        0 <= first < second < visits.len(),
        has_digest(visits[first], digest),
        has_digest(visits[second], digest),
        !seen_before(visits, first, digest),
    ensures
        run(config, visits).outcomes.len() == visits.len(),
        run(config, visits).outcomes[first] == OutcomeView::Registered,
        run(config, visits).outcomes[second] == OutcomeView::Deleted,
        run(config, visits).registry[digest] == visits[first].path,
{
    lemma_delete_removes_later_copies(config, visits, first, digest);
    lemma_delete_removes_later_copies(config, visits, second, digest);
    assert(has_digest(visits[first], digest));
    assert(seen_before(visits, second, digest));
    lemma_first_visited_stays_canonical(config, visits, first, digest);
}

/// Under the keep-shortest policy the registry names, for each fingerprint,
/// a path that is as short as any visited with it: no file with that content
/// has a strictly shorter path.
pub proof fn lemma_keep_shortest_names_a_shortest_path(
    config: ConfigView,
    visits: Seq<VisitView>,
    i: int,
    digest: Seq<char>,
)
    requires
        config.policy is RelocateKeepShortest,
        0 <= i < visits.len(),
        has_digest(visits[i], digest),
    ensures
        run(config, visits).registry.contains_key(digest),
        !shorter(visits[i].path, run(config, visits).registry[digest]),
    decreases visits.len(),
{
    let front = visits.drop_last();
    let last = visits.len() - 1;
    lemma_registry_holds_digests_seen(config, front);
    lemma_registry_holds_digests_seen(config, visits);
    assert(run(config, visits).registry.contains_key(digest));
    if i < last {
        assert(has_digest(front[i], digest));
        lemma_keep_shortest_names_a_shortest_path(config, front, i, digest);
    }
}

/// Files with the same bytes have the same fingerprint, wherever they lie
/// and whatever they are called: the fingerprint is a function of the
/// content alone.
pub proof fn lemma_same_content_same_digest(first: Seq<u8>, second: Seq<u8>)
    requires
        first == second,
    ensures
        digest_of(first) == digest_of(second),
{
}

/// Dropping the last visit keeps the fingerprints pairwise distinct.
proof fn lemma_distinct_without_last(visits: Seq<VisitView>)
    requires
        distinct_digests(visits),
        visits.len() > 0,
    ensures
        distinct_digests(visits.drop_last()),
{
    let front = visits.drop_last();
    assert forall|i: int, j: int|
        0 <= i < j < front.len() && (#[trigger] front[i]).observation is Digest implies (
    #[trigger] front[j]).observation != front[i].observation by {
        assert(front[i] == visits[i]);
        assert(front[j] == visits[j]);
    }
}

/// Where no two readable files have the same fingerprint, nothing is removed
/// or moved under any policy: every readable file is registered, the
/// registry names each under its fingerprint, and it has one entry per
/// readable file.
pub proof fn lemma_distinct_contents_are_all_kept(config: ConfigView, visits: Seq<VisitView>)
    requires
        distinct_digests(visits),
    ensures
        run(config, visits).outcomes.len() == visits.len(),
        forall|i: int|
            0 <= i < visits.len() ==> (#[trigger] run(config, visits).outcomes[i]).keeps_file(),
        forall|i: int, digest: Seq<char>|
            0 <= i < visits.len() && #[trigger] has_digest(visits[i], digest) ==> {
                &&& run(config, visits).outcomes[i] == OutcomeView::Registered
                &&& run(config, visits).registry.contains_key(digest)
                &&& run(config, visits).registry[digest] == visits[i].path
            },
        run(config, visits).registry.dom().finite(),
        run(config, visits).registry.dom().len() == files_read(visits),
    decreases visits.len(),
{
    lemma_one_outcome_per_visit(config, visits);
    if visits.len() > 0 {
        let front = visits.drop_last();
        let last = visits.len() - 1;
        let before = run(config, front);
        let after = run(config, visits);
        lemma_distinct_without_last(visits);
        lemma_distinct_contents_are_all_kept(config, front);
        lemma_registry_holds_digests_seen(config, front);
        lemma_one_outcome_per_visit(config, front);
        match visits[last].observation {
            ObservationView::Digest(d) => {
                assert(has_digest(visits[last], d));
                if before.registry.contains_key(d) {
                    let j = choose|j: int|
                        0 <= j < front.len() && #[trigger] has_digest(front[j], d);
                    assert(visits[j].observation == visits[last].observation);
                    assert(false);
                }
                assert(after.registry == before.registry.insert(d, visits[last].path));
                assert(after.registry.dom() =~= before.registry.dom().insert(d));
            },
            _ => {
                assert(after.registry == before.registry);
            },
        }
        assert forall|i: int| 0 <= i < visits.len() implies (
        #[trigger] after.outcomes[i]).keeps_file() by {
            if i < last {
                assert(after.outcomes[i] == before.outcomes[i]);
            }
        }
        assert forall|i: int, digest: Seq<char>|
            0 <= i < visits.len() && #[trigger] has_digest(visits[i], digest) implies {
            &&& after.outcomes[i] == OutcomeView::Registered
            &&& after.registry.contains_key(digest)
            &&& after.registry[digest] == visits[i].path
        } by {
            if i < last {
                assert(has_digest(front[i], digest));
                assert(after.outcomes[i] == before.outcomes[i]);
                assert(before.registry[digest] == front[i].path);
                assert(visits[last].observation != visits[i].observation);
            }
        }
    }
}

/// The files that a run leaves in place have pairwise distinct fingerprints.
pub proof fn lemma_survivors_are_distinct(config: ConfigView, visits: Seq<VisitView>)
    ensures
        distinct_digests(survivors(config, visits)),
        forall|k: int|
            0 <= k < survivors(config, visits).len() ==> exists|j: int|
                0 <= j < visits.len() && visits[j] == #[trigger] survivors(config, visits)[k],
    decreases visits.len(),
{
    if visits.len() > 0 {
        let front = visits.drop_last();
        let last = visits.len() - 1;
        let kept = survivors(config, front);
        let all = survivors(config, visits);
        lemma_survivors_are_distinct(config, front);
        lemma_one_outcome_per_visit(config, visits);
        assert forall|k: int| 0 <= k < all.len() implies exists|j: int|
            0 <= j < visits.len() && visits[j] == #[trigger] all[k] by {
            if k < kept.len() {
                let j = choose|j: int| 0 <= j < front.len() && front[j] == kept[k];
                assert(visits[j] == all[k]);
            } else {
                assert(visits[last] == all[k]);
            }
        }
        if run(config, visits).outcomes.last().keeps_file() {
            assert forall|i: int, j: int|
                0 <= i < j < all.len() && (#[trigger] all[i]).observation is Digest implies (
            #[trigger] all[j]).observation != all[i].observation by {
                assert(all[i] == kept[i]);
                if j < kept.len() {
                    assert(all[j] == kept[j]);
                } else if all[j].observation == all[i].observation {
                    let digest = all[i].observation->Digest_0;
                    let m = choose|m: int| 0 <= m < front.len() && front[m] == kept[i];
                    assert(has_digest(visits[m], digest));
                    assert(seen_before(visits, last, digest));
                    assert(has_digest(visits[last], digest));
                    lemma_first_of_a_content_is_registered(config, visits, last);
                }
            }
        }
    }
}

/// A sequence of visits with pairwise distinct fingerprints survives its
/// own run unchanged.
pub proof fn lemma_distinct_contents_survive(config: ConfigView, visits: Seq<VisitView>)
    requires
        distinct_digests(visits),
    ensures
        survivors(config, visits) == visits,
    decreases visits.len(),
{
    if visits.len() > 0 {
        let front = visits.drop_last();
        lemma_distinct_without_last(visits);
        lemma_distinct_contents_survive(config, front);
        lemma_distinct_contents_are_all_kept(config, visits);
        assert(run(config, visits).outcomes[visits.len() - 1].keeps_file());
        assert(front.push(visits.last()) =~= visits);
    } else {
        assert(survivors(config, visits) =~= visits);
    }
}

/// A second run over what the first run left in place removes and moves
/// nothing: it leaves the same files in place as the first.
pub proof fn lemma_second_run_changes_nothing(config: ConfigView, visits: Seq<VisitView>)
    ensures
        run(config, survivors(config, visits)).outcomes.len() == survivors(config, visits).len(),
        forall|i: int|
            0 <= i < survivors(config, visits).len() ==> (#[trigger] run(
                config,
                survivors(config, visits),
            ).outcomes[i]).keeps_file(),
        survivors(config, survivors(config, visits)) == survivors(config, visits),
{
    let kept = survivors(config, visits);
    lemma_survivors_are_distinct(config, visits);
    lemma_distinct_contents_are_all_kept(config, kept);
    lemma_distinct_contents_survive(config, kept);
}

/// A second run changes nothing in whatever order it visits what the first
/// run left in place, and also where some of those entries are gone by then:
/// `second` holds entries of `survivors(config, visits)`, each at most once,
/// and `place` says which.
pub proof fn lemma_second_run_in_any_order_changes_nothing(
    config: ConfigView,
    visits: Seq<VisitView>,
    second: Seq<VisitView>,
    place: spec_fn(int) -> int,
)
    requires
        forall|i: int|
            0 <= i < second.len() ==> 0 <= #[trigger] place(i) < survivors(config, visits).len()
                && second[i] == survivors(config, visits)[place(i)],
        forall|i: int, j: int|
            0 <= i < j < second.len() ==> #[trigger] place(i) != #[trigger] place(j),
    ensures
        run(config, second).outcomes.len() == second.len(),
        forall|i: int|
            0 <= i < second.len() ==> (#[trigger] run(config, second).outcomes[i]).keeps_file(),
        survivors(config, second) == second,
{
    let kept = survivors(config, visits);
    lemma_survivors_are_distinct(config, visits);
    assert forall|i: int, j: int|
        0 <= i < j < second.len() && (#[trigger] second[i]).observation is Digest implies (
    #[trigger] second[j]).observation != second[i].observation by {
        let a = place(i);
        let b = place(j);
        assert(second[i] == kept[a] && second[j] == kept[b]);
        if a < b {
            assert(kept[b].observation != kept[a].observation);
        } else {
            assert(kept[b].observation is Digest ==> kept[a].observation != kept[b].observation);
        }
    }
    lemma_distinct_contents_are_all_kept(config, second);
    lemma_distinct_contents_survive(config, second);
}

/// Under the relocate policy a duplicate at a relative path under the source
/// directory is moved to the same relative path under the target directory:
/// the directory part of that place is created, then the file is moved. The
/// registry is left as it was.
pub proof fn lemma_relocate_moves_duplicates_under_target(
    config: ConfigView,
    visits: Seq<VisitView>,
    i: int,
    digest: Seq<char>,
    relative: Seq<char>,
)
    requires
        config.policy is Relocate,
        0 <= i < visits.len(),
        has_digest(visits[i], digest),
        seen_before(visits, i, digest),
        !is_absolute(relative),
        visits[i].path == join(config.source, relative),
    ensures
        run(config, visits).outcomes.len() == visits.len(),
        run(config, visits).outcomes[i] == (OutcomeView::Relocated {
            destination: join(config.policy->Relocate_target, relative),
        }),
        run(config, visits.take(i + 1)).registry == run(config, visits.take(i)).registry,
        config.policy->Relocate_target.len() > 0 ==> {
            let destination = join(config.policy->Relocate_target, relative);
            &&& parent(destination) is Some
            &&& mutations_of(visits[i].path, run(config, visits).outcomes[i]) == seq![
                MutationView::CreateDirectory { path: parent(destination)->0 },
                MutationView::Move { from: visits[i].path, to: destination },
            ]
        },
{
    lemma_outcome_of_visit(config, visits, i);
    lemma_registry_holds_digests_seen(config, visits.take(i));
    lemma_seen_before_in_prefix(visits, i, digest);
    lemma_reroot_preserves_relative_path(
        config.source,
        config.policy->Relocate_target,
        relative,
    );
    assert(visits.take(i + 1).drop_last() =~= visits.take(i));
    assert(visits.take(i + 1).last() == visits[i]);
    if config.policy->Relocate_target.len() > 0 {
        lemma_parent_of_join(config.policy->Relocate_target, relative);
    }
}

} // verus!
