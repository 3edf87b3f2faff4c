//! What a guard decides, told by the places it is given.

use vstd::prelude::*;

use crate::cli::error::Fault;
use crate::cli::exit::Exit;
use crate::cli::guard::{
    entry_named, first_forbidden, ground_fault, place_of, place_under, place_within, placed_as,
    reach_text, severity_of, subjects_named, verdict_exit, verdict_of, Entry, Excluded, Forbidden,
    Ground, Place, PlaceModel, Reach, Resolution, VerdictModel,
};
use crate::cli::guard_report::{
    all_refusals_text, all_standing_text, counted, entry_of_inode, findings_of, guard_exit, guarded,
    listed_paths, refusal_text, refused_note, relinked, safe_count, standing_in, standing_of, standing_text,
    tally_name, tally_of, tally_text, tree_path, worst, Candidate, FileId, FindingModel, Inode,
    StandingModel, TallyModel,
};
use crate::cli::report::row;
use crate::path::{first_below, path_within, reduced_path, utf8_lossy};
use crate::text::{
    decimal, first_of, lemma_first_of, lemma_ordered_total, lemma_ordered_transitive, occurs, ordered,
};
use crate::text_laws::{group_says, lemma_said_within};

verus! {

/// What a verdict means to the process: what is safe is done, what is excluded is rejected, what no
/// manifest classifies is degraded, and what nobody can tell is a failure. It refuses exactly where it
/// is not safe, and an exclusion outranks a doubt, which outranks an omission.
pub proof fn law_each_verdict_has_its_exit(verdict: VerdictModel)
    ensures
        verdict_exit(verdict) is Done <==> verdict is Outside || verdict is Included,
        verdict_exit(verdict) is Rejected <==> verdict is Excluded,
        verdict_exit(verdict) is Degraded <==> verdict is Unclassified,
        verdict_exit(verdict) is Failed <==> verdict is Opaque,
        severity_of(verdict) == 0 <==> verdict is Outside || verdict is Included,
        severity_of(verdict) == 1 <==> verdict is Unclassified,
        severity_of(verdict) == 2 <==> verdict is Opaque,
        severity_of(verdict) == 3 <==> verdict is Excluded,
{
}

/// One place is within another by how it is spelled, or else by what it resolves to where both do.
pub proof fn law_a_place_is_within_by_spelling_or_identity(inner: PlaceModel, outer: PlaceModel)
    ensures
        place_within(inner, outer) == Some(Reach::Spelling) <==> path_within(inner.said, outer.said),
        place_within(inner, outer) == Some(Reach::Identity) <==> !path_within(
            inner.said,
            outer.said,
        ) && inner.real is Some && outer.real is Some && path_within(inner.real->0, outer.real->0),
        place_within(inner, outer) is None <==> !path_within(inner.said, outer.said) && !(inner.real
            is Some && outer.real is Some && path_within(inner.real->0, outer.real->0)),
        place_within(inner, outer) != Some(Reach::Inode),
{
}

/// A path is placed by how it is spelled from where the guard runs, and by what it resolves to where it
/// does; where the filesystem would not say, it is placed nowhere.
pub proof fn law_a_path_is_placed_where_it_resolves(
    base: Seq<u8>,
    path: Seq<u8>,
    resolution: Resolution,
)
    ensures
        place_of(base, path, resolution) is None <==> resolution is Refused,
        place_of(base, path, resolution) matches Some(place) ==> {
            &&& place.said == reduced_path(base, path)
            &&& resolution matches Resolution::At(found) ==> place.real == Some(found@)
            &&& resolution is Absent ==> place.real is None
        },
{
}

proof fn lemma_entry_named(manifest: Seq<Entry>, name: Seq<char>)
    ensures
        match entry_named(manifest, name) {
            Some(entry) => exists|i: int|
                {
                    &&& 0 <= i < manifest.len()
                    &&& (#[trigger] manifest[i])@ == entry
                    &&& entry.name == name
                    &&& forall|k: int| 0 <= k < i ==> (#[trigger] manifest[k]).name@ != name
                },
            None => forall|i: int| 0 <= i < manifest.len() ==> (#[trigger] manifest[i]).name@ != name,
        },
    decreases manifest.len(),
{
    if manifest.len() > 0 {
        let rest = manifest.skip(1);
        lemma_entry_named(rest, name);
        if manifest[0].name@ == name {
            assert(manifest[0]@ == entry_named(manifest, name)->0);
        } else {
            match entry_named(manifest, name) {
                Some(entry) => {
                    let i = choose|i: int|
                        {
                            &&& 0 <= i < rest.len()
                            &&& (#[trigger] rest[i])@ == entry
                            &&& entry.name == name
                            &&& forall|k: int| 0 <= k < i ==> (#[trigger] rest[k]).name@ != name
                        };
                    assert(manifest[i + 1] == rest[i]);
                    assert forall|k: int| 0 <= k < i + 1 implies (#[trigger] manifest[k]).name@
                        != name by {
                        if k > 0 {
                            assert(rest[k - 1] == manifest[k]);
                        }
                    }
                },
                None => {
                    assert forall|i: int| 0 <= i < manifest.len() implies (
                    #[trigger] manifest[i]).name@ != name by {
                        if i > 0 {
                            assert(rest[i - 1] == manifest[i]);
                        }
                    }
                },
            }
        }
    }
}

/// A manifest entry is found by its name, the first of that name where there are several, and not found
/// exactly where none has it.
pub proof fn law_an_entry_is_found_by_its_name(manifest: Seq<Entry>, name: Seq<char>)
    ensures
        entry_named(manifest, name) is None <==> forall|i: int|
            0 <= i < manifest.len() ==> (#[trigger] manifest[i]).name@ != name,
        entry_named(manifest, name) matches Some(entry) ==> entry.name == name && exists|i: int|
            {
                &&& 0 <= i < manifest.len()
                &&& (#[trigger] manifest[i])@ == entry
                &&& forall|k: int| 0 <= k < i ==> (#[trigger] manifest[k]).name@ != name
            },
{
    lemma_entry_named(manifest, name);
    match entry_named(manifest, name) {
        Some(entry) => {
            let i = choose|i: int|
                {
                    &&& 0 <= i < manifest.len()
                    &&& (#[trigger] manifest[i])@ == entry
                    &&& entry.name == name
                    &&& forall|k: int| 0 <= k < i ==> (#[trigger] manifest[k]).name@ != name
                };
            assert(manifest[i].name@ == name);
        },
        None => {},
    }
}

proof fn lemma_forbidden(place: PlaceModel, list: Seq<Forbidden>)
    ensures
        match first_forbidden(place, list) {
            Some(verdict) => exists|i: int|
                {
                    &&& 0 <= i < list.len()
                    &&& place_within(place, (#[trigger] list[i]).place@) is Some
                    &&& forall|k: int|
                        0 <= k < i ==> place_within(place, (#[trigger] list[k]).place@) is None
                    &&& verdict == (VerdictModel::Excluded {
                        entry: list[i].entry@,
                        at: Some(list[i].place.said@),
                        reach: place_within(place, list[i].place@)->0,
                    })
                },
            None => forall|i: int|
                0 <= i < list.len() ==> place_within(place, (#[trigger] list[i]).place@) is None,
        },
    decreases list.len(),
{
    if list.len() > 0 {
        let rest = list.skip(1);
        lemma_forbidden(place, rest);
        if place_within(place, list[0].place@) is None {
            match first_forbidden(place, rest) {
                Some(verdict) => {
                    let i = choose|i: int|
                        {
                            &&& 0 <= i < rest.len()
                            &&& place_within(place, (#[trigger] rest[i]).place@) is Some
                            &&& forall|k: int|
                                0 <= k < i ==> place_within(place, (#[trigger] rest[k]).place@)
                                    is None
                            &&& verdict == (VerdictModel::Excluded {
                                entry: rest[i].entry@,
                                at: Some(rest[i].place.said@),
                                reach: place_within(place, rest[i].place@)->0,
                            })
                        };
                    assert(list[i + 1] == rest[i]);
                    assert forall|k: int| 0 <= k < i + 1 implies place_within(
                        place,
                        (#[trigger] list[k]).place@,
                    ) is None by {
                        if k > 0 {
                            assert(rest[k - 1] == list[k]);
                        }
                    }
                },
                None => {
                    assert forall|i: int| 0 <= i < list.len() implies place_within(
                        place,
                        (#[trigger] list[i]).place@,
                    ) is None by {
                        if i > 0 {
                            assert(rest[i - 1] == list[i]);
                        }
                    }
                },
            }
        } else {
            assert(place_within(place, list[0].place@) is Some);
        }
    }
}

/// What a guard decides about a path. One it cannot place is opaque, and says why. One within a
/// forbidden place is excluded by the first such place, and says how it was reached. Of the rest, one
/// that is not below the root is outside; one below it that is not there is opaque; and one that is
/// there is what the manifest says of the first name below the root, or unclassified where it says
/// nothing.
pub proof fn law_a_guard_decides_by_place(ground: Ground, candidate: Seq<u8>, resolution: Resolution)
    ensures
        ({
            let verdict = verdict_of(ground, candidate, resolution);
            let manifest = ground.manifest@;
            match place_of(ground.base@, candidate, resolution) {
                None => verdict matches VerdictModel::Opaque(why) && (resolution
                    matches Resolution::Refused(cause) ==> occurs(why, cause@)),
                Some(place) => if exists|i: int|
                    0 <= i < ground.forbidden@.len() && place_within(
                        place,
                        (#[trigger] ground.forbidden@[i]).place@,
                    ) is Some {
                    exists|i: int|
                        {
                            let forbidden = #[trigger] ground.forbidden@[i];
                            &&& 0 <= i < ground.forbidden@.len()
                            &&& forall|k: int|
                                0 <= k < i ==> place_within(
                                    place,
                                    (#[trigger] ground.forbidden@[k]).place@,
                                ) is None
                            &&& verdict == (VerdictModel::Excluded {
                                entry: forbidden.entry@,
                                at: Some(forbidden.place.said@),
                                reach: place_within(place, forbidden.place@)->0,
                            })
                        }
                } else {
                    match place_under(place, ground.root@) {
                        None => verdict is Outside,
                        Some(component) => {
                            let name = utf8_lossy(component);
                            &&& place.real is None ==> verdict is Opaque
                            &&& place.real is Some && entry_named(manifest, name) is None ==> verdict
                                == VerdictModel::Unclassified(name)
                            &&& place.real is Some ==> (entry_named(manifest, name) matches Some(entry)
                                ==> {
                                &&& entry.included ==> verdict == VerdictModel::Included(entry)
                                &&& !entry.included ==> (verdict matches VerdictModel::Excluded {
                                    entry: named,
                                    ..
                                } && named == entry)
                            })
                        },
                    }
                },
            }
        }),
{
    broadcast use group_says;
    match place_of(ground.base@, candidate, resolution) {
        None => {},
        Some(place) => {
            lemma_forbidden(place, ground.forbidden@);
        },
    }
}

/// What is below the root is known by the first name below it, by identity where both resolve and by
/// spelling otherwise.
pub proof fn law_what_is_below_is_known_by_its_first_name(place: PlaceModel, root: PlaceModel)
    ensures
        place.real is Some && root.real is Some && first_below(root.real->0, place.real->0) is Some
            ==> place_under(place, root) == first_below(root.real->0, place.real->0),
        !(place.real is Some && root.real is Some && first_below(root.real->0, place.real->0)
            is Some) ==> place_under(place, root) == first_below(root.said, place.said),
{
}

/// A guard exits with the worst it found: rejected where anything is excluded or a forbidden place
/// stands in the work tree; otherwise failed where anything is opaque; otherwise degraded where anything
/// is unclassified; and done where everything is safe.
pub proof fn law_a_guard_exits_with_the_worst(findings: Seq<FindingModel>, standing: nat)
    ensures
        ({
            let excluded = exists|i: int|
                0 <= i < findings.len() && (#[trigger] findings[i]).verdict is Excluded;
            let opaque = exists|i: int|
                0 <= i < findings.len() && (#[trigger] findings[i]).verdict is Opaque;
            let unclassified = exists|i: int|
                0 <= i < findings.len() && (#[trigger] findings[i]).verdict is Unclassified;
            guard_exit(findings, standing) == (if standing > 0 || excluded {
                Exit::Rejected
            } else if opaque {
                Exit::Failed
            } else if unclassified {
                Exit::Degraded
            } else {
                Exit::Done
            })
        }),
{
    lemma_worst_is(findings);
}

proof fn lemma_worst_is(findings: Seq<FindingModel>)
    ensures
        0 <= worst(findings) <= 3,
        forall|i: int|
            0 <= i < findings.len() ==> severity_of((#[trigger] findings[i]).verdict) <= worst(
                findings,
            ),
        worst(findings) > 0 ==> exists|i: int|
            0 <= i < findings.len() && severity_of((#[trigger] findings[i]).verdict) == worst(
                findings,
            ),
    decreases findings.len(),
{
    if findings.len() > 0 {
        let before = findings.drop_last();
        lemma_worst_is(before);
        assert forall|i: int| 0 <= i < findings.len() implies severity_of(
            (#[trigger] findings[i]).verdict,
        ) <= worst(findings) by {
            if i < before.len() {
                assert(before[i] == findings[i]);
            }
        }
        if worst(findings) > 0 {
            if worst(findings) == worst(before) {
                let i = choose|i: int|
                    0 <= i < before.len() && severity_of((#[trigger] before[i]).verdict) == worst(
                        before,
                    );
                assert(findings[i] == before[i]);
            } else {
                assert(severity_of(findings[findings.len() - 1].verdict) == worst(findings));
            }
        }
    }
}

/// Every candidate is judged, in order, each by its own path and what that resolves to; comparing
/// inodes keeps the paths and the order, and turns a verdict only where it was safe and its file is one
/// that a forbidden place holds.
pub proof fn law_every_candidate_is_judged(
    ground: Ground,
    candidates: Seq<Candidate>,
    ids: Seq<Option<FileId>>,
    inodes: Seq<Inode>,
)
    ensures
        findings_of(ground, candidates).len() == candidates.len(),
        relinked(findings_of(ground, candidates), ids, inodes).len() == candidates.len(),
        forall|i: int|
            0 <= i < candidates.len() ==> {
                let one = #[trigger] relinked(findings_of(ground, candidates), ids, inodes)[i];
                let verdict = verdict_of(ground, candidates[i].path@, candidates[i].resolution);
                let linked = i < ids.len() && ids[i] is Some && exists|k: int|
                    0 <= k < inodes.len() && (#[trigger] inodes[k]).id == ids[i]->0;
                &&& one.path == candidates[i].path@
                &&& (verdict is Outside || verdict is Included) && linked ==> (one.verdict
                    matches VerdictModel::Excluded { reach, .. } && reach is Inode)
                &&& !((verdict is Outside || verdict is Included) && linked) ==> one.verdict
                    == verdict
            },
{
    let all = relinked(findings_of(ground, candidates), ids, inodes);
    assert forall|i: int| 0 <= i < candidates.len() implies ({
        let one = #[trigger] all[i];
        let verdict = verdict_of(ground, candidates[i].path@, candidates[i].resolution);
        let linked = i < ids.len() && ids[i] is Some && exists|k: int|
            0 <= k < inodes.len() && (#[trigger] inodes[k]).id == ids[i]->0;
        &&& one.path == candidates[i].path@
        &&& (verdict is Outside || verdict is Included) && linked ==> (one.verdict
            matches VerdictModel::Excluded { reach, .. } && reach is Inode)
        &&& !((verdict is Outside || verdict is Included) && linked) ==> one.verdict == verdict
    }) by {
        if i < ids.len() && ids[i] is Some {
            lemma_inode(inodes, ids[i]->0);
        }
    }
}

proof fn lemma_inode(list: Seq<Inode>, id: FileId)
    ensures
        entry_of_inode(list, id) is Some <==> exists|k: int|
            0 <= k < list.len() && (#[trigger] list[k]).id == id,
    decreases list.len(),
{
    if list.len() > 0 {
        let rest = list.skip(1);
        lemma_inode(rest, id);
        if list[0].id == id {
            assert(list[0].id == id);
        } else {
            if entry_of_inode(rest, id) is Some {
                let k = choose|k: int| 0 <= k < rest.len() && (#[trigger] rest[k]).id == id;
                assert(list[k + 1] == rest[k]);
            }
            if exists|k: int| 0 <= k < list.len() && (#[trigger] list[k]).id == id {
                let k = choose|k: int| 0 <= k < list.len() && (#[trigger] list[k]).id == id;
                assert(rest[k - 1] == list[k]);
            }
        }
    }
}

/// A forbidden place stands in a work tree exactly where it is there and lies within the tree; each is
/// named by where it is and what it is, in the order the places are kept.
pub proof fn law_what_stands_in_the_tree_is_named(list: Seq<Forbidden>, tree: PlaceModel)
    ensures
        ({
            let inside = list.filter(
                |one: Forbidden| one.present && place_within(one.place@, tree) is Some,
            );
            let standing = standing_of(list, tree);
            &&& standing.len() == inside.len()
            &&& forall|i: int|
                0 <= i < standing.len() ==> (#[trigger] standing[i]).path == inside[i].place.said@
                    && standing[i].entry == inside[i].entry@
        }),
    decreases list.len(),
{
    reveal(Seq::filter);
    if list.len() > 0 {
        law_what_stands_in_the_tree_is_named(list.drop_last(), tree);
    }
}

/// Exactly one subject may be named.
pub proof fn law_one_subject_is_named(repo: bool, named: bool, print_hook: bool)
    ensures
        subjects_named(repo, named, print_hook) == 0 <==> !repo && !named && !print_hook,
        subjects_named(repo, named, print_hook) == 1 <==> (repo && !named && !print_hook) || (!repo
            && named && !print_hook) || (!repo && !named && print_hook),
        subjects_named(repo, named, print_hook) > 1 <==> (repo && named) || (repo && print_hook) || (
        named && print_hook),
{
}

/// Paths one after the other, each ended by a zero byte.
pub open spec fn ended_by_zero(paths: Seq<Seq<u8>>) -> Seq<u8>
    decreases paths.len(),
{
    if paths.len() == 0 {
        seq![]
    } else {
        paths[0].push(0) + ended_by_zero(paths.skip(1))
    }
}

/// The paths of an index are read back out of a listing that ends each with a zero byte, whatever else
/// they hold.
pub proof fn law_listed_paths_are_read_back(paths: Seq<Seq<u8>>)
    requires
        forall|i: int|
            0 <= i < paths.len() ==> (#[trigger] paths[i]).len() > 0 && !paths[i].contains(0),
    ensures
        listed_paths(ended_by_zero(paths)) == paths,
    decreases paths.len(),
{
    let out = ended_by_zero(paths);
    if paths.len() == 0 {
        assert(first_of(out, 0u8, 0) == 0);
        assert(out.take(0).len() == 0);
        assert(paths =~= seq![]);
    } else {
        let first = paths[0];
        let rest = paths.skip(1);
        assert forall|i: int| 0 <= i < rest.len() implies (#[trigger] rest[i]).len() > 0
            && !rest[i].contains(0) by {
            assert(rest[i] == paths[i + 1]);
        }
        law_listed_paths_are_read_back(rest);
        lemma_first_of(out, 0u8, 0);
        let at = first_of(out, 0u8, 0);
        assert(out[first.len() as int] == 0);
        if at < first.len() {
            assert(out[at] == first[at]);
            assert(first.contains(0));
        }
        assert(out.take(at) =~= first);
        assert(out.skip(at + 1) =~= ended_by_zero(rest));
        assert(seq![first] + rest =~= paths);
    }
}

proof fn lemma_refusals(list: Seq<FindingModel>, i: int)
    requires
        0 <= i < list.len(),
    ensures
        occurs(all_refusals_text(list), refusal_text(list[i])),
    decreases list.len(),
{
    broadcast use group_says;
    if i < list.len() - 1 {
        lemma_refusals(list.drop_last(), i);
        assert(list.drop_last()[i] == list[i]);
    }
}

proof fn lemma_standing(list: Seq<StandingModel>, i: int)
    requires
        0 <= i < list.len(),
    ensures
        occurs(all_standing_text(list), standing_text(list[i])),
    decreases list.len(),
{
    broadcast use group_says;
    if i < list.len() - 1 {
        lemma_standing(list.drop_last(), i);
        assert(list.drop_last()[i] == list[i]);
    }
}

/// A guard says in its first line whether it is safe to commit; it names every path it refuses and
/// every forbidden place that stands in the tree, and says how many paths are safe. Its exit is what it
/// says.
pub proof fn law_a_guard_names_what_it_refuses(
    root: Seq<u8>,
    tree: Option<Seq<u8>>,
    findings: Seq<FindingModel>,
    standing: Seq<StandingModel>,
)
    ensures
        ({
            let out = guarded(root, tree, findings, standing);
            &&& out.outcome == Ok::<Exit, Fault>(guard_exit(findings, standing.len()))
            &&& guard_exit(findings, standing.len()) is Done ==> occurs(
                out.text,
                "guard-commit: safe to commit\n"@,
            )
            &&& !(guard_exit(findings, standing.len()) is Done) ==> occurs(
                out.text,
                "guard-commit: refused\n"@,
            )
            &&& guard_exit(findings, standing.len()) is Done ==> refused_note(
                guard_exit(findings, standing.len()),
            ).len() == 0
            &&& !(guard_exit(findings, standing.len()) is Done) ==> occurs(
                out.text,
                "nothing was committed. Take each refused path out of the index and try again:\n  git rm --cached -- <path>\n"@,
            )
            &&& occurs(
                out.text,
                decimal(safe_count(findings)) + " of "@ + decimal(findings.len())
                    + " path(s) are safe to commit\n"@,
            )
            &&& forall|i: int|
                0 <= i < findings.len() && !((#[trigger] findings[i]).verdict is Outside
                    || findings[i].verdict is Included) ==> occurs(
                    out.text,
                    "\n"@ + utf8_lossy(findings[i].path) + "\n"@,
                )
            &&& forall|i: int|
                0 <= i < standing.len() ==> occurs(
                    out.text,
                    "\n"@ + utf8_lossy((#[trigger] standing[i]).path)
                        + " is inside this work tree\n  manifest: `"@ + standing[i].entry.name,
                )
        }),
{
    broadcast use group_says;
    reveal_strlit("");
    lemma_worst_is(findings);
    let out = guarded(root, tree, findings, standing);
    let exit = guard_exit(findings, standing.len());
    assert(occurs(out.text, all_refusals_text(findings)));
    assert(occurs(out.text, all_standing_text(standing)));
    assert forall|i: int|
        0 <= i < findings.len() && !((#[trigger] findings[i]).verdict is Outside
            || findings[i].verdict is Included) implies occurs(
        out.text,
        "\n"@ + utf8_lossy(findings[i].path) + "\n"@,
    ) by {
        lemma_refusals(findings, i);
        let said = "\n"@ + utf8_lossy(findings[i].path) + "\n"@;
        assert(occurs(refusal_text(findings[i]), said));
        lemma_said_within(all_refusals_text(findings), refusal_text(findings[i]), said);
        lemma_said_within(out.text, all_refusals_text(findings), said);
    }
    assert forall|i: int| 0 <= i < standing.len() implies occurs(
        out.text,
        "\n"@ + utf8_lossy((#[trigger] standing[i]).path)
            + " is inside this work tree\n  manifest: `"@ + standing[i].entry.name,
    ) by {
        lemma_standing(standing, i);
        let said = "\n"@ + utf8_lossy(standing[i].path)
            + " is inside this work tree\n  manifest: `"@ + standing[i].entry.name;
        assert(occurs(standing_text(standing[i]), said));
        lemma_said_within(all_standing_text(standing), standing_text(standing[i]), said);
        lemma_said_within(out.text, all_standing_text(standing), said);
    }
}

/// A refusal says why: which entry excludes the path, where that is kept, how the path reaches it and
/// what the manifest says of it; the name that no manifest classifies; or what could not be told. What
/// is safe is not spoken of.
pub proof fn law_a_refusal_says_why(finding: FindingModel)
    ensures
        finding.verdict is Outside || finding.verdict is Included <==> refusal_text(finding).len()
            == 0,
        finding.verdict matches VerdictModel::Excluded { entry, at, reach } ==> {
            &&& occurs(refusal_text(finding), "  refused: it is `"@ + entry.name + "`\n"@)
            &&& occurs(refusal_text(finding), "\n  manifest: "@ + entry.reason + "\n"@)
            &&& occurs(refusal_text(finding), reach_text(reach))
            &&& at matches Some(path) ==> occurs(
                refusal_text(finding),
                "  which this deployment keeps at "@ + utf8_lossy(path) + "\n"@,
            )
        },
        finding.verdict matches VerdictModel::Unclassified(name) ==> occurs(
            refusal_text(finding),
            "  refused: `"@ + name,
        ),
        finding.verdict matches VerdictModel::Opaque(why) ==> occurs(
            refusal_text(finding),
            "  refused: "@ + why,
        ),
        occurs(reach_text(Reach::Spelling), "matched by its spelling"@),
        reach_text(Reach::Identity) != reach_text(Reach::Inode),
        reach_text(Reach::Identity)[11] == 'i' && reach_text(Reach::Identity)[12] == 'd',
        reach_text(Reach::Inode)[11] == 'i' && reach_text(Reach::Inode)[12] == 'n',
{
    broadcast use group_says;
    reveal_strlit("");
    reveal_strlit("\n");
    reveal_strlit(
        "matched by identity: it resolves there whatever it is spelled — a symlink, or an entry this deployment relocated",
    );
    reveal_strlit(
        "matched by inode: it is a hardlink to a file inside it, and shares that file's bytes for ever",
    );
    assert(reach_text(Reach::Identity)[12] == 'd');
    assert(reach_text(Reach::Inode)[12] == 'n');
}

/// How many of the findings are counted under a name: what is included under its entry, and what is
/// outside under one name of its own.
pub open spec fn found_under(findings: Seq<FindingModel>, name: Seq<char>) -> nat
    decreases findings.len(),
{
    if findings.len() == 0 {
        0
    } else {
        let one: nat = match findings.last().verdict {
            VerdictModel::Included(entry) => if entry.name == name {
                1
            } else {
                0
            },
            VerdictModel::Outside => if name == "(not store content)"@ {
                1
            } else {
                0
            },
            _ => 0,
        };
        found_under(findings.drop_last(), name) + one
    }
}

/// What a tally counts under a name.
pub open spec fn tallied_under(tally: Seq<TallyModel>, name: Seq<char>) -> nat
    decreases tally.len(),
{
    if tally.len() == 0 {
        0
    } else {
        tallied_under(tally.skip(1), name) + (if tally[0].name == name {
            tally[0].count
        } else {
            0
        })
    }
}

proof fn lemma_counted(tally: Seq<TallyModel>, name: Seq<char>, asked: Seq<char>)
    ensures
        tallied_under(counted(tally, name), asked) == tallied_under(tally, asked) + (if asked == name {
            1nat
        } else {
            0
        }),
    decreases tally.len(),
{
    let after = counted(tally, name);
    if tally.len() == 0 {
        reveal_with_fuel(tallied_under, 2);
        assert(after.skip(1).len() == 0);
    } else if tally[0].name == name {
        assert(after.skip(1) =~= tally.skip(1));
    } else if crate::text::ordered(tally[0].name, name) {
        lemma_counted(tally.skip(1), name, asked);
        assert(after.skip(1) =~= counted(tally.skip(1), name));
    } else {
        assert(after.skip(1) =~= tally);
    }
}

/// A tally counts every safe path under the name it is safe by, and nothing else.
pub proof fn law_a_tally_counts_each_name(findings: Seq<FindingModel>, name: Seq<char>)
    ensures
        tallied_under(tally_of(findings), name) == found_under(findings, name),
    decreases findings.len(),
{
    if findings.len() > 0 {
        law_a_tally_counts_each_name(findings.drop_last(), name);
        match tally_name(findings.last().verdict) {
            Some(called) => lemma_counted(tally_of(findings.drop_last()), called, name),
            None => {},
        }
    }
}

/// Whether a tally is in order of its names, none of them twice.
pub open spec fn is_in_order(tally: Seq<TallyModel>) -> bool {
    forall|i: int, j: int|
        0 <= i < j < tally.len() ==> (#[trigger] tally[i]).name != (#[trigger] tally[j]).name
            && ordered(tally[i].name, tally[j].name)
}

proof fn lemma_counted_in_order(tally: Seq<TallyModel>, name: Seq<char>)
    requires
        is_in_order(tally),
    ensures
        is_in_order(counted(tally, name)),
        forall|i: int|
            0 <= i < counted(tally, name).len() ==> (#[trigger] counted(tally, name)[i]).name == name
                || exists|k: int|
                0 <= k < tally.len() && (#[trigger] tally[k]).name == counted(tally, name)[i].name,
    decreases tally.len(),
{
    let after = counted(tally, name);
    if tally.len() > 0 {
        let rest = tally.skip(1);
        if tally[0].name == name {
            assert forall|i: int, j: int| 0 <= i < j < after.len() implies (#[trigger] after[i]).name
                != (#[trigger] after[j]).name && ordered(after[i].name, after[j].name) by {
                assert(after[j].name == tally[j].name);
                assert(after[i].name == tally[i].name);
            }
            assert forall|i: int| 0 <= i < after.len() implies (#[trigger] after[i]).name == name
                || exists|k: int| 0 <= k < tally.len() && (#[trigger] tally[k]).name
                == after[i].name by {
                assert(tally[i].name == after[i].name);
            }
        } else if ordered(tally[0].name, name) {
            assert(is_in_order(rest)) by {
                assert forall|i: int, j: int| 0 <= i < j < rest.len() implies (
                #[trigger] rest[i]).name != (#[trigger] rest[j]).name && ordered(
                    rest[i].name,
                    rest[j].name,
                ) by {
                    assert(rest[i] == tally[i + 1] && rest[j] == tally[j + 1]);
                }
            }
            lemma_counted_in_order(rest, name);
            let more = counted(rest, name);
            assert forall|i: int| 0 <= i < more.len() implies tally[0].name != (
            #[trigger] more[i]).name && ordered(tally[0].name, more[i].name) by {
                if more[i].name != name {
                    let k = choose|k: int|
                        0 <= k < rest.len() && (#[trigger] rest[k]).name == more[i].name;
                    assert(rest[k] == tally[k + 1]);
                    assert(tally[0].name != tally[k + 1].name);
                }
            }
            assert forall|i: int, j: int| 0 <= i < j < after.len() implies (#[trigger] after[i]).name
                != (#[trigger] after[j]).name && ordered(after[i].name, after[j].name) by {
                assert(after[j] == more[j - 1]);
                if i > 0 {
                    assert(after[i] == more[i - 1]);
                }
            }
            assert forall|i: int| 0 <= i < after.len() implies (#[trigger] after[i]).name == name
                || exists|k: int| 0 <= k < tally.len() && (#[trigger] tally[k]).name
                == after[i].name by {
                if i == 0 {
                    assert(tally[0].name == after[0].name);
                } else {
                    assert(after[i] == more[i - 1]);
                    if after[i].name != name {
                        let k = choose|k: int|
                            0 <= k < rest.len() && (#[trigger] rest[k]).name == more[i - 1].name;
                        assert(tally[k + 1] == rest[k]);
                    }
                }
            }
        } else {
            lemma_ordered_total(tally[0].name, name);
            assert forall|j: int| 0 <= j < tally.len() implies name != (#[trigger] tally[j]).name
                && ordered(name, tally[j].name) by {
                if j > 0 {
                    assert(ordered(tally[0].name, tally[j].name));
                    lemma_ordered_transitive(name, tally[0].name, tally[j].name);
                }
            }
            assert forall|i: int, j: int| 0 <= i < j < after.len() implies (#[trigger] after[i]).name
                != (#[trigger] after[j]).name && ordered(after[i].name, after[j].name) by {
                assert(after[j] == tally[j - 1]);
                if i > 0 {
                    assert(after[i] == tally[i - 1]);
                }
            }
            assert forall|i: int| 0 <= i < after.len() implies (#[trigger] after[i]).name == name
                || exists|k: int| 0 <= k < tally.len() && (#[trigger] tally[k]).name
                == after[i].name by {
                if i > 0 {
                    assert(tally[i - 1] == after[i]);
                }
            }
        }
    }
}

/// A tally lists its names in order, and none of them twice.
pub proof fn law_a_tally_is_in_order(findings: Seq<FindingModel>)
    ensures
        is_in_order(tally_of(findings)),
    decreases findings.len(),
{
    if findings.len() > 0 {
        law_a_tally_is_in_order(findings.drop_last());
        match tally_name(findings.last().verdict) {
            Some(name) => lemma_counted_in_order(tally_of(findings.drop_last()), name),
            None => {},
        }
    }
}

/// The ground a guard stands on is refused exactly where the filesystem would not place its root or one
/// of the places it excludes: a mistake in the configuration, and one that says the cause.
pub proof fn law_a_ground_is_refused_where_it_cannot_be_placed(
    root: Seq<u8>,
    resolution: Resolution,
    list: Seq<Excluded>,
)
    ensures
        ground_fault(root, resolution, list) is None <==> !(resolution is Refused) && forall|i: int|
            0 <= i < list.len() ==> !((#[trigger] list[i]).resolution is Refused),
        ground_fault(root, resolution, list) matches Some(fault) ==> fault.exit == Exit::Config,
        resolution matches Resolution::Refused(cause) ==> (ground_fault(root, resolution, list)
            matches Some(fault) && occurs(fault.text, cause@)),
        !(resolution is Refused) && list.len() > 0 ==> (list[0].resolution matches Resolution::Refused(
            cause,
        ) ==> (ground_fault(root, resolution, list) matches Some(fault) && occurs(
            fault.text,
            cause@,
        ) && occurs(fault.text, utf8_lossy(list[0].path@)))),
{
    broadcast use group_says;
    lemma_first_refused(list);
}

proof fn lemma_first_refused(list: Seq<Excluded>)
    ensures
        crate::cli::guard::first_excluded_fault(list) is None <==> forall|i: int|
            0 <= i < list.len() ==> !((#[trigger] list[i]).resolution is Refused),
        crate::cli::guard::first_excluded_fault(list) matches Some(fault) ==> fault.exit
            == Exit::Config,
    decreases list.len(),
{
    if list.len() > 0 {
        let rest = list.skip(1);
        lemma_first_refused(rest);
        if list[0].resolution is Refused {
            assert(list[0].resolution is Refused);
        } else if crate::cli::guard::first_excluded_fault(rest) is None {
            assert forall|i: int| 0 <= i < list.len() implies !(
            (#[trigger] list[i]).resolution is Refused) by {
                if i > 0 {
                    assert(rest[i - 1] == list[i]);
                }
            }
        } else {
            let i = choose|i: int| 0 <= i < rest.len() && (#[trigger] rest[i]).resolution is Refused;
            assert(list[i + 1] == rest[i]);
        }
    }
}

/// A guard counts as safe what is outside the store or included in it, and nothing else.
pub proof fn law_what_is_safe_is_counted(findings: Seq<FindingModel>)
    ensures
        safe_count(findings) == findings.filter(
            |one: FindingModel| one.verdict is Outside || one.verdict is Included,
        ).len(),
    decreases findings.len(),
{
    reveal(Seq::filter);
    if findings.len() > 0 {
        law_what_is_safe_is_counted(findings.drop_last());
    }
}

proof fn lemma_tally_text(tally: Seq<TallyModel>, i: int)
    requires
        0 <= i < tally.len(),
    ensures
        occurs(tally_text(tally), row(tally[i].name, tally[i].count)),
    decreases tally.len(),
{
    broadcast use group_says;
    if i < tally.len() - 1 {
        lemma_tally_text(tally.drop_last(), i);
        assert(tally.drop_last()[i] == tally[i]);
    }
}

/// A guard prints its store, its work tree where there is one, and a row for every name of its tally.
pub proof fn law_a_guard_prints_its_tally(
    root: Seq<u8>,
    tree: Option<Seq<u8>>,
    findings: Seq<FindingModel>,
    standing: Seq<StandingModel>,
)
    ensures
        ({
            let text = guarded(root, tree, findings, standing).text;
            let tally = tally_of(findings);
            &&& occurs(text, "store  "@ + utf8_lossy(root) + "\n"@)
            &&& tree matches Some(tree) ==> occurs(text, "repo   "@ + utf8_lossy(tree) + "\n"@)
            &&& forall|i: int|
                0 <= i < tally.len() ==> occurs(
                    text,
                    row((#[trigger] tally[i]).name, tally[i].count),
                )
        }),
{
    broadcast use group_says;
    let text = guarded(root, tree, findings, standing).text;
    let tally = tally_of(findings);
    assert(occurs(text, tally_text(tally)));
    assert forall|i: int| 0 <= i < tally.len() implies occurs(
        text,
        row((#[trigger] tally[i]).name, tally[i].count),
    ) by {
        lemma_tally_text(tally, i);
        lemma_said_within(text, tally_text(tally), row(tally[i].name, tally[i].count));
    }
}

/// What a commit is told, from end to end: a forbidden place that stands in its work tree rejects it
/// whatever it holds, a path within a forbidden place rejects it wherever it stands, and a commit with
/// neither, all of whose paths are safe and none of which is a hardlink into one, is done.
pub proof fn law_a_commit_is_judged_end_to_end(
    ground: Ground,
    root: Seq<u8>,
    tree: Option<Place>,
    candidates: Seq<Candidate>,
    ids: Seq<Option<FileId>>,
    inodes: Seq<Inode>,
)
    ensures
        ({
            let out = guarded(
                root,
                tree_path(tree),
                relinked(findings_of(ground, candidates), ids, inodes),
                standing_in(ground, tree),
            );
            let stands = tree matches Some(tree) && exists|i: int|
                0 <= i < ground.forbidden@.len() && (#[trigger] ground.forbidden@[i]).present
                    && place_within(ground.forbidden@[i].place@, tree@) is Some;
            let refuses = exists|i: int|
                0 <= i < candidates.len() && verdict_of(
                    ground,
                    (#[trigger] candidates[i]).path@,
                    candidates[i].resolution,
                ) is Excluded;
            let safe = forall|i: int|
                0 <= i < candidates.len() ==> {
                    let verdict = verdict_of(
                        ground,
                        (#[trigger] candidates[i]).path@,
                        candidates[i].resolution,
                    );
                    verdict is Outside || verdict is Included
                };
            &&& stands ==> out.outcome == Ok::<Exit, Fault>(Exit::Rejected)
            &&& refuses ==> out.outcome == Ok::<Exit, Fault>(Exit::Rejected)
            &&& !stands && safe && inodes.len() == 0 ==> out.outcome == Ok::<Exit, Fault>(Exit::Done)
            &&& tree is None ==> standing_in(ground, tree).len() == 0
            &&& tree matches Some(tree) ==> occurs(
                out.text,
                "repo   "@ + utf8_lossy(tree.said@) + "\n"@,
            )
        }),
{
    let findings = relinked(findings_of(ground, candidates), ids, inodes);
    let standing = standing_in(ground, tree);
    law_every_candidate_is_judged(ground, candidates, ids, inodes);
    law_a_guard_exits_with_the_worst(findings, standing.len());
    law_a_guard_prints_its_tally(root, tree_path(tree), findings, standing);
    match tree {
        Some(place) => {
            lemma_stands(ground.forbidden@, place@);
        },
        None => {},
    }
    if exists|i: int|
        0 <= i < candidates.len() && verdict_of(
            ground,
            (#[trigger] candidates[i]).path@,
            candidates[i].resolution,
        ) is Excluded {
        let i = choose|i: int|
            0 <= i < candidates.len() && verdict_of(
                ground,
                (#[trigger] candidates[i]).path@,
                candidates[i].resolution,
            ) is Excluded;
        assert(findings[i].verdict is Excluded);
    }
    if inodes.len() == 0 {
        assert forall|i: int| 0 <= i < candidates.len() implies (#[trigger] findings[i]).verdict
            == verdict_of(ground, candidates[i].path@, candidates[i].resolution) by {}
    }
}

proof fn lemma_stands(list: Seq<Forbidden>, tree: PlaceModel)
    ensures
        standing_of(list, tree).len() > 0 <==> exists|i: int|
            0 <= i < list.len() && (#[trigger] list[i]).present && place_within(
                list[i].place@,
                tree,
            ) is Some,
    decreases list.len(),
{
    if list.len() > 0 {
        let before = list.drop_last();
        lemma_stands(before, tree);
        let last = list.last();
        assert(list[list.len() - 1] == last);
        if standing_of(before, tree).len() > 0 {
            let i = choose|i: int|
                0 <= i < before.len() && (#[trigger] before[i]).present && place_within(
                    before[i].place@,
                    tree,
                ) is Some;
            assert(list[i] == before[i]);
        }
        if exists|i: int|
            0 <= i < list.len() && (#[trigger] list[i]).present && place_within(list[i].place@, tree)
                is Some {
            let i = choose|i: int|
                0 <= i < list.len() && (#[trigger] list[i]).present && place_within(
                    list[i].place@,
                    tree,
                ) is Some;
            if i < before.len() {
                assert(before[i] == list[i]);
            }
        }
    }
}

/// A place is forbidden where the deployment keeps it, under the entry that excludes it, and is known to
/// be there exactly where it was.
pub proof fn law_a_forbidden_place_is_the_excluded_one(
    base: Seq<u8>,
    excluded: Excluded,
    forbidden: Forbidden,
)
    requires
        placed_as(base, excluded, forbidden),
    ensures
        forbidden.place@.said == reduced_path(base, excluded.path@),
        forbidden.entry@ == excluded.entry@,
        forbidden.present == excluded.present,
        excluded.resolution matches Resolution::At(found) ==> forbidden.place@.real == Some(found@),
        excluded.resolution is Absent ==> forbidden.place@.real is None,
        !(excluded.resolution is Refused),
{
}

} // verus!
