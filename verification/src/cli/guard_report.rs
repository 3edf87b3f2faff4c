//! What a guard found, path by path, and what it says and exits with.

use vstd::prelude::*;
use vstd::string::*;

use crate::cli::error::{attempted, failed, failed_fault, Error, Fault};
use crate::cli::exit::{succeeds, Exit};
use crate::cli::guard::{
    place_within, reach_text, severity_of, verdict_of, Entry, EntryModel, Forbidden, Ground, Place,
    PlaceModel, Reach, Resolution, Verdict, VerdictModel, OUTSIDE,
};
use crate::cli::report::{line, row, Report, ReportModel};
use crate::path::{lossy_text, utf8_lossy, OsPath};
use crate::text::{copied, decimal, decimal_text, is_ordered, ordered, same, trim, trimmed};

verus! {

// ---------------------------------------------------------------------------------------------
// What git says

/// The pieces between the zero bytes of a listing that are not empty, in order.
pub open spec fn listed_paths(out: Seq<u8>) -> Seq<Seq<u8>>
    decreases out.len(),
{
    let at = crate::text::first_of(out, 0u8, 0);
    let piece = out.take(at);
    let rest = if 0 <= at < out.len() {
        listed_paths(out.skip(at + 1))
    } else {
        seq![]
    };
    if piece.len() > 0 {
        seq![piece] + rest
    } else {
        rest
    }
}

/// Every path in a repository's index, out of the zero-separated listing git gives of it.
///
/// Separated by zero bytes, because a path is bytes and a newline is a legal one.
pub fn indexed(out: &Vec<u8>) -> (paths: Vec<OsPath>)
    ensures
        crate::cli::guard::path_bytes(paths@) == listed_paths(out@),
{
    let mut paths: Vec<OsPath> = Vec::new();
    let mut start: usize = 0;
    assert(out@.skip(0) =~= out@);
    assert(crate::cli::guard::path_bytes(paths@) + listed_paths(out@) =~= listed_paths(out@));
    loop
        invariant_except_break
            start <= out@.len(),
            crate::cli::guard::path_bytes(paths@) + listed_paths(out@.skip(start as int))
                == listed_paths(out@),
        ensures
            crate::cli::guard::path_bytes(paths@) == listed_paths(out@),
        decreases out@.len() - start,
    {
        let ghost rest = out@.skip(start as int);
        let ghost before = paths@;
        let mut end: usize = start;
        let mut piece: Vec<u8> = Vec::new();
        while end < out.len() && out[end] != 0
            invariant
                start <= end <= out@.len(),
                rest == out@.skip(start as int),
                piece@ =~= out@.subrange(start as int, end as int),
                crate::text::first_of(rest, 0u8, 0) == crate::text::first_of(
                    rest,
                    0u8,
                    end - start,
                ),
            decreases out@.len() - end,
        {
            assert(rest[end - start] == out@[end as int]);
            piece.push(out[end]);
            end += 1;
        }
        proof {
            if end < out@.len() {
                assert(rest[end - start] == out@[end as int]);
                assert(rest.skip(end - start + 1) =~= out@.skip(end + 1));
            }
            assert(crate::text::first_of(rest, 0u8, 0) == end - start);
            assert(rest.take(end - start) =~= piece@);
        }
        let ghost named = piece@;
        let ghost tail: Seq<Seq<u8>> = if end < out@.len() {
            listed_paths(out@.skip(end + 1))
        } else {
            seq![]
        };
        if piece.len() > 0 {
            paths.push(OsPath { bytes: piece });
            assert(crate::cli::guard::path_bytes(paths@) =~= crate::cli::guard::path_bytes(
                before,
            ).push(named));
            assert(listed_paths(rest) == seq![named] + tail);
            assert(crate::cli::guard::path_bytes(paths@) + tail =~= crate::cli::guard::path_bytes(
                before,
            ) + listed_paths(rest));
        } else {
            assert(listed_paths(rest) == tail);
        }
        if end == out.len() {
            assert(crate::cli::guard::path_bytes(paths@) + tail
                =~= crate::cli::guard::path_bytes(paths@));
            break;
        }
        start = end + 1;
    }
    paths
}

/// The top level of a repository's work tree, out of what git printed of it.
pub fn work_tree(out: &Vec<u8>, repo: &OsPath) -> (top: Result<String, Error>)
    ensures
        match top {
            Ok(text) => text@ == trim(utf8_lossy(out@)) && text@.len() > 0,
            Err(error) => trim(utf8_lossy(out@)).len() == 0 && error@ == failed_fault(
                attempted(
                    "finding the work tree"@,
                    "`"@ + utf8_lossy(repo@) + "` has no work tree"@,
                ),
            ),
        },
{
    let top = trimmed(lossy_text(out.as_slice()).as_str());
    if top.as_str().is_empty() {
        let cause = String::from_str("`").concat(repo.display().as_str()).concat(
            "` has no work tree",
        );
        return Err(failed("finding the work tree", cause.as_str()));
    }
    Ok(top)
}

/// What a git that ran and failed means: the guard has no list of paths, which is the one thing it
/// must never read as an empty one.
pub fn git_failed(doing: &str, said: &Vec<u8>) -> (error: Error)
    ensures
        error@ == failed_fault(attempted(doing@, trim(utf8_lossy(said@)))),
{
    failed(doing, trimmed(lossy_text(said.as_slice()).as_str()).as_str())
}

// ---------------------------------------------------------------------------------------------
// Findings

/// What the guard decided about one path it was given.
#[derive(Debug)]
pub struct Finding {
    /// The path, as it was given.
    pub path: OsPath,
    /// What was decided.
    pub verdict: Verdict,
}

/// A finding as a contract speaks of it.
pub struct FindingModel {
    /// The path.
    pub path: Seq<u8>,
    /// What was decided.
    pub verdict: VerdictModel,
}

impl View for Finding {
    type V = FindingModel;

    open spec fn view(&self) -> FindingModel {
        FindingModel { path: self.path@, verdict: self.verdict@ }
    }
}

/// An excluded entry that exists inside the work tree.
#[derive(Debug)]
pub struct Standing {
    /// Where it is.
    pub path: OsPath,
    /// The manifest entry that says why it may not be there.
    pub entry: Entry,
}

/// A standing entry as a contract speaks of it.
pub struct StandingModel {
    /// Where it is.
    pub path: Seq<u8>,
    /// The manifest entry.
    pub entry: EntryModel,
}

impl View for Standing {
    type V = StandingModel;

    open spec fn view(&self) -> StandingModel {
        StandingModel { path: self.path@, entry: self.entry@ }
    }
}

/// What the guard found, path by path.
#[derive(Debug)]
pub struct GuardReport {
    /// One verdict per path examined, in the order they were given.
    pub findings: Vec<Finding>,
    /// Excluded entries that exist inside the work tree, whatever is staged.
    pub standing: Vec<Standing>,
    /// The top of the work tree, when there was one.
    pub tree: Option<OsPath>,
}

/// The findings of a list.
pub open spec fn finding_models(list: Seq<Finding>) -> Seq<FindingModel> {
    list.map_values(|finding: Finding| finding@)
}

/// The standing entries of a list.
pub open spec fn standing_models(list: Seq<Standing>) -> Seq<StandingModel> {
    list.map_values(|standing: Standing| standing@)
}

/// A path to decide about, and what the filesystem makes of it.
#[derive(Debug)]
pub struct Candidate {
    /// The path.
    pub path: OsPath,
    /// What the filesystem makes of its reduced spelling.
    pub resolution: Resolution,
}

/// The forbidden places that are there and inside a work tree, in the order they are declared.
pub open spec fn standing_of(list: Seq<Forbidden>, tree: PlaceModel) -> Seq<StandingModel>
    decreases list.len(),
{
    if list.len() == 0 {
        seq![]
    } else {
        let before = standing_of(list.drop_last(), tree);
        let last = list.last();
        if last.present && place_within(last.place@, tree) is Some {
            before.push(StandingModel { path: last.place.said@, entry: last.entry@ })
        } else {
            before
        }
    }
}

/// The findings a ground makes of some candidates.
pub open spec fn findings_of(ground: Ground, candidates: Seq<Candidate>) -> Seq<FindingModel> {
    candidates.map_values(
        |one: Candidate|
            FindingModel {
                path: one.path@,
                verdict: verdict_of(ground, one.path@, one.resolution),
            },
    )
}

impl Ground {
    /// Excluded entries that exist inside the work tree, whatever is staged today.
    ///
    /// The check that does not wait for the mistake. Gated on existence, because the layout this
    /// protects keeps a backup under version control, and a backup's `keystore/` is a name with
    /// nothing behind it.
    pub fn standing(&self, tree: &Place) -> (standing: Vec<Standing>)
        ensures
            standing_models(standing@) == standing_of(self.forbidden@, tree@),
    {
        let mut standing: Vec<Standing> = Vec::new();
        let mut i: usize = 0;
        assert(standing_models(standing@) =~= seq![]);
        while i < self.forbidden.len()
            invariant
                i <= self.forbidden@.len(),
                standing_models(standing@) == standing_of(self.forbidden@.take(i as int), tree@),
            decreases self.forbidden@.len() - i,
        {
            let ghost before = standing@;
            proof {
                assert(self.forbidden@.take(i + 1).drop_last() =~= self.forbidden@.take(i as int));
                assert(self.forbidden@.take(i + 1).last() == self.forbidden@[i as int]);
            }
            let one = &self.forbidden[i];
            if one.present && one.place.within(tree).is_some() {
                let found = Standing { path: one.place.said.copied(), entry: one.entry.copied() };
                standing.push(found);
                assert(standing_models(standing@) =~= standing_models(before).push(found@));
            }
            i += 1;
        }
        assert(self.forbidden@.take(self.forbidden@.len() as int) =~= self.forbidden@);
        standing
    }

    /// Decides about every candidate, and notes what is standing in the work tree.
    pub fn examine(&self, tree: &Option<Place>, candidates: &Vec<Candidate>) -> (report:
        GuardReport)
        ensures
            finding_models(report.findings@) == findings_of(*self, candidates@),
            match *tree {
                Some(tree) => {
                    &&& standing_models(report.standing@) == standing_of(self.forbidden@, tree@)
                    &&& report.tree matches Some(path) && path@ == tree.said@
                },
                None => report.standing@.len() == 0 && report.tree is None,
            },
    {
        let mut findings: Vec<Finding> = Vec::new();
        let mut i: usize = 0;
        while i < candidates.len()
            invariant
                i <= candidates@.len(),
                finding_models(findings@) =~= findings_of(*self, candidates@).take(i as int),
            decreases candidates@.len() - i,
        {
            let ghost before = findings@;
            let one = &candidates[i];
            let verdict = self.classify(&one.path, &one.resolution);
            let found = Finding { path: one.path.copied(), verdict };
            findings.push(found);
            assert(finding_models(findings@) =~= finding_models(before).push(found@));
            assert(findings_of(*self, candidates@)[i as int] == found@);
            i += 1;
        }
        assert(findings_of(*self, candidates@).take(candidates@.len() as int) =~= findings_of(
            *self,
            candidates@,
        ));
        match tree {
            Some(tree) => GuardReport {
                findings,
                standing: self.standing(tree),
                tree: Some(tree.said.copied()),
            },
            None => GuardReport { findings, standing: Vec::new(), tree: None },
        }
    }
}

// ---------------------------------------------------------------------------------------------
// Hardlinks

/// A file's identity, whatever it is called.
#[derive(Debug, Clone, Copy, PartialEq, Eq, Structural)]
pub struct FileId {
    /// The device it is on.
    pub device: u64,
    /// Its inode there.
    pub inode: u64,
}

/// A file inside an excluded entry.
#[derive(Debug)]
pub struct Inode {
    /// Its identity.
    pub id: FileId,
    /// The entry it is inside.
    pub entry: Entry,
}

/// The entry of the first file with an identity, if one has it.
pub open spec fn entry_of_inode(list: Seq<Inode>, id: FileId) -> Option<EntryModel>
    decreases list.len(),
{
    if list.len() == 0 {
        None
    } else if list[0].id == id {
        Some(list[0].entry@)
    } else {
        entry_of_inode(list.skip(1), id)
    }
}

/// What the identity of a multiply linked file does to the standing of its path: a safe path that is
/// a forbidden file under another name is refused, and everything else stands.
pub open spec fn linked_verdict(verdict: VerdictModel, id: Option<FileId>, inodes: Seq<Inode>) ->
    VerdictModel {
    if severity_of(verdict) == 0 && id is Some && entry_of_inode(inodes, id->0) is Some {
        VerdictModel::Excluded {
            entry: entry_of_inode(inodes, id->0)->0,
            at: None,
            reach: Reach::Inode,
        }
    } else {
        verdict
    }
}

/// The identity noted for the `i`th finding, if one was.
pub open spec fn id_at(ids: Seq<Option<FileId>>, i: int) -> Option<FileId> {
    if 0 <= i < ids.len() {
        ids[i]
    } else {
        None
    }
}

fn find_inode(list: &Vec<Inode>, id: FileId) -> (entry: Option<Entry>)
    ensures
        match (entry, entry_of_inode(list@, id)) {
            (Some(entry), Some(model)) => entry@ == model,
            (None, None) => true,
            _ => false,
        },
{
    let mut i: usize = 0;
    assert(list@.skip(0) =~= list@);
    while i < list.len()
        invariant
            i <= list@.len(),
            entry_of_inode(list@, id) == entry_of_inode(list@.skip(i as int), id),
        decreases list@.len() - i,
    {
        assert(list@.skip(i as int)[0] == list@[i as int]);
        assert(list@.skip(i as int).skip(1) =~= list@.skip(i + 1));
        if list[i].id == id {
            return Some(list[i].entry.copied());
        }
        i += 1;
    }
    None
}

/// The findings that are safe so far, once the identities of those that are files under several
/// names have been compared with the forbidden ones.
pub open spec fn relinked(
    findings: Seq<FindingModel>,
    ids: Seq<Option<FileId>>,
    inodes: Seq<Inode>,
) -> Seq<FindingModel> {
    Seq::new(
        findings.len(),
        |i: int|
            FindingModel {
                path: findings[i].path,
                verdict: linked_verdict(findings[i].verdict, id_at(ids, i), inodes),
            },
    )
}

impl GuardReport {
    /// Whether some path that is safe so far is a file under several names, which is the only case
    /// in which the excluded trees have to be walked.
    pub fn suspects(&self, ids: &Vec<Option<FileId>>) -> (any: bool)
        ensures
            any == (exists|i: int|
                0 <= i < self.findings@.len() && severity_of(
                    (#[trigger] self.findings@[i]).verdict@,
                ) == 0 && id_at(ids@, i) is Some),
    {
        let mut i: usize = 0;
        while i < self.findings.len()
            invariant
                i <= self.findings@.len(),
                forall|k: int|
                    0 <= k < i ==> !(severity_of((#[trigger] self.findings@[k]).verdict@) == 0
                        && id_at(ids@, k) is Some),
            decreases self.findings@.len() - i,
        {
            if self.findings[i].verdict.severity() == 0 && i < ids.len() && ids[i].is_some() {
                assert(severity_of(self.findings@[i as int].verdict@) == 0);
                return true;
            }
            i += 1;
        }
        false
    }

    /// Refuses any candidate that is a hardlink to a file inside an excluded entry.
    ///
    /// A hardlink has no path of its own to read, so both readings see an ordinary file. What it
    /// shares with the original is inode identity. `ids` holds the identity of each candidate that
    /// is a file under more than one name, in the order of the findings.
    pub fn refuse_hardlinks(&mut self, ids: &Vec<Option<FileId>>, inodes: &Vec<Inode>)
        ensures
            finding_models(final(self).findings@) == relinked(
                finding_models(old(self).findings@),
                ids@,
                inodes@,
            ),
            final(self).standing == old(self).standing,
            final(self).tree == old(self).tree,
    {
        let ghost before = self.findings@;
        let ghost all = relinked(finding_models(before), ids@, inodes@);
        let mut i: usize = 0;
        while i < self.findings.len()
            invariant
                i <= self.findings@.len(),
                self.findings@.len() == before.len(),
                before == old(self).findings@,
                self.standing == old(self).standing,
                self.tree == old(self).tree,
                all == relinked(finding_models(before), ids@, inodes@),
                forall|k: int| 0 <= k < i ==> (#[trigger] self.findings@[k])@ == all[k],
                forall|k: int| i <= k < before.len() ==> #[trigger] self.findings@[k] == before[k],
            decreases self.findings@.len() - i,
        {
            assert(self.findings@[i as int] == before[i as int]);
            if self.findings[i].verdict.severity() == 0 && i < ids.len() {
                if let Some(id) = ids[i] {
                    if let Some(entry) = find_inode(inodes, id) {
                        let path = self.findings[i].path.copied();
                        self.findings.set(
                            i,
                            Finding {
                                path,
                                verdict: Verdict::Excluded { entry, at: None, reach: Reach::Inode },
                            },
                        );
                    }
                }
            }
            assert(self.findings@[i as int]@ == all[i as int]);
            i += 1;
        }
        assert(finding_models(self.findings@) =~= all);
    }
}

// ---------------------------------------------------------------------------------------------
// The outcome

/// The worst severity among some findings.
pub open spec fn worst(findings: Seq<FindingModel>) -> int
    decreases findings.len(),
{
    if findings.len() == 0 {
        0
    } else {
        let before = worst(findings.drop_last());
        let last = severity_of(findings.last().verdict);
        if last > before {
            last
        } else {
            before
        }
    }
}

/// The exit of a severity.
pub open spec fn severity_exit(severity: int) -> Exit {
    if severity == 0 {
        Exit::Done
    } else if severity == 1 {
        Exit::Degraded
    } else if severity == 2 {
        Exit::Failed
    } else {
        Exit::Rejected
    }
}

/// The worst outcome in a report: what is standing in the work tree refuses it whatever was staged.
pub open spec fn guard_exit(findings: Seq<FindingModel>, standing: nat) -> Exit {
    if standing > 0 {
        Exit::Rejected
    } else {
        severity_exit(worst(findings))
    }
}

impl GuardReport {
    /// The worst outcome in the report.
    pub fn exit(&self) -> (exit: Exit)
        ensures
            exit == guard_exit(finding_models(self.findings@), self.standing@.len()),
    {
        if self.standing.len() > 0 {
            return Exit::Rejected;
        }
        let mut most: u8 = 0;
        let mut i: usize = 0;
        while i < self.findings.len()
            invariant
                i <= self.findings@.len(),
                most == worst(finding_models(self.findings@).take(i as int)),
            decreases self.findings@.len() - i,
        {
            proof {
                let all = finding_models(self.findings@);
                assert(all.take(i + 1).drop_last() =~= all.take(i as int));
                assert(all.take(i + 1).last() == self.findings@[i as int]@);
            }
            let severity: u8 = self.findings[i].verdict.severity();
            if severity > most {
                most = severity;
            }
            i += 1;
        }
        assert(finding_models(self.findings@).take(self.findings@.len() as int)
            =~= finding_models(self.findings@));
        if most == 0 {
            Exit::Done
        } else if most == 1 {
            Exit::Degraded
        } else if most == 2 {
            Exit::Failed
        } else {
            Exit::Rejected
        }
    }
}

// ---------------------------------------------------------------------------------------------
// The text

/// What is said of one entry standing in the work tree.
pub open spec fn standing_text(standing: StandingModel) -> Seq<char> {
    "\n"@ + utf8_lossy(standing.path) + " is inside this work tree\n  manifest: `"@
        + standing.entry.name + "` — "@ + standing.entry.reason
        + "\n  an ignore rule is not a mechanism here: `git add -f` overrides one, and a rule written today does not remove what was committed yesterday. Move it out of the work tree\n"@
}

/// What is said of everything standing in the work tree.
pub open spec fn all_standing_text(list: Seq<StandingModel>) -> Seq<char>
    decreases list.len(),
{
    if list.len() == 0 {
        seq![]
    } else {
        all_standing_text(list.drop_last()) + standing_text(list.last())
    }
}

/// Why one verdict refuses, or nothing where it does not.
pub open spec fn refusal_reason(verdict: VerdictModel) -> Seq<char> {
    match verdict {
        VerdictModel::Outside => ""@,
        VerdictModel::Included(_) => ""@,
        VerdictModel::Excluded { entry, at, reach } => "  refused: it is `"@ + entry.name + "`\n"@
            + (match at {
            Some(path) => "  which this deployment keeps at "@ + utf8_lossy(path) + "\n"@,
            None => ""@,
        }) + "  "@ + reach_text(reach) + "\n  manifest: "@ + entry.reason + "\n"@,
        VerdictModel::Unclassified(name) => "  refused: `"@ + name
            + "` sits under the memory root and no manifest entry classifies it. Either it belongs in the manifest or it belongs outside the store — a keyring or an unsealing key parked there is exactly what a check that guessed would wave through\n"@,
        VerdictModel::Opaque(why) => "  refused: "@ + why
            + ". A guard that cannot say what a path is does not allow it\n"@,
    }
}

/// One paragraph about a refused path, or nothing about a safe one.
pub open spec fn refusal_text(finding: FindingModel) -> Seq<char> {
    if severity_of(finding.verdict) == 0 {
        ""@
    } else {
        "\n"@ + utf8_lossy(finding.path) + "\n"@ + refusal_reason(finding.verdict)
    }
}

/// One paragraph per refused path.
pub open spec fn all_refusals_text(list: Seq<FindingModel>) -> Seq<char>
    decreases list.len(),
{
    if list.len() == 0 {
        seq![]
    } else {
        all_refusals_text(list.drop_last()) + refusal_text(list.last())
    }
}

/// The name a safe path is tallied under: the manifest entry it is in, or none.
pub open spec fn tally_name(verdict: VerdictModel) -> Option<Seq<char>> {
    match verdict {
        VerdictModel::Included(entry) => Some(entry.name),
        VerdictModel::Outside => Some(OUTSIDE@),
        _ => None,
    }
}

/// One name and how many paths fell under it.
pub struct TallyModel {
    /// The name.
    pub name: Seq<char>,
    /// How many.
    pub count: nat,
}

/// A tally with one more path under `name`, kept in the order of the names.
pub open spec fn counted(tally: Seq<TallyModel>, name: Seq<char>) -> Seq<TallyModel>
    decreases tally.len(),
{
    if tally.len() == 0 {
        seq![TallyModel { name, count: 1 }]
    } else if tally[0].name == name {
        seq![TallyModel { name, count: tally[0].count + 1 }] + tally.skip(1)
    } else if ordered(tally[0].name, name) {
        seq![tally[0]] + counted(tally.skip(1), name)
    } else {
        seq![TallyModel { name, count: 1 }] + tally
    }
}

/// The tally of the safe paths among some findings.
pub open spec fn tally_of(list: Seq<FindingModel>) -> Seq<TallyModel>
    decreases list.len(),
{
    if list.len() == 0 {
        seq![]
    } else {
        let before = tally_of(list.drop_last());
        match tally_name(list.last().verdict) {
            Some(name) => counted(before, name),
            None => before,
        }
    }
}

/// How many of some findings are safe.
pub open spec fn safe_count(list: Seq<FindingModel>) -> nat
    decreases list.len(),
{
    if list.len() == 0 {
        0
    } else if tally_name(list.last().verdict) is Some {
        safe_count(list.drop_last()) + 1
    } else {
        safe_count(list.drop_last())
    }
}

/// The lines of a tally.
pub open spec fn tally_text(tally: Seq<TallyModel>) -> Seq<char>
    decreases tally.len(),
{
    if tally.len() == 0 {
        seq![]
    } else {
        tally_text(tally.drop_last()) + row(tally.last().name, tally.last().count)
    }
}

/// The paths that were fine, counted.
pub open spec fn allowed_text(list: Seq<FindingModel>) -> Seq<char> {
    "\n"@ + decimal(safe_count(list)) + " of "@ + decimal(list.len())
        + " path(s) are safe to commit\n"@ + tally_text(tally_of(list))
}

/// The bytes of an optional path.
pub open spec fn optional_path(path: Option<OsPath>) -> Option<Seq<u8>> {
    match path {
        Some(path) => Some(path@),
        None => None,
    }
}

/// Said where something was refused.
pub open spec fn refused_note(exit: Exit) -> Seq<char> {
    if succeeds(exit) {
        ""@
    } else {
        "nothing was committed. Take each refused path out of the index and try again:\n  git rm --cached -- <path>\n"@
    }
}

/// The report of a guard as an operator reads it.
pub open spec fn guard_text(
    root: Seq<u8>,
    tree: Option<Seq<u8>>,
    findings: Seq<FindingModel>,
    standing: Seq<StandingModel>,
    exit: Exit,
) -> Seq<char> {
    (if succeeds(exit) {
        "guard-commit: safe to commit\n"@
    } else {
        "guard-commit: refused\n"@
    }) + "store  "@ + utf8_lossy(root) + "\n"@ + (match tree {
        Some(tree) => "repo   "@ + utf8_lossy(tree) + "\n"@,
        None => ""@,
    }) + all_standing_text(standing) + all_refusals_text(findings) + allowed_text(findings)
        + refused_note(exit)
}

struct Tally {
    name: String,
    count: usize,
}

impl View for Tally {
    type V = TallyModel;

    closed spec fn view(&self) -> TallyModel {
        TallyModel { name: self.name@, count: self.count as nat }
    }
}

spec fn tally_models(list: Seq<Tally>) -> Seq<TallyModel> {
    list.map_values(|tally: Tally| tally@)
}

fn count_in(tally: &mut Vec<Tally>, name: &str, Ghost(bound): Ghost<nat>)
    requires
        bound < usize::MAX,
        forall|k: int| 0 <= k < old(tally)@.len() ==> (#[trigger] old(tally)@[k]).count <= bound,
    ensures
        tally_models(final(tally)@) == counted(tally_models(old(tally)@), name@),
        forall|k: int|
            0 <= k < final(tally)@.len() ==> (#[trigger] final(tally)@[k]).count <= bound + 1,
{
    let ghost before = tally@;
    let ghost all = tally_models(before);
    let mut i: usize = 0;
    assert(all.skip(0) =~= all);
    assert(all.take(0) + counted(all, name@) =~= counted(all, name@));
    while i < tally.len() && !same(tally[i].name.as_str(), name) && is_ordered(
        tally[i].name.as_str(),
        name,
    )
        invariant
            i <= tally@.len(),
            tally@ == before,
            all == tally_models(before),
            counted(all, name@) == all.take(i as int) + counted(all.skip(i as int), name@),
        decreases tally@.len() - i,
    {
        proof {
            let rest = all.skip(i as int);
            assert(rest[0] == before[i as int]@);
            assert(rest.skip(1) =~= all.skip(i + 1));
            assert(all.take(i as int) + (seq![rest[0]] + counted(rest.skip(1), name@))
                =~= all.take(i + 1) + counted(all.skip(i + 1), name@));
        }
        i += 1;
    }
    let ghost rest = all.skip(i as int);
    proof {
        if i < before.len() {
            assert(rest[0] == before[i as int]@);
            assert(rest.skip(1) =~= all.skip(i + 1));
        }
    }
    if i < tally.len() && same(tally[i].name.as_str(), name) {
        let count: usize = tally[i].count;
        let one = Tally { name: String::from_str(name), count: count + 1 };
        tally.set(i, one);
        assert(tally_models(tally@) =~= all.take(i as int) + (seq![one@] + rest.skip(1)));
    } else {
        let one = Tally { name: String::from_str(name), count: 1 };
        tally.insert(i, one);
        assert(tally_models(tally@) =~= all.take(i as int) + (seq![one@] + rest));
        proof {
            if i == before.len() {
                assert(rest =~= seq![]);
                assert(seq![one@] + rest =~= seq![one@]);
            }
        }
    }
}

impl GuardReport {
    /// Appends the refusals that are about the deployment rather than about a staged path.
    pub fn describe_standing(&self, text: &mut String)
        ensures
            final(text)@ == old(text)@ + all_standing_text(standing_models(self.standing@)),
    {
        let ghost all = standing_models(self.standing@);
        let mut i: usize = 0;
        assert(text@ =~= old(text)@ + all_standing_text(all.take(0)));
        while i < self.standing.len()
            invariant
                i <= self.standing@.len(),
                all == standing_models(self.standing@),
                text@ == old(text)@ + all_standing_text(all.take(i as int)),
            decreases self.standing@.len() - i,
        {
            let ghost before = text@;
            let one = &self.standing[i];
            text.append("\n");
            text.append(one.path.display().as_str());
            text.append(" is inside this work tree\n  manifest: `");
            text.append(one.entry.name.as_str());
            text.append("` — ");
            text.append(one.entry.reason.as_str());
            text.append(
                "\n  an ignore rule is not a mechanism here: `git add -f` overrides one, and a rule written today does not remove what was committed yesterday. Move it out of the work tree\n",
            );
            proof {
                assert(text@ =~= before + standing_text(one@));
                assert(all.take(i + 1).drop_last() =~= all.take(i as int));
                assert(all.take(i + 1).last() == one@);
                assert(text@ =~= old(text)@ + all_standing_text(all.take(i + 1)));
            }
            i += 1;
        }
        assert(all.take(all.len() as int) =~= all);
    }

    /// Appends one paragraph per refused path.
    pub fn describe_refusals(&self, text: &mut String)
        ensures
            final(text)@ == old(text)@ + all_refusals_text(finding_models(self.findings@)),
    {
        let ghost all = finding_models(self.findings@);
        let mut i: usize = 0;
        assert(text@ =~= old(text)@ + all_refusals_text(all.take(0)));
        while i < self.findings.len()
            invariant
                i <= self.findings@.len(),
                all == finding_models(self.findings@),
                text@ == old(text)@ + all_refusals_text(all.take(i as int)),
            decreases self.findings@.len() - i,
        {
            let ghost before = text@;
            let one = &self.findings[i];
            text.append(refusal_of(one).as_str());
            proof {
                assert(all.take(i + 1).drop_last() =~= all.take(i as int));
                assert(all.take(i + 1).last() == one@);
                assert(text@ =~= old(text)@ + all_refusals_text(all.take(i + 1)));
            }
            i += 1;
        }
        assert(all.take(all.len() as int) =~= all);
    }

    /// Appends a tally of the paths that were fine, by the manifest entry each fell under.
    ///
    /// Printed on a refusal too: a guard that refused everything would otherwise be
    /// indistinguishable from one that was working.
    pub fn describe_allowed(&self, text: &mut String)
        ensures
            final(text)@ == old(text)@ + allowed_text(finding_models(self.findings@)),
    {
        let ghost all = finding_models(self.findings@);
        let ghost start = text@;
        let mut tally: Vec<Tally> = Vec::new();
        let mut safe: usize = 0;
        let mut i: usize = 0;
        assert(tally_models(tally@) =~= seq![]);
        while i < self.findings.len()
            invariant
                i <= self.findings@.len(),
                all == finding_models(self.findings@),
                tally_models(tally@) == tally_of(all.take(i as int)),
                safe == safe_count(all.take(i as int)),
                safe <= i,
                forall|k: int| 0 <= k < tally@.len() ==> (#[trigger] tally@[k]).count <= i,
            decreases self.findings@.len() - i,
        {
            proof {
                assert(all.take(i + 1).drop_last() =~= all.take(i as int));
                assert(all.take(i + 1).last() == self.findings@[i as int]@);
            }
            match &self.findings[i].verdict {
                Verdict::Included(entry) => {
                    count_in(&mut tally, entry.name.as_str(), Ghost(i as nat));
                    safe += 1;
                },
                Verdict::Outside => {
                    count_in(&mut tally, OUTSIDE, Ghost(i as nat));
                    safe += 1;
                },
                _ => {},
            }
            i += 1;
        }
        assert(all.take(all.len() as int) =~= all);
        let mut said = String::from_str("\n").concat(decimal_text(safe as u64).as_str()).concat(
            " of ",
        ).concat(decimal_text(self.findings.len() as u64).as_str()).concat(
            " path(s) are safe to commit\n",
        );
        let ghost head = said@;
        let ghost lines = tally_models(tally@);
        let mut j: usize = 0;
        assert(said@ =~= head + tally_text(lines.take(0)));
        while j < tally.len()
            invariant
                j <= tally@.len(),
                lines == tally_models(tally@),
                said@ == head + tally_text(lines.take(j as int)),
            decreases tally@.len() - j,
        {
            let ghost before = said@;
            line(&mut said, tally[j].name.as_str(), tally[j].count);
            proof {
                assert(lines.take(j + 1).drop_last() =~= lines.take(j as int));
                assert(lines.take(j + 1).last() == tally@[j as int]@);
                assert(said@ =~= head + tally_text(lines.take(j + 1)));
            }
            j += 1;
        }
        assert(lines.take(lines.len() as int) =~= lines);
        text.append(said.as_str());
    }

    /// The report as an operator reads it.
    ///
    /// Every refusal names the path, the entry it fell under, and that entry's own reason, because
    /// the operator's next question is what to do about it. What was allowed is counted too.
    pub fn render(&self, root: &OsPath, exit: Exit) -> (text: String)
        ensures
            text@ == guard_text(
                root@,
                optional_path(self.tree),
                finding_models(self.findings@),
                standing_models(self.standing@),
                exit,
            ),
    {
        let safe: bool = exit.is_success();
        let mut text = String::from_str(
            if safe {
                "guard-commit: safe to commit\n"
            } else {
                "guard-commit: refused\n"
            },
        );
        text.append("store  ");
        text.append(root.display().as_str());
        text.append("\n");
        let repo = match &self.tree {
            Some(tree) => String::from_str("repo   ").concat(tree.display().as_str()).concat("\n"),
            None => String::from_str(""),
        };
        text.append(repo.as_str());
        self.describe_standing(&mut text);
        self.describe_refusals(&mut text);
        self.describe_allowed(&mut text);
        text.append(
            if safe {
                ""
            } else {
                "nothing was committed. Take each refused path out of the index and try again:\n  git rm --cached -- <path>\n"
            },
        );
        text
    }

    /// What the guard prints and exits with.
    pub fn conclude(&self, root: &OsPath) -> (out: Report)
        ensures
            out@.outcome == Ok::<Exit, Fault>(
                guard_exit(finding_models(self.findings@), self.standing@.len()),
            ),
            out@.text == guard_text(
                root@,
                optional_path(self.tree),
                finding_models(self.findings@),
                standing_models(self.standing@),
                guard_exit(finding_models(self.findings@), self.standing@.len()),
            ),
    {
        let exit = self.exit();
        Report { text: self.render(root, exit), outcome: Ok(exit) }
    }
}

fn refusal_of(finding: &Finding) -> (text: String)
    ensures
        text@ == refusal_text(finding@),
{
    if finding.verdict.severity() == 0 {
        return String::from_str("");
    }
    let reason = match &finding.verdict {
        Verdict::Excluded { entry, at, reach } => {
            let kept = match at {
                Some(path) => String::from_str("  which this deployment keeps at ").concat(
                    path.display().as_str(),
                ).concat("\n"),
                None => String::from_str(""),
            };
            String::from_str("  refused: it is `").concat(entry.name.as_str()).concat("`\n").concat(
                kept.as_str(),
            ).concat("  ").concat(reach.why()).concat("\n  manifest: ").concat(
                entry.reason.as_str(),
            ).concat("\n")
        },
        Verdict::Unclassified(name) => String::from_str("  refused: `").concat(
            name.as_str(),
        ).concat(
            "` sits under the memory root and no manifest entry classifies it. Either it belongs in the manifest or it belongs outside the store — a keyring or an unsealing key parked there is exactly what a check that guessed would wave through\n",
        ),
        Verdict::Opaque(why) => String::from_str("  refused: ").concat(why.as_str()).concat(
            ". A guard that cannot say what a path is does not allow it\n",
        ),
        _ => String::from_str(""),
    };
    String::from_str("\n").concat(finding.path.display().as_str()).concat("\n").concat(
        reason.as_str(),
    )
}

/// What stands in a work tree, where there is one.
pub open spec fn standing_in(ground: Ground, tree: Option<Place>) -> Seq<StandingModel> {
    match tree {
        Some(tree) => standing_of(ground.forbidden@, tree@),
        None => seq![],
    }
}

/// Where a work tree is, where there is one.
pub open spec fn tree_path(tree: Option<Place>) -> Option<Seq<u8>> {
    match tree {
        Some(tree) => Some(tree.said@),
        None => None,
    }
}

/// What a guard prints and exits with.
pub open spec fn guarded(
    root: Seq<u8>,
    tree: Option<Seq<u8>>,
    findings: Seq<FindingModel>,
    standing: Seq<StandingModel>,
) -> ReportModel {
    let exit = guard_exit(findings, standing.len());
    ReportModel { text: guard_text(root, tree, findings, standing, exit), outcome: Ok(exit) }
}

/// Decides whether what was named is safe to commit, and says so.
///
/// Done only when every path was classified and none of them is anything a copy may not contain.
/// Every refusal has its own code, so a hook can say which kind it was without matching on text.
pub fn guard_commit(
    ground: &Ground,
    root: &OsPath,
    tree: &Option<Place>,
    candidates: &Vec<Candidate>,
    ids: &Vec<Option<FileId>>,
    inodes: &Vec<Inode>,
) -> (out: Report)
    ensures
        out@ == guarded(
            root@,
            tree_path(*tree),
            relinked(findings_of(*ground, candidates@), ids@, inodes@),
            standing_in(*ground, *tree),
        ),
{
    let mut report = ground.examine(tree, candidates);
    report.refuse_hardlinks(ids, inodes);
    proof {
        if tree is None {
            assert(standing_models(report.standing@) =~= seq![]);
        }
    }
    report.conclude(root)
}

// ---------------------------------------------------------------------------------------------
// What holds of every guard

proof fn lemma_worst(findings: Seq<FindingModel>)
    ensures
        0 <= worst(findings) <= 3,
        forall|i: int|
            0 <= i < findings.len() ==> severity_of((#[trigger] findings[i]).verdict) <= worst(
                findings,
            ),
        worst(findings) > 0 ==> exists|i: int|
            0 <= i < findings.len() && severity_of((#[trigger] findings[i]).verdict) == worst(
                findings,
            ),
    decreases findings.len(),
{
    if findings.len() > 0 {
        let rest = findings.drop_last();
        lemma_worst(rest);
        assert forall|i: int| 0 <= i < findings.len() implies severity_of(
            (#[trigger] findings[i]).verdict,
        ) <= worst(findings) by {
            if i < rest.len() {
                assert(rest[i] == findings[i]);
            }
        }
        if worst(findings) > 0 {
            if severity_of(findings.last().verdict) > worst(rest) {
                assert(findings[findings.len() - 1] == findings.last());
            } else {
                let i = choose|i: int|
                    0 <= i < rest.len() && severity_of((#[trigger] rest[i]).verdict) == worst(rest);
                assert(findings[i] == rest[i]);
            }
        }
    }
}

/// A guard succeeds exactly when nothing forbidden stands in the work tree and every path it was
/// given is safe; otherwise it exits with the worst thing it found.
pub proof fn law_a_guard_allows_only_what_it_knows_to_be_safe(
    findings: Seq<FindingModel>,
    standing: nat,
)
    ensures
        succeeds(guard_exit(findings, standing)) <==> standing == 0 && forall|i: int|
            0 <= i < findings.len() ==> severity_of((#[trigger] findings[i]).verdict) == 0,
        forall|i: int|
            #![trigger findings[i]]
            0 <= i < findings.len() && crate::cli::guard::verdict_exit(findings[i].verdict)
                == Exit::Rejected ==> guard_exit(findings, standing) == Exit::Rejected,
{
    lemma_worst(findings);
}

/// A path that is a forbidden place, or lies inside one, is never allowed: not by its spelling, not
/// by what it resolves to, and not by the entry it appears to be under.
pub proof fn law_nothing_inside_a_forbidden_place_is_allowed(
    ground: Ground,
    candidate: Seq<u8>,
    resolution: Resolution,
    i: int,
)
    requires
        0 <= i < ground.forbidden@.len(),
        crate::cli::guard::place_of(ground.base@, candidate, resolution) matches Some(place)
            && place_within(place, ground.forbidden@[i].place@) is Some,
    ensures
        severity_of(verdict_of(ground, candidate, resolution)) == 3,
{
    let place = crate::cli::guard::place_of(ground.base@, candidate, resolution)->0;
    lemma_first_forbidden(place, ground.forbidden@, i);
}

proof fn lemma_first_forbidden(place: PlaceModel, list: Seq<Forbidden>, i: int)
    requires
        0 <= i < list.len(),
        place_within(place, list[i].place@) is Some,
    ensures
        crate::cli::guard::first_forbidden(place, list) matches Some(verdict) && severity_of(verdict)
            == 3,
    decreases list.len(),
{
    if place_within(place, list[0].place@) is None {
        assert(list.skip(1)[i - 1] == list[i]);
        lemma_first_forbidden(place, list.skip(1), i - 1);
    }
}

/// What the filesystem will not resolve, and what lies under the root without being in the tree or
/// in the manifest, is never allowed.
pub proof fn law_every_unknown_refuses(ground: Ground, candidate: Seq<u8>, resolution: Resolution)
    ensures
        resolution is Refused ==> severity_of(verdict_of(ground, candidate, resolution)) > 0,
        verdict_of(ground, candidate, resolution) matches VerdictModel::Included(entry)
            ==> entry.included && resolution is At,
        verdict_of(ground, candidate, resolution) is Outside
            ==> (crate::cli::guard::place_of(ground.base@, candidate, resolution) matches Some(place)
            && crate::cli::guard::place_under(place, ground.root@) is None),
{
    match crate::cli::guard::place_of(ground.base@, candidate, resolution) {
        Some(place) => lemma_forbidden_is_excluded(place, ground.forbidden@),
        None => {},
    }
}

proof fn lemma_forbidden_is_excluded(place: PlaceModel, list: Seq<Forbidden>)
    ensures
        crate::cli::guard::first_forbidden(place, list) matches Some(verdict)
            ==> verdict is Excluded,
    decreases list.len(),
{
    if list.len() > 0 {
        lemma_forbidden_is_excluded(place, list.skip(1));
    }
}

/// Comparing inodes only ever refuses: a path that was refused stays refused for the reason it was,
/// and one that was safe is either safe still or a forbidden file under another name.
pub proof fn law_hardlinks_only_refuse(
    verdict: VerdictModel,
    id: Option<FileId>,
    inodes: Seq<Inode>,
)
    ensures
        severity_of(verdict) > 0 ==> linked_verdict(verdict, id, inodes) == verdict,
        linked_verdict(verdict, id, inodes) == verdict || severity_of(
            linked_verdict(verdict, id, inodes),
        ) == 3,
{
}

/// The sum of a tally.
pub open spec fn tally_sum(tally: Seq<TallyModel>) -> nat
    decreases tally.len(),
{
    if tally.len() == 0 {
        0
    } else {
        tally[0].count + tally_sum(tally.skip(1))
    }
}

proof fn lemma_counted_sum(tally: Seq<TallyModel>, name: Seq<char>)
    ensures
        tally_sum(counted(tally, name)) == tally_sum(tally) + 1,
    decreases tally.len(),
{
    let after = counted(tally, name);
    if tally.len() == 0 {
        assert(tally_sum(after.skip(1)) == 0);
    } else if tally[0].name == name {
        assert(after.skip(1) =~= tally.skip(1));
    } else if ordered(tally[0].name, name) {
        lemma_counted_sum(tally.skip(1), name);
        assert(after.skip(1) =~= counted(tally.skip(1), name));
    } else {
        assert(after.skip(1) =~= tally);
    }
}

/// Every safe path is counted under exactly one name: the tally adds up to the number that are safe,
/// and a path is safe exactly when it is in the tally.
pub proof fn law_the_tally_adds_up(findings: Seq<FindingModel>)
    ensures
        tally_sum(tally_of(findings)) == safe_count(findings),
        safe_count(findings) <= findings.len(),
        safe_count(findings) == findings.len() <==> worst(findings) == 0,
    decreases findings.len(),
{
    if findings.len() > 0 {
        law_the_tally_adds_up(findings.drop_last());
        lemma_worst(findings.drop_last());
        match tally_name(findings.last().verdict) {
            Some(name) => lemma_counted_sum(tally_of(findings.drop_last()), name),
            None => {},
        }
    }
}

} // verus!
