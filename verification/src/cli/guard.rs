//! Deciding whether a set of paths is safe to commit, and the pre-commit hook that asks.
//!
//! Keeping a store's backup in a private repository is safe because a backup carries ciphertext and
//! no keys. That rests on the key store never being committed once, and an ignore rule is not a
//! mechanism against a one-way door, so this is a check with an exit code a hook stops on.
//!
//! Every decision comes from the manifest a backup is taken against. Every unknown refuses: a path
//! the filesystem will not resolve, a path under the memory root with nothing in the tree behind it,
//! an entry the manifest does not classify, an invocation naming no paths at all.
//!
//! A path is read twice, because the two readings see different things. Its spelling, reduced
//! textually, catches `records/../keystore/x` and a path with no file behind it. Its identity, which
//! the filesystem resolves, catches a symlink into a key store and a key store that was relocated.
//! Either reading is enough to refuse. A file hardlinked to one inside an excluded entry is refused
//! by inode identity, since a hardlink has no path to read.

use vstd::prelude::*;
use vstd::string::*;

use crate::cli::error::{config_fault, usage_fault, Error, Fault};
use crate::cli::exit::Exit;
use crate::cli::report::{Report, ReportModel};
use crate::path::{first_below, first_under, path_within, reduced, reduced_path, utf8_lossy, OsPath};
use crate::text::{copied, same};

verus! {

/// The `pre-commit` hook, as `--print-hook` writes it.
///
/// The text lives in the binary so the script and the command it calls cannot drift. It hands the
/// guard the deployment's own root and key store rather than assuming defaults: a key store somewhere
/// the invocation does not name is outside what the guard can reason about. Where no root is
/// configured the guard refuses.
pub const HOOK: &'static str =
    "#!/bin/sh\n# Stops a commit that would contain anything a copy of the store may not contain.\n# YAAM_ROOT and YAAM_KEY_STORE say where this deployment keeps its store and its keys.\nexec yaam ${YAAM_ROOT:+--root \"$YAAM_ROOT\"} --key-store \"${YAAM_KEY_STORE:-$YAAM_ROOT/keystore}\" guard-commit --repo \"$(git rev-parse --show-toplevel)\"\n";

/// How a path outside the memory root is tallied: not store content, and governed by no entry.
pub const OUTSIDE: &'static str = "(not store content)";

// ---------------------------------------------------------------------------------------------
// What is asked

/// Where the guard gets the paths it decides about: exactly one of these, and never a default.
#[derive(Debug, PartialEq, Eq)]
pub enum Subject {
    /// Everything in a repository's index: what the commit would contain, not only what changed.
    Index(OsPath),
    /// Exactly these paths, resolved against the working directory.
    Named(Vec<OsPath>),
    /// Print [`HOOK`] and decide nothing.
    Hook,
}

/// The paths a list of them holds.
pub open spec fn path_bytes(list: Seq<OsPath>) -> Seq<Seq<u8>> {
    list.map_values(|path: OsPath| path@)
}

/// How many subjects the flags name.
pub open spec fn subjects_named(repo: bool, named: bool, print_hook: bool) -> int {
    (if repo {
        1int
    } else {
        0
    }) + (if named {
        1int
    } else {
        0
    }) + (if print_hook {
        1int
    } else {
        0
    })
}

/// Why flags that name more than one subject are refused.
pub const TWO_SUBJECTS: &'static str =
    "--repo, --path and --print-hook ask for different things; name one";

/// Why flags that name no subject are refused.
pub const NO_SUBJECT: &'static str =
    "nothing to check: pass --repo to read a repository's index, or --path for one path. There is no default, because an empty set of paths is nothing to refuse";

fn copied_paths(list: &Vec<OsPath>) -> (copy: Vec<OsPath>)
    ensures
        path_bytes(copy@) == path_bytes(list@),
{
    let mut copy: Vec<OsPath> = Vec::new();
    let mut i: usize = 0;
    while i < list.len()
        invariant
            i <= list@.len(),
            path_bytes(copy@) =~= path_bytes(list@).take(i as int),
        decreases list@.len() - i,
    {
        let ghost before = copy@;
        copy.push(list[i].copied());
        assert(path_bytes(copy@) =~= path_bytes(before).push(list@[i as int]@));
        assert(path_bytes(list@).take(i + 1) =~= path_bytes(list@).take(i as int).push(
            list@[i as int]@,
        ));
        i += 1;
    }
    assert(path_bytes(list@).take(list@.len() as int) =~= path_bytes(list@));
    copy
}

impl Subject {
    /// Reads the subject out of the flags, refusing anything that does not name exactly one.
    ///
    /// Two of them together is an operator asking for two different checks; none of them is an
    /// operator who has not said what to check. Answering either with a default would be answering
    /// a question nobody asked.
    pub fn from_flags(repo: Option<&OsPath>, named: &Vec<OsPath>, print_hook: bool) -> (subject:
        Result<Subject, Error>)
        ensures
            subjects_named(repo is Some, named@.len() > 0, print_hook) > 1 ==> (subject matches Err(
                error,
            ) && error@ == usage_fault(TWO_SUBJECTS@)),
            subjects_named(repo is Some, named@.len() > 0, print_hook) == 0 ==> (subject matches Err(
                error,
            ) && error@ == usage_fault(NO_SUBJECT@)),
            subjects_named(repo is Some, named@.len() > 0, print_hook) == 1 ==> match subject {
                Ok(Subject::Index(path)) => repo matches Some(given) && path@ == given@,
                Ok(Subject::Named(list)) => named@.len() > 0 && path_bytes(list@) == path_bytes(
                    named@,
                ),
                Ok(Subject::Hook) => print_hook,
                Err(_) => false,
            },
    {
        let asked: usize = (if repo.is_some() {
            1usize
        } else {
            0usize
        }) + (if named.len() > 0 {
            1usize
        } else {
            0usize
        }) + (if print_hook {
            1usize
        } else {
            0usize
        });
        if asked > 1 {
            return Err(Error::Usage(String::from_str(TWO_SUBJECTS)));
        }
        if let Some(repo) = repo {
            return Ok(Subject::Index(repo.copied()));
        }
        if named.len() > 0 {
            return Ok(Subject::Named(copied_paths(named)));
        }
        if print_hook {
            return Ok(Subject::Hook);
        }
        Err(Error::Usage(String::from_str(NO_SUBJECT)))
    }
}

/// Prints the `pre-commit` hook, for an installer to place. It needs no store and decides nothing.
pub fn print_hook() -> (out: Report)
    ensures
        out@ == (ReportModel { text: HOOK@, outcome: Ok(Exit::Done) }),
{
    Report { text: String::from_str(HOOK), outcome: Ok(Exit::Done) }
}

// ---------------------------------------------------------------------------------------------
// Places

/// What the filesystem makes of a path.
#[derive(Debug)]
pub enum Resolution {
    /// It is there, and this is where it is once every symlink has been followed.
    At(OsPath),
    /// Nothing is there.
    Absent,
    /// The filesystem would not say.
    Refused(String),
}

/// A path in both readings a check needs: what it says, and what the filesystem makes of it.
#[derive(Debug)]
pub struct Place {
    /// Absolute, with `.` and `..` reduced textually.
    pub said: OsPath,
    /// The same place with every symlink followed, or `None` when nothing is there.
    pub real: Option<OsPath>,
}

/// A place as a contract speaks of it.
pub struct PlaceModel {
    /// What it says.
    pub said: Seq<u8>,
    /// What it is.
    pub real: Option<Seq<u8>>,
}

impl View for Place {
    type V = PlaceModel;

    open spec fn view(&self) -> PlaceModel {
        PlaceModel {
            said: self.said@,
            real: match self.real {
                Some(path) => Some(path@),
                None => None,
            },
        }
    }
}

/// How a path was found to be something no copy may contain.
#[derive(Debug, Clone, Copy, PartialEq, Eq, Structural)]
pub enum Reach {
    /// Its spelling says so, with `.` and `..` reduced.
    Spelling,
    /// The filesystem says so whatever it is spelled: a symlink, or a relocated entry.
    Identity,
    /// It is the same file, by inode: a hardlink, which has no path to read.
    Inode,
}

/// How an operator should read a match.
pub open spec fn reach_text(reach: Reach) -> Seq<char> {
    match reach {
        Reach::Spelling => "matched by its spelling"@,
        Reach::Identity =>
            "matched by identity: it resolves there whatever it is spelled — a symlink, or an entry this deployment relocated"@,
        Reach::Inode =>
            "matched by inode: it is a hardlink to a file inside it, and shares that file's bytes for ever"@,
    }
}

impl Reach {
    /// How an operator should read the match.
    pub fn why(self) -> (text: &'static str)
        ensures
            text@ == reach_text(self),
    {
        match self {
            Reach::Spelling => "matched by its spelling",
            Reach::Identity =>
                "matched by identity: it resolves there whatever it is spelled — a symlink, or an entry this deployment relocated",
            Reach::Inode =>
                "matched by inode: it is a hardlink to a file inside it, and shares that file's bytes for ever",
        }
    }
}

/// How one place is at or inside another, if it is: by its spelling, or else by its identity.
pub open spec fn place_within(inner: PlaceModel, outer: PlaceModel) -> Option<Reach> {
    if path_within(inner.said, outer.said) {
        Some(Reach::Spelling)
    } else {
        match (inner.real, outer.real) {
            (Some(mine), Some(theirs)) if path_within(mine, theirs) => Some(Reach::Identity),
            _ => None,
        }
    }
}

/// The first component of one place under another, if it is under it: by its identity, or else by
/// its spelling.
pub open spec fn place_under(inner: PlaceModel, outer: PlaceModel) -> Option<Seq<u8>> {
    match (inner.real, outer.real) {
        (Some(mine), Some(theirs)) => match first_below(theirs, mine) {
            Some(name) => Some(name),
            None => first_below(outer.said, inner.said),
        },
        _ => first_below(outer.said, inner.said),
    }
}

/// The place a path is, given what the filesystem makes of its reduced spelling; nothing where the
/// filesystem would not say.
pub open spec fn place_of(base: Seq<u8>, path: Seq<u8>, resolution: Resolution) -> Option<
    PlaceModel,
> {
    let said = reduced_path(base, path);
    match resolution {
        Resolution::At(path) => Some(PlaceModel { said, real: Some(path@) }),
        Resolution::Absent => Some(PlaceModel { said, real: None }),
        Resolution::Refused(_) => None,
    }
}

impl Place {
    /// Reads both forms of a path, or hands back why the filesystem would not speak about it.
    ///
    /// Absence is not a refusal: a path that is not there yet has a spelling and no identity.
    pub fn of(base: &OsPath, path: &OsPath, resolution: &Resolution) -> (place: Result<
        Place,
        String,
    >)
        ensures
            match (place, place_of(base@, path@, *resolution)) {
                (Ok(place), Some(model)) => place@ == model,
                (Err(cause), None) => resolution matches Resolution::Refused(given) && cause@
                    == given@,
                _ => false,
            },
    {
        let said = reduced(base, path);
        match resolution {
            Resolution::At(path) => Ok(Place { said, real: Some(path.copied()) }),
            Resolution::Absent => Ok(Place { said, real: None }),
            Resolution::Refused(cause) => Err(copied(cause)),
        }
    }

    /// How this place is at or inside `outer`, or `None` when it is not.
    pub fn within(&self, outer: &Place) -> (reach: Option<Reach>)
        ensures
            reach == place_within(self@, outer@),
    {
        if self.said.starts_with(&outer.said) {
            return Some(Reach::Spelling);
        }
        match (&self.real, &outer.real) {
            (Some(mine), Some(theirs)) => {
                if mine.starts_with(theirs) {
                    Some(Reach::Identity)
                } else {
                    None
                }
            },
            _ => None,
        }
    }

    /// The first component of this place under `outer`, or `None` when it is not inside it.
    ///
    /// Identity first, because a symlink's spelling says where it is written and not what it is.
    pub fn under(&self, outer: &Place) -> (name: Option<String>)
        ensures
            match (name, place_under(self@, outer@)) {
                (Some(text), Some(component)) => text@ == utf8_lossy(component),
                (None, None) => true,
                _ => false,
            },
    {
        if let (Some(mine), Some(theirs)) = (&self.real, &outer.real) {
            if let Some(name) = first_under(theirs, mine) {
                return Some(name);
            }
        }
        first_under(&outer.said, &self.said)
    }
}

// ---------------------------------------------------------------------------------------------
// The manifest, and the ground a check stands on

/// One entry of the manifest a backup is taken against.
#[derive(Debug)]
pub struct Entry {
    /// The name it goes under below the root.
    pub name: String,
    /// Why it is on the side it is on.
    pub reason: String,
    /// Whether a backup copies it.
    pub included: bool,
}

/// A manifest entry as a contract speaks of it.
pub struct EntryModel {
    /// Its name.
    pub name: Seq<char>,
    /// Its reason.
    pub reason: Seq<char>,
    /// Whether a backup copies it.
    pub included: bool,
}

impl View for Entry {
    type V = EntryModel;

    open spec fn view(&self) -> EntryModel {
        EntryModel { name: self.name@, reason: self.reason@, included: self.included }
    }
}

impl Entry {
    /// The same entry again.
    pub fn copied(&self) -> (copy: Entry)
        ensures
            copy@ == self@,
    {
        Entry { name: copied(&self.name), reason: copied(&self.reason), included: self.included }
    }
}

/// The first manifest entry of a name, if there is one.
pub open spec fn entry_named(manifest: Seq<Entry>, name: Seq<char>) -> Option<EntryModel>
    decreases manifest.len(),
{
    if manifest.len() == 0 {
        None
    } else if manifest[0].name@ == name {
        Some(manifest[0]@)
    } else {
        entry_named(manifest.skip(1), name)
    }
}

/// One manifest entry by name, or `None` when the manifest says nothing about it.
pub fn manifest_entry(manifest: &Vec<Entry>, name: &str) -> (entry: Option<Entry>)
    ensures
        match (entry, entry_named(manifest@, name@)) {
            (Some(entry), Some(model)) => entry@ == model,
            (None, None) => true,
            _ => false,
        },
{
    let mut i: usize = 0;
    assert(manifest@.skip(0) =~= manifest@);
    while i < manifest.len()
        invariant
            i <= manifest@.len(),
            entry_named(manifest@, name@) == entry_named(manifest@.skip(i as int), name@),
        decreases manifest@.len() - i,
    {
        assert(manifest@.skip(i as int)[0] == manifest@[i as int]);
        assert(manifest@.skip(i as int).skip(1) =~= manifest@.skip(i + 1));
        if same(manifest[i].name.as_str(), name) {
            return Some(manifest[i].copied());
        }
        i += 1;
    }
    None
}

/// One path a copy may not contain, before it has been placed.
#[derive(Debug)]
pub struct Excluded {
    /// Where this deployment keeps it.
    pub path: OsPath,
    /// The manifest entry that says why.
    pub entry: Entry,
    /// What the filesystem makes of it.
    pub resolution: Resolution,
    /// Whether anything is there, a dangling symlink included.
    pub present: bool,
}

/// One place a copy may not contain.
#[derive(Debug)]
pub struct Forbidden {
    /// Where it is, in both readings.
    pub place: Place,
    /// The manifest entry that says why.
    pub entry: Entry,
    /// Whether anything is there.
    pub present: bool,
}

/// The store a guard reasons about, in the two readings every check needs.
#[derive(Debug)]
pub struct Ground {
    /// Where a relative candidate path is resolved from.
    pub base: OsPath,
    /// The memory root.
    pub root: Place,
    /// Every place a copy may not contain.
    pub forbidden: Vec<Forbidden>,
    /// The manifest a backup is taken against.
    pub manifest: Vec<Entry>,
}

/// Whether a forbidden place is what an excluded path comes to.
pub open spec fn placed_as(base: Seq<u8>, excluded: Excluded, forbidden: Forbidden) -> bool {
    &&& place_of(base, excluded.path@, excluded.resolution) == Some(forbidden.place@)
    &&& forbidden.entry@ == excluded.entry@
    &&& forbidden.present == excluded.present
}

/// What is wrong with a root the filesystem will not resolve.
pub open spec fn root_fault(root: Seq<u8>, cause: Seq<char>) -> Fault {
    config_fault(
        "--root "@ + utf8_lossy(root) + " cannot be resolved ("@ + cause
            + "), so nothing could be checked against it"@,
    )
}

/// What is wrong with an excluded path the filesystem will not resolve.
pub open spec fn excluded_fault(excluded: Excluded, cause: Seq<char>) -> Fault {
    config_fault(
        "`"@ + utf8_lossy(excluded.path@) + "` cannot be resolved ("@ + cause
            + "), and it is where `"@ + excluded.entry.name@ + "` is excluded"@,
    )
}

/// The first of some excluded paths that the filesystem will not resolve, as a fault.
pub open spec fn first_excluded_fault(list: Seq<Excluded>) -> Option<Fault>
    decreases list.len(),
{
    if list.len() == 0 {
        None
    } else {
        match list[0].resolution {
            Resolution::Refused(cause) => Some(excluded_fault(list[0], cause@)),
            _ => first_excluded_fault(list.skip(1)),
        }
    }
}

/// Why there is no ground to stand on, if there is none.
pub open spec fn ground_fault(root: Seq<u8>, resolution: Resolution, list: Seq<Excluded>) -> Option<
    Fault,
> {
    match resolution {
        Resolution::Refused(cause) => Some(root_fault(root, cause@)),
        _ => first_excluded_fault(list),
    }
}

impl Ground {
    /// Places the root and every path a copy may not contain, refusing a store the filesystem will
    /// not resolve.
    ///
    /// A root that is not there yet is allowed through: its spelling still places every path
    /// relative to it. A root that is there and cannot be resolved is a configuration failure,
    /// because the identity half of every check would quietly be missing.
    pub fn new(
        base: OsPath,
        root: &OsPath,
        resolution: &Resolution,
        excluded: &Vec<Excluded>,
        manifest: Vec<Entry>,
    ) -> (ground: Result<Ground, Error>)
        ensures
            match (ground, ground_fault(root@, *resolution, excluded@)) {
                (Ok(ground), None) => {
                    &&& ground.base@ == base@
                    &&& place_of(base@, root@, *resolution) == Some(ground.root@)
                    &&& ground.forbidden@.len() == excluded@.len()
                    &&& forall|i: int|
                        0 <= i < excluded@.len() ==> placed_as(
                            base@,
                            excluded@[i],
                            #[trigger] ground.forbidden@[i],
                        )
                    &&& ground.manifest == manifest
                },
                (Err(error), Some(fault)) => error@ == fault,
                _ => false,
            },
    {
        let root = match Place::of(&base, root, resolution) {
            Ok(place) => place,
            Err(cause) => {
                return Err(
                    Error::Config(
                        String::from_str("--root ").concat(root.display().as_str()).concat(
                            " cannot be resolved (",
                        ).concat(cause.as_str()).concat(
                            "), so nothing could be checked against it",
                        ),
                    ),
                );
            },
        };
        let mut forbidden: Vec<Forbidden> = Vec::new();
        let mut i: usize = 0;
        assert(excluded@.skip(0) =~= excluded@);
        while i < excluded.len()
            invariant
                i <= excluded@.len(),
                forbidden@.len() == i,
                *resolution !is Refused,
                first_excluded_fault(excluded@) == first_excluded_fault(excluded@.skip(i as int)),
                forall|k: int|
                    0 <= k < i ==> placed_as(base@, excluded@[k], #[trigger] forbidden@[k]),
            decreases excluded@.len() - i,
        {
            assert(excluded@.skip(i as int)[0] == excluded@[i as int]);
            assert(excluded@.skip(i as int).skip(1) =~= excluded@.skip(i + 1));
            let one = &excluded[i];
            match Place::of(&base, &one.path, &one.resolution) {
                Ok(place) => {
                    forbidden.push(
                        Forbidden { place, entry: one.entry.copied(), present: one.present },
                    );
                },
                Err(cause) => {
                    return Err(
                        Error::Config(
                            String::from_str("`").concat(one.path.display().as_str()).concat(
                                "` cannot be resolved (",
                            ).concat(cause.as_str()).concat("), and it is where `").concat(
                                one.entry.name.as_str(),
                            ).concat("` is excluded"),
                        ),
                    );
                },
            }
            i += 1;
        }
        Ok(Ground { base, root, forbidden, manifest })
    }
}

// ---------------------------------------------------------------------------------------------
// Verdicts

/// What the guard decided about one path.
#[derive(Debug)]
pub enum Verdict {
    /// Outside the memory root, so no manifest entry governs it.
    Outside,
    /// Under an entry a backup copies. Safe: this is what the repository is for.
    Included(Entry),
    /// Under an entry no copy may contain.
    Excluded {
        /// The manifest entry, which carries the reason.
        entry: Entry,
        /// Where that entry is for this deployment, when a path is what matched.
        at: Option<OsPath>,
        /// Which reading found it.
        reach: Reach,
    },
    /// Under the root, and the manifest classifies nothing it is under.
    Unclassified(String),
    /// The guard could not decide, and says why.
    Opaque(String),
}

/// A verdict as a contract speaks of it.
pub enum VerdictModel {
    /// Outside the memory root.
    Outside,
    /// Under an entry a backup copies.
    Included(EntryModel),
    /// Under an entry no copy may contain.
    Excluded {
        /// The manifest entry.
        entry: EntryModel,
        /// Where that entry is, when a path is what matched.
        at: Option<Seq<u8>>,
        /// Which reading found it.
        reach: Reach,
    },
    /// Under the root, and not classified.
    Unclassified(Seq<char>),
    /// Not decided, and why.
    Opaque(Seq<char>),
}

impl View for Verdict {
    type V = VerdictModel;

    open spec fn view(&self) -> VerdictModel {
        match *self {
            Verdict::Outside => VerdictModel::Outside,
            Verdict::Included(entry) => VerdictModel::Included(entry@),
            Verdict::Excluded { entry, at, reach } => VerdictModel::Excluded {
                entry: entry@,
                at: match at {
                    Some(path) => Some(path@),
                    None => None,
                },
                reach,
            },
            Verdict::Unclassified(name) => VerdictModel::Unclassified(name@),
            Verdict::Opaque(why) => VerdictModel::Opaque(why@),
        }
    }
}

/// The exit one verdict alone would produce.
pub open spec fn verdict_exit(verdict: VerdictModel) -> Exit {
    match verdict {
        VerdictModel::Outside => Exit::Done,
        VerdictModel::Included(_) => Exit::Done,
        VerdictModel::Excluded { .. } => Exit::Rejected,
        VerdictModel::Unclassified(_) => Exit::Degraded,
        VerdictModel::Opaque(_) => Exit::Failed,
    }
}

/// How serious a verdict is; zero is safe.
pub open spec fn severity_of(verdict: VerdictModel) -> int {
    match verdict {
        VerdictModel::Outside => 0,
        VerdictModel::Included(_) => 0,
        VerdictModel::Unclassified(_) => 1,
        VerdictModel::Opaque(_) => 2,
        VerdictModel::Excluded { .. } => 3,
    }
}

impl Verdict {
    /// The exit this verdict alone would produce.
    pub fn exit(&self) -> (exit: Exit)
        ensures
            exit == verdict_exit(self@),
    {
        match self {
            Verdict::Outside => Exit::Done,
            Verdict::Included(_) => Exit::Done,
            Verdict::Excluded { .. } => Exit::Rejected,
            Verdict::Unclassified(_) => Exit::Degraded,
            Verdict::Opaque(_) => Exit::Failed,
        }
    }

    /// How serious this is, so a report ends on the worst thing it found.
    pub fn severity(&self) -> (severity: u8)
        ensures
            severity == severity_of(self@),
    {
        match self {
            Verdict::Outside => 0,
            Verdict::Included(_) => 0,
            Verdict::Unclassified(_) => 1,
            Verdict::Opaque(_) => 2,
            Verdict::Excluded { .. } => 3,
        }
    }
}

/// Why a path under the root with nothing in the tree behind it is refused.
pub const NOT_IN_THE_TREE: &'static str =
    "it is under the memory root and not in the tree, so what it points at cannot be checked";

/// The first forbidden place one place is at or inside, as the verdict it calls for.
pub open spec fn first_forbidden(place: PlaceModel, list: Seq<Forbidden>) -> Option<VerdictModel>
    decreases list.len(),
{
    if list.len() == 0 {
        None
    } else {
        match place_within(place, list[0].place@) {
            Some(reach) => Some(
                VerdictModel::Excluded {
                    entry: list[0].entry@,
                    at: Some(list[0].place.said@),
                    reach,
                },
            ),
            None => first_forbidden(place, list.skip(1)),
        }
    }
}

/// What a place that is in no forbidden one comes to.
pub open spec fn unforbidden_verdict(place: PlaceModel, root: PlaceModel, manifest: Seq<Entry>) ->
    VerdictModel {
    match place_under(place, root) {
        None => VerdictModel::Outside,
        Some(component) => if place.real is None {
            VerdictModel::Opaque(NOT_IN_THE_TREE@)
        } else {
            let name = utf8_lossy(component);
            match entry_named(manifest, name) {
                None => VerdictModel::Unclassified(name),
                Some(entry) => if entry.included {
                    VerdictModel::Included(entry)
                } else {
                    VerdictModel::Excluded { entry, at: None, reach: Reach::Spelling }
                },
            }
        },
    }
}

/// What the manifest says about one candidate path: the exclusions first and by either reading, and
/// then the entry it is under.
pub open spec fn verdict_of(ground: Ground, candidate: Seq<u8>, resolution: Resolution) ->
    VerdictModel {
    match place_of(ground.base@, candidate, resolution) {
        None => VerdictModel::Opaque(
            "the filesystem would not resolve it: "@ + (match resolution {
                Resolution::Refused(cause) => cause@,
                _ => ""@,
            }),
        ),
        Some(place) => match first_forbidden(place, ground.forbidden@) {
            Some(verdict) => verdict,
            None => unforbidden_verdict(place, ground.root@, ground.manifest@),
        },
    }
}

impl Ground {
    /// What the manifest says about one candidate path.
    pub fn classify(&self, candidate: &OsPath, resolution: &Resolution) -> (verdict: Verdict)
        ensures
            verdict@ == verdict_of(*self, candidate@, *resolution),
    {
        let place = match Place::of(&self.base, candidate, resolution) {
            Ok(place) => place,
            Err(cause) => {
                return Verdict::Opaque(
                    String::from_str("the filesystem would not resolve it: ").concat(
                        cause.as_str(),
                    ),
                );
            },
        };
        let mut i: usize = 0;
        assert(self.forbidden@.skip(0) =~= self.forbidden@);
        while i < self.forbidden.len()
            invariant
                i <= self.forbidden@.len(),
                first_forbidden(place@, self.forbidden@) == first_forbidden(
                    place@,
                    self.forbidden@.skip(i as int),
                ),
                place_of(self.base@, candidate@, *resolution) == Some(place@),
            decreases self.forbidden@.len() - i,
        {
            assert(self.forbidden@.skip(i as int)[0] == self.forbidden@[i as int]);
            assert(self.forbidden@.skip(i as int).skip(1) =~= self.forbidden@.skip(i + 1));
            let forbidden = &self.forbidden[i];
            if let Some(reach) = place.within(&forbidden.place) {
                return Verdict::Excluded {
                    entry: forbidden.entry.copied(),
                    at: Some(forbidden.place.said.copied()),
                    reach,
                };
            }
            i += 1;
        }
        match place.under(&self.root) {
            None => Verdict::Outside,
            Some(name) => {
                if place.real.is_none() {
                    return Verdict::Opaque(String::from_str(NOT_IN_THE_TREE));
                }
                match manifest_entry(&self.manifest, name.as_str()) {
                    None => Verdict::Unclassified(name),
                    Some(entry) => {
                        if entry.included {
                            Verdict::Included(entry)
                        } else {
                            Verdict::Excluded { entry, at: None, reach: Reach::Spelling }
                        }
                    },
                }
            },
        }
    }
}

} // verus!
