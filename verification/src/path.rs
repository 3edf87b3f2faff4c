//! Paths, as the bytes the operating system holds them in.

use vstd::prelude::*;
use vstd::string::*;
use vstd::utf8::*;

use crate::text::{first_of, lemma_first_of};

verus! {

/// The text that `String::from_utf8_lossy` makes of some bytes.
pub uninterp spec fn utf8_lossy(bytes: Seq<u8>) -> Seq<char>;

/// `String::from_utf8_lossy`: the text of the bytes, with one replacement character for each run of
/// them that is not UTF-8. Bytes that are UTF-8 throughout come back as the text they encode, and no
/// bytes come back as more characters than they are.
#[verifier::external_body]
pub(crate) fn lossy_text(bytes: &[u8]) -> (text: String)
    ensures
        text@ == utf8_lossy(bytes@),
        valid_utf8(bytes@) ==> text@ == decode_utf8(bytes@),
        text@.len() <= bytes@.len(),
{
    String::from_utf8_lossy(bytes).into_owned()
}

/// A path on the local machine.
#[derive(Debug, Clone, PartialEq, Eq)]
pub struct OsPath {
    /// The path, byte for byte.
    pub bytes: Vec<u8>,
}

impl View for OsPath {
    type V = Seq<u8>;

    open spec fn view(&self) -> Seq<u8> {
        self.bytes@
    }
}

/// The byte between two components of a path.
pub const SEPARATOR: u8 = 47;

/// The bytes of a copied slice.
pub fn copied_bytes(bytes: &[u8]) -> (copy: Vec<u8>)
    ensures
        copy@ == bytes@,
{
    let mut copy: Vec<u8> = Vec::new();
    let mut i: usize = 0;
    while i < bytes.len()
        invariant
            i <= bytes@.len(),
            copy@ =~= bytes@.take(i as int),
        decreases bytes@.len() - i,
    {
        copy.push(bytes[i]);
        i += 1;
    }
    assert(bytes@.take(bytes@.len() as int) =~= bytes@);
    copy
}

/// What joining a relative name onto a base gives: an absolute name replaces the base, and a
/// separator is added only where the base does not already end in one.
pub open spec fn joined(base: Seq<u8>, name: Seq<u8>) -> Seq<u8> {
    if name.len() > 0 && name[0] == SEPARATOR {
        name
    } else if base.len() == 0 || base.last() == SEPARATOR {
        base + name
    } else {
        base.push(SEPARATOR) + name
    }
}

impl OsPath {
    /// The path a text spells.
    pub fn from_text(text: &str) -> (path: OsPath)
        ensures
            path@ == encode_utf8(text@),
    {
        OsPath { bytes: copied_bytes(text.as_bytes()) }
    }

    /// The same path again.
    pub fn copied(&self) -> (copy: OsPath)
        ensures
            copy@ == self@,
    {
        OsPath { bytes: copied_bytes(self.bytes.as_slice()) }
    }

    /// The path as text, for a message.
    pub fn display(&self) -> (text: String)
        ensures
            text@ == utf8_lossy(self@),
            valid_utf8(self@) ==> text@ == decode_utf8(self@),
    {
        lossy_text(self.bytes.as_slice())
    }

    /// This path with `name` below it.
    pub fn join(&self, name: &OsPath) -> (path: OsPath)
        ensures
            path@ == joined(self@, name@),
    {
        let count: usize = self.bytes.len();
        if name.bytes.len() > 0 && name.bytes[0] == SEPARATOR {
            return name.copied();
        }
        let mut bytes: Vec<u8> = copied_bytes(self.bytes.as_slice());
        if count > 0 && self.bytes[count - 1] != SEPARATOR {
            bytes.push(SEPARATOR);
        }
        let mut tail: Vec<u8> = copied_bytes(name.bytes.as_slice());
        bytes.append(&mut tail);
        OsPath { bytes }
    }
}

// ---------------------------------------------------------------------------------------------
// Components

/// The byte strings a list of them holds.
pub open spec fn byte_lists(list: Seq<Vec<u8>>) -> Seq<Seq<u8>> {
    list.map_values(|bytes: Vec<u8>| bytes@)
}

/// Whether a piece between two separators names something: an empty one and `.` do not.
pub open spec fn names_something(piece: Seq<u8>) -> bool {
    piece.len() > 0 && piece != seq![46u8]
}

/// The component that goes one directory up: `..`.
pub open spec fn parent_name() -> Seq<u8> {
    seq![46u8, 46u8]
}

/// The pieces between the separators of a path that name something, in order.
pub open spec fn names(path: Seq<u8>) -> Seq<Seq<u8>>
    decreases path.len(),
{
    let at = first_of(path, SEPARATOR, 0);
    let piece = path.take(at);
    let rest = if 0 <= at < path.len() {
        names(path.skip(at + 1))
    } else {
        seq![]
    };
    if names_something(piece) {
        seq![piece] + rest
    } else {
        rest
    }
}

/// Whether a path starts at the root.
pub open spec fn is_absolute(path: Seq<u8>) -> bool {
    path.len() > 0 && path[0] == SEPARATOR
}

/// The component that stays where it is: `.`.
pub open spec fn here_name() -> Seq<u8> {
    seq![46u8]
}

/// Whether a path says that it starts where it is read: its first piece is `.`.
pub open spec fn starts_here(path: Seq<u8>) -> bool {
    path.len() > 0 && path[0] == 46 && (path.len() == 1 || path[1] == SEPARATOR)
}

/// The components of a path: the root where it starts there, a `.` where it starts with one, and then
/// every name. A `.` anywhere else is no component.
pub open spec fn components(path: Seq<u8>) -> Seq<Seq<u8>> {
    if is_absolute(path) {
        seq![seq![SEPARATOR]] + names(path)
    } else if starts_here(path) {
        seq![here_name()] + names(path)
    } else {
        names(path)
    }
}

/// Where a walk along some names ends, as names: `..` undoes the name before it, and does nothing
/// where there is none.
pub open spec fn walked(list: Seq<Seq<u8>>) -> Seq<Seq<u8>>
    decreases list.len(),
{
    if list.len() == 0 {
        seq![]
    } else {
        let before = walked(list.drop_last());
        if list.last() == parent_name() {
            if before.len() == 0 {
                before
            } else {
                before.drop_last()
            }
        } else {
            before.push(list.last())
        }
    }
}

/// The path some names spell, from the root or from nowhere.
pub open spec fn spelled(absolute: bool, list: Seq<Seq<u8>>) -> Seq<u8>
    decreases list.len(),
{
    if list.len() == 0 {
        if absolute {
            seq![SEPARATOR]
        } else {
            seq![]
        }
    } else {
        joined(spelled(absolute, list.drop_last()), list.last())
    }
}

/// A path made absolute on `base` and reduced by its spelling alone.
pub open spec fn reduced_path(base: Seq<u8>, path: Seq<u8>) -> Seq<u8> {
    let whole = joined(base, path);
    spelled(is_absolute(whole), walked(names(whole)))
}

/// Whether `path` is `outer` or lies inside it, component by component.
pub open spec fn path_within(path: Seq<u8>, outer: Seq<u8>) -> bool {
    components(outer).is_prefix_of(components(path))
}

/// The first component of `path` below `root`, if it is below it.
pub open spec fn first_below(root: Seq<u8>, path: Seq<u8>) -> Option<Seq<u8>> {
    if path_within(path, root) && components(path).len() > components(root).len() {
        Some(components(path)[components(root).len() as int])
    } else {
        None
    }
}

fn is_parent(piece: &Vec<u8>) -> (is: bool)
    ensures
        is == (piece@ == parent_name()),
{
    let is: bool = piece.len() == 2 && piece[0] == 46 && piece[1] == 46;
    proof {
        if is {
            assert(piece@ =~= parent_name());
        }
    }
    is
}

fn same_bytes(a: &Vec<u8>, b: &Vec<u8>) -> (same: bool)
    ensures
        same == (a@ == b@),
{
    if a.len() != b.len() {
        return false;
    }
    let mut i: usize = 0;
    while i < a.len()
        invariant
            i <= a@.len(),
            a@.len() == b@.len(),
            forall|k: int| 0 <= k < i ==> a@[k] == b@[k],
        decreases a@.len() - i,
    {
        if a[i] != b[i] {
            return false;
        }
        i += 1;
    }
    assert(a@ =~= b@);
    true
}

fn names_of(path: &Vec<u8>) -> (list: Vec<Vec<u8>>)
    ensures
        byte_lists(list@) == names(path@),
{
    let mut list: Vec<Vec<u8>> = Vec::new();
    let mut start: usize = 0;
    assert(path@.skip(0) =~= path@);
    assert(byte_lists(list@) + names(path@) =~= names(path@));
    loop
        invariant_except_break
            start <= path@.len(),
            byte_lists(list@) + names(path@.skip(start as int)) == names(path@),
        ensures
            byte_lists(list@) == names(path@),
        decreases path@.len() - start,
    {
        let ghost rest = path@.skip(start as int);
        let ghost before = list@;
        let mut end: usize = start;
        let mut piece: Vec<u8> = Vec::new();
        while end < path.len() && path[end] != SEPARATOR
            invariant
                start <= end <= path@.len(),
                rest == path@.skip(start as int),
                piece@ =~= path@.subrange(start as int, end as int),
                first_of(rest, SEPARATOR, 0) == first_of(rest, SEPARATOR, end - start),
            decreases path@.len() - end,
        {
            assert(rest[end - start] == path@[end as int]);
            piece.push(path[end]);
            end += 1;
        }
        proof {
            if end < path@.len() {
                assert(rest[end - start] == path@[end as int]);
            }
            assert(first_of(rest, SEPARATOR, 0) == end - start);
            assert(rest.take(end - start) =~= piece@);
            if piece@.len() == 1 && piece@[0] == 46 {
                assert(piece@ =~= seq![46u8]);
            }
            if end < path@.len() {
                assert(rest.skip(end - start + 1) =~= path@.skip(end + 1));
            }
        }
        let ghost named = piece@;
        let ghost tail: Seq<Seq<u8>> = if end < path@.len() {
            names(path@.skip(end + 1))
        } else {
            seq![]
        };
        if piece.len() > 0 && !(piece.len() == 1 && piece[0] == 46) {
            assert(names_something(named));
            list.push(piece);
            assert(byte_lists(list@) =~= byte_lists(before).push(named));
            assert(names(rest) == seq![named] + tail);
            assert(byte_lists(list@) + tail =~= byte_lists(before) + names(rest));
        } else {
            assert(names(rest) == tail);
        }
        if end == path.len() {
            assert(byte_lists(list@) + tail =~= byte_lists(list@));
            break;
        }
        start = end + 1;
    }
    list
}

fn components_of(path: &OsPath) -> (list: Vec<Vec<u8>>)
    ensures
        byte_lists(list@) == components(path@),
{
    let bytes = &path.bytes;
    let mut rest = names_of(bytes);
    let mut first: Vec<u8> = Vec::new();
    if bytes.len() > 0 && bytes[0] == SEPARATOR {
        first.push(SEPARATOR);
        assert(first@ =~= seq![SEPARATOR]);
    } else if bytes.len() > 0 && bytes[0] == 46 && (bytes.len() == 1 || bytes[1] == SEPARATOR) {
        first.push(46);
        assert(first@ =~= here_name());
    } else {
        return rest;
    }
    let ghost start = first@;
    let ghost all = rest@;
    let mut list: Vec<Vec<u8>> = Vec::new();
    list.push(first);
    list.append(&mut rest);
    assert(byte_lists(list@) =~= seq![start] + byte_lists(all));
    list
}

fn walk(list: Vec<Vec<u8>>) -> (end: Vec<Vec<u8>>)
    ensures
        byte_lists(end@) == walked(byte_lists(list@)),
{
    let mut end: Vec<Vec<u8>> = Vec::new();
    let mut i: usize = 0;
    assert(byte_lists(end@) =~= walked(byte_lists(list@).take(0)));
    while i < list.len()
        invariant
            i <= list@.len(),
            byte_lists(end@) == walked(byte_lists(list@).take(i as int)),
        decreases list@.len() - i,
    {
        let ghost before = end@;
        proof {
            assert(byte_lists(list@).take(i + 1).drop_last() =~= byte_lists(list@).take(i as int));
            assert(byte_lists(list@).take(i + 1).last() == list@[i as int]@);
        }
        if is_parent(&list[i]) {
            if end.len() > 0 {
                let _ = end.pop();
                assert(byte_lists(end@) =~= byte_lists(before).drop_last());
            }
        } else {
            end.push(copied_bytes(list[i].as_slice()));
            assert(byte_lists(end@) =~= byte_lists(before).push(list@[i as int]@));
        }
        i += 1;
    }
    assert(byte_lists(list@).take(list@.len() as int) =~= byte_lists(list@));
    end
}

fn spell(absolute: bool, list: &Vec<Vec<u8>>) -> (path: OsPath)
    ensures
        path@ == spelled(absolute, byte_lists(list@)),
{
    let mut path = OsPath { bytes: Vec::new() };
    if absolute {
        path.bytes.push(SEPARATOR);
    }
    let mut i: usize = 0;
    assert(path@ =~= spelled(absolute, byte_lists(list@).take(0)));
    while i < list.len()
        invariant
            i <= list@.len(),
            path@ == spelled(absolute, byte_lists(list@).take(i as int)),
        decreases list@.len() - i,
    {
        proof {
            assert(byte_lists(list@).take(i + 1).drop_last() =~= byte_lists(list@).take(i as int));
            assert(byte_lists(list@).take(i + 1).last() == list@[i as int]@);
        }
        let name = OsPath { bytes: copied_bytes(list[i].as_slice()) };
        path = path.join(&name);
        i += 1;
    }
    assert(byte_lists(list@).take(list@.len() as int) =~= byte_lists(list@));
    path
}

/// A path made absolute and reduced by its spelling, without asking the filesystem anything.
pub fn reduced(base: &OsPath, path: &OsPath) -> (out: OsPath)
    ensures
        out@ == reduced_path(base@, path@),
{
    let whole = base.join(path);
    let absolute: bool = whole.bytes.len() > 0 && whole.bytes[0] == SEPARATOR;
    let end = walk(names_of(&whole.bytes));
    spell(absolute, &end)
}

fn is_start_of(short: &Vec<Vec<u8>>, long: &Vec<Vec<u8>>) -> (is: bool)
    ensures
        is == byte_lists(short@).is_prefix_of(byte_lists(long@)),
{
    if short.len() > long.len() {
        return false;
    }
    let mut i: usize = 0;
    while i < short.len()
        invariant
            i <= short@.len() <= long@.len(),
            forall|k: int| 0 <= k < i ==> #[trigger] short@[k]@ == long@[k]@,
        decreases short@.len() - i,
    {
        if !same_bytes(&short[i], &long[i]) {
            proof {
                let cut = byte_lists(long@).subrange(0, short@.len() as int);
                assert(byte_lists(short@)[i as int] != cut[i as int]);
            }
            return false;
        }
        i += 1;
    }
    assert(byte_lists(short@) =~= byte_lists(long@).subrange(0, short@.len() as int));
    true
}

/// Whether a path is one of `list`, by its components.
pub open spec fn among(path: Seq<u8>, list: Seq<OsPath>) -> bool {
    exists|i: int| 0 <= i < list.len() && same_place(path, (#[trigger] list[i])@)
}

/// Whether two paths have the same components.
pub open spec fn same_place(a: Seq<u8>, b: Seq<u8>) -> bool {
    components(a) == components(b)
}

impl OsPath {
    /// Whether two paths have the same components.
    pub fn is_same(&self, other: &OsPath) -> (is: bool)
        ensures
            is == same_place(self@, other@),
    {
        let mine = components_of(self);
        let theirs = components_of(other);
        let is: bool = mine.len() == theirs.len() && is_start_of(&mine, &theirs);
        proof {
            assert(components(self@).len() == mine@.len());
            assert(components(other@).len() == theirs@.len());
            if mine@.len() == theirs@.len() {
                assert(components(other@).subrange(0, mine@.len() as int) =~= components(other@));
            }
            if is {
                assert(components(self@) =~= components(other@));
            }
        }
        is
    }

    /// Whether this path is one of `list`, by its components.
    pub fn is_among(&self, list: &Vec<OsPath>) -> (is: bool)
        ensures
            is == among(self@, list@),
    {
        let mut i: usize = 0;
        while i < list.len()
            invariant
                i <= list@.len(),
                forall|k: int| 0 <= k < i ==> !same_place(self@, (#[trigger] list@[k])@),
            decreases list@.len() - i,
        {
            if self.is_same(&list[i]) {
                return true;
            }
            i += 1;
        }
        false
    }

    /// Whether this path is `outer` or lies inside it, component by component.
    pub fn starts_with(&self, outer: &OsPath) -> (does: bool)
        ensures
            does == path_within(self@, outer@),
    {
        is_start_of(&components_of(outer), &components_of(self))
    }
}

/// The first path component of `path` below `root`, as text, or `None` when `path` is not below it.
pub fn first_under(root: &OsPath, path: &OsPath) -> (name: Option<String>)
    ensures
        match (name, first_below(root@, path@)) {
            (Some(text), Some(component)) => text@ == utf8_lossy(component),
            (None, None) => true,
            _ => false,
        },
{
    let outer = components_of(root);
    let inner = components_of(path);
    if is_start_of(&outer, &inner) && inner.len() > outer.len() {
        assert(components(path@)[outer@.len() as int] == inner@[outer@.len() as int]@);
        Some(lossy_text(inner[outer.len()].as_slice()))
    } else {
        None
    }
}

// ---------------------------------------------------------------------------------------------
// What holds of every reduction

/// Whether a piece can stand between two separators and name something.
spec fn plain(piece: Seq<u8>) -> bool {
    names_something(piece) && !piece.contains(SEPARATOR)
}

spec fn all_plain(list: Seq<Seq<u8>>) -> bool {
    forall|i: int| 0 <= i < list.len() ==> plain(#[trigger] list[i])
}

/// Whether no name in a list goes up.
spec fn never_up(list: Seq<Seq<u8>>) -> bool {
    forall|i: int| 0 <= i < list.len() ==> #[trigger] list[i] != parent_name()
}

proof fn lemma_names_are_plain(path: Seq<u8>)
    ensures
        all_plain(names(path)),
    decreases path.len(),
{
    lemma_first_of(path, SEPARATOR, 0);
    let at = first_of(path, SEPARATOR, 0);
    let piece = path.take(at);
    if at < path.len() {
        lemma_names_are_plain(path.skip(at + 1));
    }
    let rest: Seq<Seq<u8>> = if at < path.len() {
        names(path.skip(at + 1))
    } else {
        seq![]
    };
    if names_something(piece) {
        assert(!piece.contains(SEPARATOR)) by {
            if piece.contains(SEPARATOR) {
                let k = choose|k: int| 0 <= k < piece.len() && piece[k] == SEPARATOR;
                assert(path[k] == SEPARATOR);
            }
        }
        assert forall|i: int| 0 <= i < names(path).len() implies plain(#[trigger] names(path)[i]) by {
            if i > 0 {
                assert(names(path)[i] == rest[i - 1]);
            }
        }
    }
}

proof fn lemma_walk_is_plain(list: Seq<Seq<u8>>)
    requires
        all_plain(list),
    ensures
        all_plain(walked(list)),
        never_up(walked(list)),
    decreases list.len(),
{
    if list.len() > 0 {
        assert(all_plain(list.drop_last())) by {
            assert forall|i: int| 0 <= i < list.drop_last().len() implies plain(
                #[trigger] list.drop_last()[i],
            ) by {
                assert(list.drop_last()[i] == list[i]);
            }
        }
        lemma_walk_is_plain(list.drop_last());
        assert(plain(list[list.len() - 1]));
    }
}

proof fn lemma_walk_stays(list: Seq<Seq<u8>>)
    requires
        never_up(list),
    ensures
        walked(list) == list,
    decreases list.len(),
{
    if list.len() > 0 {
        let before = list.drop_last();
        assert(never_up(before)) by {
            assert forall|i: int| 0 <= i < before.len() implies #[trigger] before[i]
                != parent_name() by {
                assert(before[i] == list[i]);
            }
        }
        lemma_walk_stays(before);
        assert(list[list.len() - 1] != parent_name());
        assert(before.push(list.last()) =~= list);
    } else {
        assert(walked(list) =~= list);
    }
}

proof fn lemma_first_of_joined(a: Seq<u8>, b: Seq<u8>, i: int)
    requires
        0 <= i <= a.len(),
    ensures
        first_of(a.push(SEPARATOR) + b, SEPARATOR, i) == first_of(a, SEPARATOR, i),
    decreases a.len() - i,
{
    let whole = a.push(SEPARATOR) + b;
    if i < a.len() {
        assert(whole[i] == a[i]);
        if a[i] != SEPARATOR {
            lemma_first_of_joined(a, b, i + 1);
        }
    } else {
        assert(whole[i] == SEPARATOR);
    }
}

proof fn lemma_names_joined(a: Seq<u8>, b: Seq<u8>)
    ensures
        names(a.push(SEPARATOR) + b) == names(a) + names(b),
    decreases a.len(),
{
    let whole = a.push(SEPARATOR) + b;
    lemma_first_of(a, SEPARATOR, 0);
    lemma_first_of_joined(a, b, 0);
    let at = first_of(a, SEPARATOR, 0);
    assert(whole.take(at) =~= a.take(at));
    if at < a.len() {
        lemma_names_joined(a.skip(at + 1), b);
        assert(whole.skip(at + 1) =~= a.skip(at + 1).push(SEPARATOR) + b);
        assert(names(whole) =~= names(a) + names(b));
    } else {
        assert(whole.skip(at + 1) =~= b);
        assert(names(whole) =~= names(a) + names(b));
    }
}

proof fn lemma_plain_is_one_name(piece: Seq<u8>)
    requires
        plain(piece),
    ensures
        names(piece) == seq![piece],
{
    lemma_first_of(piece, SEPARATOR, 0);
    let at = first_of(piece, SEPARATOR, 0);
    if at < piece.len() {
        assert(piece.contains(SEPARATOR));
    }
    assert(piece.take(at) =~= piece);
    assert(names(piece) =~= seq![piece]);
}

proof fn lemma_spelled_names(list: Seq<Seq<u8>>)
    requires
        all_plain(list),
    ensures
        names(spelled(true, list)) == list,
        is_absolute(spelled(true, list)),
        list.len() > 0 ==> spelled(true, list).last() != SEPARATOR,
        spelled(true, list).len() > 0,
    decreases list.len(),
{
    let root: Seq<u8> = seq![SEPARATOR];
    if list.len() == 0 {
        assert(first_of(root, SEPARATOR, 0) == 0);
        assert(root.take(0) =~= seq![]);
        assert(root.skip(1) =~= seq![]);
        let none: Seq<u8> = seq![];
        assert(first_of(none, SEPARATOR, 0) == 0);
        assert(none.take(0) =~= none);
        assert(names(none) =~= seq![]);
        assert(names(root) =~= list);
    } else {
        let before = list.drop_last();
        let last = list.last();
        assert(all_plain(before)) by {
            assert forall|i: int| 0 <= i < before.len() implies plain(#[trigger] before[i]) by {
                assert(before[i] == list[i]);
            }
        }
        assert(plain(list[list.len() - 1]));
        lemma_spelled_names(before);
        lemma_plain_is_one_name(last);
        let short = spelled(true, before);
        assert(last[0] != SEPARATOR) by {
            if last[0] == SEPARATOR {
                assert(last.contains(SEPARATOR));
            }
        }
        assert(last[last.len() - 1] != SEPARATOR) by {
            if last[last.len() - 1] == SEPARATOR {
                assert(last.contains(SEPARATOR));
            }
        }
        if before.len() == 0 {
            let none: Seq<u8> = seq![];
            assert(none.push(SEPARATOR) =~= root);
            assert(short + last =~= none.push(SEPARATOR) + last);
            lemma_names_joined(none, last);
            assert(first_of(none, SEPARATOR, 0) == 0);
            assert(none.take(0) =~= none);
            assert(names(none) =~= seq![]);
        } else {
            lemma_names_joined(short, last);
        }
        assert(names(spelled(true, list)) =~= list);
    }
}

/// A reduction goes nowhere when it is reduced again, whatever it is reduced against, and no `..`
/// is left in it: two spellings of one place that differ by `.` and `..` alone are one path.
pub proof fn law_reduction_is_stable(base: Seq<u8>, path: Seq<u8>, other: Seq<u8>)
    requires
        is_absolute(joined(base, path)),
    ensures
        is_absolute(reduced_path(base, path)),
        names(reduced_path(base, path)) == walked(names(joined(base, path))),
        forall|i: int|
            0 <= i < names(reduced_path(base, path)).len() ==> #[trigger] names(
                reduced_path(base, path),
            )[i] != parent_name(),
        reduced_path(other, reduced_path(base, path)) == reduced_path(base, path),
{
    let whole = joined(base, path);
    let list = walked(names(whole));
    lemma_names_are_plain(whole);
    lemma_walk_is_plain(names(whole));
    lemma_spelled_names(list);
    lemma_walk_stays(list);
    assert(joined(other, reduced_path(base, path)) == reduced_path(base, path));
}

/// A name and the `..` after it undo each other, so `records/../keystore` is `keystore`.
pub proof fn law_up_undoes_down(before: Seq<Seq<u8>>, name: Seq<u8>)
    requires
        name != parent_name(),
    ensures
        walked(before.push(name).push(parent_name())) == walked(before),
{
    let down = before.push(name);
    let up = down.push(parent_name());
    assert(up.drop_last() =~= down);
    assert(down.drop_last() =~= before);
    assert(walked(down).drop_last() =~= walked(before));
}

/// What stands below a path is below it by name: joining a relative name adds its names after those of
/// the base, and nothing is lost; a name that starts at the root stands alone.
pub proof fn law_joining_adds_names(base: Seq<u8>, name: Seq<u8>)
    ensures
        name.len() > 0 && name[0] == 47 ==> joined(base, name) == name,
        !(name.len() > 0 && name[0] == 47) ==> names(joined(base, name)) == names(base) + names(name),
        !(name.len() > 0 && name[0] == 47) ==> base.is_prefix_of(joined(base, name)),
        !(name.len() > 0 && name[0] == 47) && base.len() > 0 && base.last() != 47 ==> joined(
            base,
            name,
        ) == base + seq![47u8] + name,
{
    if !(name.len() > 0 && name[0] == SEPARATOR) {
        if base.len() == 0 {
            assert(base + name =~= name);
            lemma_first_of(base, SEPARATOR, 0);
            assert(base.take(0) =~= base);
            assert(names(base) =~= seq![]);
            assert(names(base) + names(name) =~= names(name));
        } else if base.last() == SEPARATOR {
            let stem = base.drop_last();
            assert(stem.push(SEPARATOR) =~= base);
            lemma_names_joined(stem, name);
            let none: Seq<u8> = seq![];
            lemma_names_joined(stem, none);
            assert(stem.push(SEPARATOR) + none =~= base);
            assert(first_of(none, SEPARATOR, 0) == 0);
            assert(none.take(0) =~= none);
            assert(names(none) =~= seq![]);
            assert(names(stem) + names(none) =~= names(stem));
        } else {
            lemma_names_joined(base, name);
            assert(base.push(SEPARATOR) =~= base + seq![47u8]);
        }
        assert(base =~= joined(base, name).subrange(0, base.len() as int));
    }
}

/// Standing within is by whole names: every path stands within itself and within what that stands
/// within, two that stand within each other are one place, and what is first below a root is a name
/// that the rest of the path follows.
pub proof fn law_within_is_by_whole_names(a: Seq<u8>, b: Seq<u8>, c: Seq<u8>)
    ensures
        path_within(a, a),
        path_within(a, b) && path_within(b, c) ==> path_within(a, c),
        path_within(a, b) && path_within(b, a) <==> same_place(a, b),
        same_place(a, b) <==> components(a) == components(b),
        path_within(a, b) <==> components(b).len() <= components(a).len() && forall|i: int|
            0 <= i < components(b).len() ==> #[trigger] components(b)[i] == components(a)[i],
        first_below(b, a) is Some <==> path_within(a, b) && !same_place(a, b),
        first_below(b, a) matches Some(name) ==> components(b).push(name).is_prefix_of(
            components(a),
        ),
{
    let x = components(a);
    let y = components(b);
    let z = components(c);
    assert(x =~= x.subrange(0, x.len() as int));
    if path_within(a, b) {
        assert forall|i: int| 0 <= i < y.len() implies #[trigger] y[i] == x[i] by {
            assert(y[i] == x.subrange(0, y.len() as int)[i]);
        }
        if path_within(b, a) {
            assert(x =~= y);
        }
        if path_within(b, c) {
            assert forall|i: int| 0 <= i < z.len() implies z[i] == x[i] by {
                assert(z[i] == y.subrange(0, z.len() as int)[i]);
                assert(y[i] == x[i]);
            }
            assert(z =~= x.subrange(0, z.len() as int));
        }
        if x.len() > y.len() {
            assert(y.push(x[y.len() as int]) =~= x.subrange(0, y.len() as int + 1));
        } else {
            assert(x =~= y);
        }
    }
    if y.len() <= x.len() && (forall|i: int| 0 <= i < y.len() ==> #[trigger] y[i] == x[i]) {
        assert(y =~= x.subrange(0, y.len() as int));
    }
}

/// A path that starts at the root is never the place of one that does not.
pub proof fn law_absolute_and_relative_are_told_apart(a: Seq<u8>, b: Seq<u8>)
    requires
        is_absolute(a),
        !is_absolute(b),
    ensures
        a[0] == 47,
        !same_place(a, b),
        !path_within(b, a),
{
    let x = components(a);
    let y = components(b);
    assert(x[0] == seq![SEPARATOR]);
    if y.len() > 0 {
        lemma_names_are_plain(b);
        if starts_here(b) {
            assert(y[0] == here_name());
            assert(here_name()[0] == 46);
            assert(x[0][0] == SEPARATOR);
        } else {
            assert(plain(names(b)[0]));
            assert(x[0].contains(SEPARATOR)) by {
                assert(x[0][0] == SEPARATOR);
            }
        }
    }
    if path_within(b, a) {
        assert(x[0] == y.subrange(0, x.len() as int)[0]);
    }
}

/// A name is itself: a piece without a separator that is neither empty nor the directory it stands in is
/// the one name of its path, and those two are no name at all.
pub proof fn law_a_name_is_itself(piece: Seq<u8>)
    requires
        !piece.contains(47),
    ensures
        piece.len() > 0 && piece != seq![46u8] ==> names(piece) == seq![piece],
        piece.len() == 0 || piece == seq![46u8] ==> names(piece).len() == 0,
{
    lemma_first_of(piece, SEPARATOR, 0);
    let at = first_of(piece, SEPARATOR, 0);
    if at < piece.len() {
        assert(piece[at] == 47);
    }
    assert(piece.take(at) =~= piece);
    if names_something(piece) {
        assert(names(piece) =~= seq![piece]);
    }
}

/// A path is among others where it is the place of one of them.
pub proof fn law_among_is_one_of_them(path: Seq<u8>, list: Seq<OsPath>, last: OsPath)
    ensures
        !among(path, Seq::<OsPath>::empty()),
        among(path, list.push(last)) <==> among(path, list) || same_place(path, last@),
{
    let all = list.push(last);
    if among(path, list) {
        let i = choose|i: int| 0 <= i < list.len() && same_place(path, (#[trigger] list[i])@);
        assert(all[i] == list[i]);
    }
    if same_place(path, last@) {
        assert(all[list.len() as int] == last);
    }
    if among(path, all) {
        let i = choose|i: int| 0 <= i < all.len() && same_place(path, (#[trigger] all[i])@);
        if i < list.len() {
            assert(list[i] == all[i]);
        }
    }
}

/// A path that says it starts here keeps saying so, and no other path does: its components are its
/// names, after the root where it starts there and after the directory it stands in where it starts
/// with that.
pub proof fn law_components_are_names_after_the_start(path: Seq<u8>)
    ensures
        path.len() > 0 && path[0] == 47 ==> components(path) == seq![seq![47u8]] + names(path),
        path == seq![46u8] || (path.len() > 1 && path[0] == 46 && path[1] == 47) ==> components(path)
            == seq![seq![46u8]] + names(path),
        !(path.len() > 0 && path[0] == 47) && path != seq![46u8] && !(path.len() > 1 && path[0] == 46
            && path[1] == 47) ==> components(path) == names(path),
{
    if path.len() == 1 && path[0] == 46 {
        assert(path =~= seq![46u8]);
    }
}

} // verus!
