//! Unix paths as bytes: which are absolute, which name the same file, and what their parts are.

use vstd::prelude::*;

use crate::sequence::{copy_bytes, same_bytes, Valued};

verus! {

/// The byte that separates the parts of a path.
pub const SEPARATOR: u8 = 47;

/// One Unix path, kept as the bytes that were given.
pub struct UnixPath {
    pub bytes: Vec<u8>,
}

impl View for UnixPath {
    type V = Seq<u8>;

    open spec fn view(&self) -> Seq<u8> {
        self.bytes@
    }
}

impl Valued for UnixPath {
    fn copy(&self) -> (copy: Self) {
        UnixPath { bytes: copy_bytes(&self.bytes) }
    }

    fn same(&self, other: &Self) -> (same: bool) {
        same_bytes(&self.bytes, &other.bytes)
    }
}

/// A path that starts at the root.
pub open spec fn absolute(path: Seq<u8>) -> bool {
    path.len() > 0 && path[0] == SEPARATOR
}

/// The position of the first separator at or after `from`, or the end.
pub open spec fn part_end(path: Seq<u8>, from: int) -> int
    decreases path.len() - from,
{
    if from < 0 || from >= path.len() || path[from] == SEPARATOR {
        from
    } else {
        part_end(path, from + 1)
    }
}

/// A part that names nothing: an empty one or the current directory.
pub open spec fn idle_part(part: Seq<u8>) -> bool {
    part.len() == 0 || part == seq![46u8]
}

/// The parent directory.
pub open spec fn parent_part(part: Seq<u8>) -> bool {
    part == seq![46u8, 46u8]
}

/// The parts of a path from one position on, without those that name nothing.
pub open spec fn parts_from(path: Seq<u8>, from: int) -> Seq<Seq<u8>>
    decreases path.len() - from,
{
    if from < 0 || from >= path.len() {
        Seq::empty()
    } else {
        let end = part_end(path, from);
        let part = path.subrange(from, end);
        let rest = if end < from || end >= path.len() {
            Seq::empty()
        } else {
            parts_from(path, end + 1)
        };
        if idle_part(part) {
            rest
        } else {
            seq![part] + rest
        }
    }
}

/// The parts of a path without those that name nothing.
pub open spec fn parts(path: Seq<u8>) -> Seq<Seq<u8>> {
    parts_from(path, 0)
}

/// The bytes of every part.
pub open spec fn part_views(values: Seq<Vec<u8>>) -> Seq<Seq<u8>> {
    Seq::new(values.len(), |i: int| values[i]@)
}

proof fn lemma_part_end(path: Seq<u8>, from: int)
    requires
        0 <= from <= path.len(),
    ensures
        from <= part_end(path, from) <= path.len(),
    decreases path.len() - from,
{
    if from < path.len() && path[from] != SEPARATOR {
        lemma_part_end(path, from + 1);
    }
}

/// Two paths, both absolute or both relative, that lead through the same parts.
pub open spec fn same_file(left: Seq<u8>, right: Seq<u8>) -> bool {
    absolute(left) == absolute(right) && parts(left) == parts(right)
}

/// Copies the bytes of one range.
fn copy_range(bytes: &Vec<u8>, from: usize, end: usize) -> (copy: Vec<u8>)
    requires
        from <= end <= bytes@.len(),
    ensures
        copy@ == bytes@.subrange(from as int, end as int),
{
    let mut copy: Vec<u8> = Vec::new();
    let mut i: usize = from;
    while i < end
        invariant
            from <= i <= end <= bytes@.len(),
            copy@ == bytes@.subrange(from as int, i as int),
        decreases end - i,
    {
        copy.push(bytes[i]);
        assert(copy@ =~= bytes@.subrange(from as int, i + 1));
        i += 1;
    }
    copy
}

fn is_idle(part: &Vec<u8>) -> (idle: bool)
    ensures
        idle == idle_part(part@),
{
    if part.len() == 0 {
        return true;
    }
    let idle = part.len() == 1 && part[0] == 46;
    proof {
        if idle {
            assert(part@ =~= seq![46u8]);
        }
    }
    idle
}

fn is_parent(part: &Vec<u8>) -> (parent: bool)
    ensures
        parent == parent_part(part@),
{
    let parent = part.len() == 2 && part[0] == 46 && part[1] == 46;
    proof {
        if parent {
            assert(part@ =~= seq![46u8, 46u8]);
        }
    }
    parent
}

impl UnixPath {
    /// Keeps the bytes of one path.
    pub fn new(bytes: Vec<u8>) -> (path: UnixPath)
        ensures
            path@ == bytes@,
    {
        UnixPath { bytes }
    }

    /// Returns whether the path starts at the root.
    pub fn is_absolute(&self) -> (is: bool)
        ensures
            is == absolute(self@),
    {
        self.bytes.len() > 0 && self.bytes[0] == SEPARATOR
    }

    /// Returns the parts of the path without those that name nothing.
    #[verifier::loop_isolation(false)]
    pub fn parts(&self) -> (list: Vec<Vec<u8>>)
        ensures
            part_views(list@) == parts(self@),
    {
        let bytes = &self.bytes;
        let length: usize = bytes.len();
        let mut list: Vec<Vec<u8>> = Vec::new();
        let mut from: usize = 0;
        while from < length
            invariant
                from <= length == bytes@.len(),
                part_views(list@) + parts_from(bytes@, from as int) =~= parts(bytes@),
            decreases length - from,
        {
            let mut end: usize = from;
            while end < length && bytes[end] != SEPARATOR
                invariant
                    from <= end <= length == bytes@.len(),
                    part_end(bytes@, end as int) == part_end(bytes@, from as int),
                decreases length - end,
            {
                end += 1;
            }
            proof {
                lemma_part_end(bytes@, from as int);
                assert(part_end(bytes@, from as int) == end);
            }
            let part = copy_range(bytes, from, end);
            let ghost before = list@;
            let ghost value = part@;
            if !is_idle(&part) {
                list.push(part);
                assert(part_views(list@) =~= part_views(before).push(value));
            }
            if end == length {
                assert(parts_from(bytes@, end + 1) =~= Seq::empty());
                assert(parts_from(bytes@, length as int) =~= Seq::empty());
                from = length;
            } else {
                from = end + 1;
            }
        }
        assert(parts_from(bytes@, from as int) =~= Seq::empty());
        list
    }

    /// Returns whether two paths lead through the same parts from the same start.
    #[verifier::loop_isolation(false)]
    pub fn names_same_file(&self, other: &UnixPath) -> (same: bool)
        ensures
            same == same_file(self@, other@),
    {
        if self.is_absolute() != other.is_absolute() {
            return false;
        }
        let left = self.parts();
        let right = other.parts();
        let count: usize = left.len();
        if count != right.len() {
            assert(part_views(left@).len() != part_views(right@).len());
            return false;
        }
        let mut i: usize = 0;
        while i < count
            invariant
                i <= count == left@.len() == right@.len(),
                forall|j: int| 0 <= j < i ==> left@[j]@ == right@[j]@,
            decreases count - i,
        {
            if !same_bytes(&left[i], &right[i]) {
                assert(part_views(left@)[i as int] != part_views(right@)[i as int]);
                return false;
            }
            i += 1;
        }
        assert(part_views(left@) =~= part_views(right@));
        true
    }
}

/// Every path names the same file as itself, and the relation goes both ways and carries over.
pub proof fn law_same_file_is_equivalence(a: Seq<u8>, b: Seq<u8>, c: Seq<u8>)
    ensures
        same_file(a, a),
        same_file(a, b) == same_file(b, a),
        same_file(a, b) && same_file(b, c) ==> same_file(a, c),
{
}

// ---------------------------------------------------------------------------
// Protected paths
// ---------------------------------------------------------------------------

/// Names one closed unsafe or unavailable Unix path without copying its machine value.
#[derive(Clone, Copy, Debug, PartialEq, Eq, Structural)]
pub enum NodePrivateUnixPathError {
    UnsafePath,
}

impl NodePrivateUnixPathError {
    /// The text of the failure.
    pub open spec fn text(self) -> Seq<char> {
        "the private Node Unix path is unsafe"@
    }

    /// Presents fixed path-safety language without revealing the configured path.
    pub fn message(&self) -> (text: String)
        ensures
            text@ == self.text(),
    {
        "the private Node Unix path is unsafe".to_owned()
    }
}

/// A path that can be walked down from the root without ever turning back, to a named file.
pub open spec fn guardable(path: Seq<u8>) -> bool {
    &&& absolute(path)
    &&& parts(path).len() > 0
    &&& forall|i: int| 0 <= i < parts(path).len() ==> !parent_part(#[trigger] parts(path)[i])
}

/// The names of the directories above one guarded path, from the root down.
#[verifier::loop_isolation(false)]
pub fn guarded_components(path: &UnixPath) -> (result: Result<
    Vec<Vec<u8>>,
    NodePrivateUnixPathError,
>)
    ensures
        result is Ok == guardable(path@),
        result matches Ok(names) ==> part_views(names@) == parts(path@).drop_last(),
{
    if !path.is_absolute() {
        return Err(NodePrivateUnixPathError::UnsafePath);
    }
    let mut names = path.parts();
    let count: usize = names.len();
    assert(part_views(names@).len() == count);
    if count == 0 {
        return Err(NodePrivateUnixPathError::UnsafePath);
    }
    let mut i: usize = 0;
    while i < count
        invariant
            i <= count == names@.len(),
            part_views(names@) == parts(path@),
            forall|j: int| 0 <= j < i ==> !parent_part(#[trigger] parts(path@)[j]),
        decreases count - i,
    {
        assert(parts(path@)[i as int] == part_views(names@)[i as int]);
        if is_parent(&names[i]) {
            assert(parent_part(parts(path@)[i as int]));
            return Err(NodePrivateUnixPathError::UnsafePath);
        }
        i += 1;
    }
    let ghost all = names@;
    names.truncate(count - 1);
    assert(part_views(names@) =~= part_views(all).drop_last());
    Ok(names)
}

/// What one opened directory showed.
#[derive(Clone, Copy, Debug, PartialEq, Eq, Structural)]
pub struct DirectoryObservation {
    pub is_directory: bool,
    pub user_id: u32,
    pub mode: u32,
}

/// A directory that only its owner can enter.
pub open spec fn owner_only(directory: DirectoryObservation, owner_user_id: u32) -> bool {
    directory.is_directory && directory.user_id == owner_user_id && directory.mode & 0o077 == 0
}

/// A directory whose entries nobody else can replace: not writable by others, or the root user's
/// with the sticky bit.
pub open spec fn safe_ancestor(directory: DirectoryObservation) -> bool {
    directory.is_directory && (directory.mode & 0o022 == 0 || (directory.user_id == 0
        && directory.mode & 0o1000 != 0))
}

/// Requires safe immutable ancestors and one exact owner-only final parent directory.
pub fn validate_directory(
    directory: DirectoryObservation,
    owner_user_id: u32,
    is_final: bool,
) -> (result: Result<(), NodePrivateUnixPathError>)
    ensures
        result == (if if is_final {
            owner_only(directory, owner_user_id)
        } else {
            safe_ancestor(directory)
        } {
            Ok::<(), NodePrivateUnixPathError>(())
        } else {
            Err(NodePrivateUnixPathError::UnsafePath)
        }),
{
    if !directory.is_directory {
        return Err(NodePrivateUnixPathError::UnsafePath);
    }
    let mode: u32 = directory.mode & 0o7777;
    let seen: u32 = directory.mode;
    assert((seen & 0o7777) & 0o077 == seen & 0o077 && (seen & 0o7777) & 0o022 == seen & 0o022 && (
    seen & 0o7777) & 0o1000 == seen & 0o1000) by (bit_vector);
    if is_final {
        if directory.user_id != owner_user_id || mode & 0o077 != 0 {
            return Err(NodePrivateUnixPathError::UnsafePath);
        }
        return Ok(());
    }
    if mode & 0o022 == 0 {
        return Ok(());
    }
    if directory.user_id == 0 && mode & 0o1000 != 0 {
        return Ok(());
    }
    Err(NodePrivateUnixPathError::UnsafePath)
}

/// The walk from the root: every opened directory but the last is a safe ancestor and the last one
/// is owner-only; the root is a safe ancestor in any case.
pub open spec fn walk_safe(
    directories: Seq<Option<DirectoryObservation>>,
    owner_user_id: u32,
) -> bool {
    &&& directories.len() > 0
    &&& forall|i: int| 0 <= i < directories.len() ==> (#[trigger] directories[i]) is Some
    &&& safe_ancestor(directories[0]->Some_0)
    &&& forall|i: int|
        0 <= i < directories.len() - 1 ==> safe_ancestor((#[trigger] directories[i])->Some_0)
    &&& owner_only(directories.last()->Some_0, owner_user_id)
}

/// Judges the directories that a walk opened, from the root down; one that could not be opened is
/// absent.
#[verifier::loop_isolation(false)]
pub fn guarded_path(
    directories: &Vec<Option<DirectoryObservation>>,
    owner_user_id: u32,
) -> (result: Result<(), NodePrivateUnixPathError>)
    ensures
        result == (if walk_safe(directories@, owner_user_id) {
            Ok::<(), NodePrivateUnixPathError>(())
        } else {
            Err(NodePrivateUnixPathError::UnsafePath)
        }),
{
    let count: usize = directories.len();
    if count == 0 {
        return Err(NodePrivateUnixPathError::UnsafePath);
    }
    let mut i: usize = 0;
    while i < count
        invariant
            i <= count == directories@.len(),
            forall|j: int| 0 <= j < i ==> (#[trigger] directories@[j]) is Some,
            i > 0 ==> safe_ancestor(directories@[0]->Some_0),
            forall|j: int|
                0 <= j < i && j < count - 1 ==> safe_ancestor(
                    (#[trigger] directories@[j])->Some_0,
                ),
            i == count ==> owner_only(directories@.last()->Some_0, owner_user_id),
        decreases count - i,
    {
        match directories[i] {
            None => {
                assert(directories@[i as int] is None);
                return Err(NodePrivateUnixPathError::UnsafePath);
            },
            Some(directory) => {
                assert(directories@[i as int] is Some);
                if i == 0 || i + 1 < count {
                    validate_directory(directory, owner_user_id, false)?;
                }
                if i + 1 == count {
                    validate_directory(directory, owner_user_id, true)?;
                }
            },
        }
        i += 1;
    }
    Ok(())
}

} // verus!
