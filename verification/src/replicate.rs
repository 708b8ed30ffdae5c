//! The decision core of directory replication and file copying.
//!
//! Replicating a tree interleaves observation of the source filesystem with
//! mutation of the destination.  Everything that is decided — which inputs
//! are rejected and with which error, where each visited entry lands under
//! the destination root, and which creation primitive each entry needs — is
//! computed here over plain observed values, so the surrounding shell only
//! performs the raw filesystem calls in the order planned.

use vstd::prelude::*;

use crate::errors::FsError;
use crate::errors::FsErrorKind;
use crate::segments::str_eq;

verus! {

/// The type of one node met while walking a source tree, as the platform
/// reports it: symlinks are reported as such, never followed.
#[derive(Clone, Copy, PartialEq, Eq, Structural, Debug)]
pub enum EntryKind {
    Directory,
    RegularFile,
    Symlink,
}

/// One node of the source tree, as observed by the walk.
pub struct WalkEntry {
    /// The node's path, which always extends the traversal root.
    pub path: String,
    /// What kind of node it is; a symlink is reported as a symlink.
    pub kind: EntryKind,
    /// For a symlink: the raw target string stored in the link,
    /// never resolved.
    pub link_target: Option<String>,
    /// For a symlink: whether following the link reaches a directory.
    /// Creation primitives differ for directory and file links on some
    /// platforms, so this one question is answered by resolution.
    pub link_points_to_dir: bool,
}

/// One filesystem mutation the replication plan asks the shell to perform.
pub enum FsAction {
    /// Create an empty directory at `dest`.
    CreateDir { dest: String },
    /// Copy the regular file at `source` to `dest` byte for byte.
    CopyFileContents { source: String, dest: String },
    /// Create a symlink at `dest` whose stored target is exactly
    /// `raw_target`; `as_dir` selects the directory-link primitive.
    CreateSymlink { raw_target: String, dest: String, as_dir: bool },
}

/// Holds when `p` lies at or below `root`: it is `root` itself, or extends
/// it by a separator and a nonempty relative remainder.
pub open spec fn is_path_under(root: Seq<char>, p: Seq<char>) -> bool {
    p == root || (p.len() > root.len() + 1 && p.take(root.len() as int) == root && p[root.len()
        as int] == '/')
}

/// The path of `p` relative to `root` (empty for `root` itself).
pub open spec fn rel_of(root: Seq<char>, p: Seq<char>) -> Seq<char> {
    if p == root {
        Seq::<char>::empty()
    } else {
        p.skip(root.len() as int + 1)
    }
}

/// `rel` joined below `root`; joining the empty relative path is `root`
/// itself.
pub open spec fn join_under(root: Seq<char>, rel: Seq<char>) -> Seq<char> {
    if rel.len() == 0 {
        root
    } else {
        root + seq!['/'] + rel
    }
}

/// Where the entry at `p`, met below the source root `from`, lands under
/// the destination root `to`: the same relative path, joined below `to`.
pub open spec fn dest_for(from: Seq<char>, to: Seq<char>, p: Seq<char>) -> Seq<char> {
    join_under(to, rel_of(from, p))
}

/// Holds when `act` is the one correct mutation for the source entry
/// `entry`: the right creation primitive for its kind, at the destination
/// mirroring the entry's relative path, with file contents taken from the
/// entry itself and a symlink's raw target carried over unchanged.
pub open spec fn replicates(from: Seq<char>, to: Seq<char>, entry: WalkEntry, act: FsAction) -> bool {
    match entry.kind {
        EntryKind::Directory => act matches FsAction::CreateDir { dest } && dest@ == dest_for(
            from,
            to,
            entry.path@,
        ),
        EntryKind::RegularFile => act matches FsAction::CopyFileContents { source, dest }
            && source@ == entry.path@ && dest@ == dest_for(from, to, entry.path@),
        EntryKind::Symlink => act matches FsAction::CreateSymlink { raw_target, dest, as_dir }
            && raw_target@ == entry.link_target->0@ && dest@ == dest_for(from, to, entry.path@)
            && as_dir == entry.link_points_to_dir,
    }
}

/// Law: the relative path loses nothing — rejoining it below the root it
/// was stripped from restores the original path exactly.
pub proof fn lemma_rel_of_faithful(root: Seq<char>, p: Seq<char>)
    requires
        is_path_under(root, p),
    ensures
        join_under(root, rel_of(root, p)) == p,
{
    if p != root {
        let rel = rel_of(root, p);
        assert(forall|i: int| 0 <= i < root.len() ==> p[i] == root[i]) by {
            assert(forall|i: int|
                0 <= i < root.len() ==> #[trigger] p.take(root.len() as int)[i] == p[i]);
        }
        if rel.len() == 0 {
            assert(p =~= root + seq!['/']);
            assert(join_under(root, rel) =~= p);
        } else {
            assert(join_under(root, rel) =~= p);
        }
    }
}

/// Law: distinct entries never collide at the destination — two different
/// paths below the source root land at two different paths below the
/// destination root.
pub proof fn lemma_dest_for_injective(from: Seq<char>, to: Seq<char>, p1: Seq<char>, p2: Seq<char>)
    requires
        is_path_under(from, p1),
        is_path_under(from, p2),
        p1 != p2,
    ensures
        dest_for(from, to, p1) != dest_for(from, to, p2),
{
    lemma_rel_of_faithful(from, p1);
    lemma_rel_of_faithful(from, p2);
    let r1 = rel_of(from, p1);
    let r2 = rel_of(from, p2);
    assert(r1 != r2);
    if r1.len() == 0 || r2.len() == 0 {
        assert(join_under(to, r1).len() != join_under(to, r2).len());
    } else {
        if join_under(to, r1) == join_under(to, r2) {
            assert((to + seq!['/'] + r1).skip(to.len() as int + 1) =~= r1);
            assert((to + seq!['/'] + r2).skip(to.len() as int + 1) =~= r2);
            assert(false);
        }
    }
}

/// The destination path an action writes to.
pub open spec fn action_dest(act: FsAction) -> Seq<char> {
    match act {
        FsAction::CreateDir { dest } => dest@,
        FsAction::CopyFileContents { source: _, dest } => dest@,
        FsAction::CreateSymlink { raw_target: _, dest, as_dir: _ } => dest@,
    }
}

/// Law: a plan over distinctly-named source entries writes each destination
/// path at most once, so executing its actions in any order leaves every
/// entry's mirrored node in place — replication cannot overwrite one copied
/// node with another.
pub proof fn lemma_plan_collision_free(
    from: Seq<char>,
    to: Seq<char>,
    entries: Seq<WalkEntry>,
    acts: Seq<FsAction>,
)
    requires
        acts.len() == entries.len(),
        forall|i: int| 0 <= i < entries.len() ==> is_path_under(from, (#[trigger] entries[i]).path@),
        forall|i: int|
            0 <= i < entries.len() ==> replicates(from, to, entries[i], #[trigger] acts[i]),
        forall|i: int, j: int|
            0 <= i < j < entries.len() ==> (#[trigger] entries[i]).path@ != (
            #[trigger] entries[j]).path@,
    ensures
        forall|i: int, j: int|
            0 <= i < j < acts.len() ==> action_dest(#[trigger] acts[i]) != action_dest(
                #[trigger] acts[j],
            ),
{
    assert forall|i: int, j: int| 0 <= i < j < acts.len() implies action_dest(
        #[trigger] acts[i],
    ) != action_dest(#[trigger] acts[j]) by {
        assert(replicates(from, to, entries[i], acts[i]));
        assert(replicates(from, to, entries[j], acts[j]));
        assert(action_dest(acts[i]) == dest_for(from, to, entries[i].path@));
        assert(action_dest(acts[j]) == dest_for(from, to, entries[j].path@));
        lemma_dest_for_injective(from, to, entries[i].path@, entries[j].path@);
    }
}

/// The destination state after executing a plan in order: each action
/// writes its destination path, a later write superseding an earlier one.
pub open spec fn applied_state(acts: Seq<FsAction>) -> Map<Seq<char>, FsAction>
    decreases acts.len(),
{
    if acts.len() == 0 {
        Map::<Seq<char>, FsAction>::empty()
    } else {
        applied_state(acts.drop_last()).insert(action_dest(acts.last()), acts.last())
    }
}

proof fn lemma_applied_state_lookup(acts: Seq<FsAction>, k: int)
    requires
        0 <= k < acts.len(),
        forall|i: int, j: int|
            0 <= i < j < acts.len() ==> action_dest(#[trigger] acts[i]) != action_dest(
                #[trigger] acts[j],
            ),
    ensures
        applied_state(acts).contains_key(action_dest(acts[k])),
        applied_state(acts)[action_dest(acts[k])] == acts[k],
    decreases acts.len(),
{
    if k < acts.len() - 1 {
        assert(forall|i: int| 0 <= i < acts.len() - 1 ==> #[trigger] acts.drop_last()[i]
            == acts[i]);
        lemma_applied_state_lookup(acts.drop_last(), k);
        assert(action_dest(acts[k]) != action_dest(acts[acts.len() - 1]));
    }
}

/// Law: once the whole plan has run — each action writing its destination,
/// in order — the destination holds, at every entry's mirrored path,
/// exactly the action that mirrors that entry: nothing is missing, and no
/// copied node was overwritten by another.
pub proof fn lemma_plan_mirrors_every_entry(
    from: Seq<char>,
    to: Seq<char>,
    entries: Seq<WalkEntry>,
    acts: Seq<FsAction>,
)
    requires
        acts.len() == entries.len(),
        forall|i: int| 0 <= i < entries.len() ==> is_path_under(from, (#[trigger] entries[i]).path@),
        forall|i: int|
            0 <= i < entries.len() ==> replicates(from, to, entries[i], #[trigger] acts[i]),
        forall|i: int, j: int|
            0 <= i < j < entries.len() ==> (#[trigger] entries[i]).path@ != (
            #[trigger] entries[j]).path@,
    ensures
        forall|i: int|
            0 <= i < entries.len() ==> applied_state(acts).contains_key(
                dest_for(from, to, (#[trigger] entries[i]).path@),
            ) && applied_state(acts)[dest_for(from, to, entries[i].path@)] == acts[i],
{
    lemma_plan_collision_free(from, to, entries, acts);
    assert forall|i: int| 0 <= i < entries.len() implies applied_state(acts).contains_key(
        dest_for(from, to, (#[trigger] entries[i]).path@),
    ) && applied_state(acts)[dest_for(from, to, entries[i].path@)] == acts[i] by {
        assert(replicates(from, to, entries[i], acts[i]));
        assert(action_dest(acts[i]) == dest_for(from, to, entries[i].path@));
        lemma_applied_state_lookup(acts, i);
    }
}

/// Decides whether `p` lies at or below `root`.
pub fn path_is_under(root: &str, p: &str) -> (r: bool)
    ensures
        r == is_path_under(root@, p@),
{
    let lr = root.unicode_len();
    let lp = p.unicode_len();
    if lp == lr {
        str_eq(root, p)
    } else if lp > lr && lp - lr > 1 {
        let pre = p.substring_char(0, lr);
        proof {
            assert(pre@ =~= p@.take(lr as int));
        }
        str_eq(pre, root) && p.get_char(lr) == '/'
    } else {
        proof {
            assert(p@.len() != root@.len());
        }
        false
    }
}

/// Computes where the entry at `p` lands under the destination root `to`,
/// given that it was met at or below the source root `from`.
pub fn dest_path(from: &str, to: &str, p: &str) -> (r: String)
    requires
        is_path_under(from@, p@),
    ensures
        r@ == dest_for(from@, to@, p@),
{
    let lf = from.unicode_len();
    let lp = p.unicode_len();
    if lp <= lf || lp - lf == 1 {
        proof {
            assert(rel_of(from@, p@).len() == 0);
        }
        String::from_str(to)
    } else {
        let rel = p.substring_char(lf + 1, lp);
        proof {
            assert(p@ != from@);
            assert(rel@ =~= rel_of(from@, p@));
        }
        let r = String::from_str(to).concat("/").concat(rel);
        proof {
            reveal_strlit("/");
            assert(r@ =~= join_under(to@, rel_of(from@, p@)));
        }
        r
    }
}

/// Computes the one mutation that mirrors `entry` from below `from` to
/// below `to`.
pub fn plan_entry(from: &str, to: &str, entry: &WalkEntry) -> (act: FsAction)
    requires
        is_path_under(from@, entry.path@),
        entry.kind == EntryKind::Symlink ==> entry.link_target is Some,
    ensures
        replicates(from@, to@, *entry, act),
{
    let dest = dest_path(from, to, entry.path.as_str());
    match entry.kind {
        EntryKind::Directory => FsAction::CreateDir { dest },
        EntryKind::RegularFile => FsAction::CopyFileContents {
            source: entry.path.clone(),
            dest,
        },
        EntryKind::Symlink => {
            let raw_target = match &entry.link_target {
                Option::Some(t) => t.clone(),
                Option::None => vstd::pervasive::unreached(),
            };
            FsAction::CreateSymlink { raw_target, dest, as_dir: entry.link_points_to_dir }
        },
    }
}

/// Decides the explicit validations of a single-file copy from the observed
/// state of its source: an absent source is rejected as missing, a source
/// that is not a regular file as the wrong type, each named by path, and
/// nothing else is rejected.
pub fn copy_file_precheck(source: &str, source_exists: bool, source_is_file: bool) -> (r: Result<
    (),
    FsError,
>)
    ensures
        r is Ok <==> source_exists && source_is_file,
        !source_exists ==> r is Err && r->Err_0.kind == FsErrorKind::NotFound,
        source_exists && !source_is_file ==> r is Err && r->Err_0.kind == FsErrorKind::WrongType,
        r is Err ==> r->Err_0.path@ == source@,
{
    if !source_exists {
        Result::Err(FsError::new(FsErrorKind::NotFound, source))
    } else if !source_is_file {
        Result::Err(FsError::new(FsErrorKind::WrongType, source))
    } else {
        Result::Ok(())
    }
}

/// Decides the explicit validations of a whole-file read from the observed
/// state of the path: an absent path is rejected as missing, and a path
/// that exists but is not a regular file — a directory, say — as the wrong
/// type, never as an I/O failure.
pub fn read_file_precheck(path: &str, path_exists: bool, path_is_file: bool) -> (r: Result<
    (),
    FsError,
>)
    ensures
        r is Ok <==> path_exists && path_is_file,
        !path_exists ==> r is Err && r->Err_0.kind == FsErrorKind::NotFound,
        path_exists && !path_is_file ==> r is Err && r->Err_0.kind == FsErrorKind::WrongType,
        r is Err ==> r->Err_0.path@ == path@,
{
    if !path_exists {
        Result::Err(FsError::new(FsErrorKind::NotFound, path))
    } else if !path_is_file {
        Result::Err(FsError::new(FsErrorKind::WrongType, path))
    } else {
        Result::Ok(())
    }
}

/// Decides the explicit validations of a whole-tree copy from the observed
/// state of both roots: the source must exist and be a directory, and the
/// destination must not exist at all — replication never merges into a
/// pre-existing destination.
pub fn copy_dir_precheck(
    source: &str,
    dest: &str,
    source_exists: bool,
    source_is_dir: bool,
    dest_exists: bool,
) -> (r: Result<(), FsError>)
    ensures
        r is Ok <==> source_exists && source_is_dir && !dest_exists,
        !source_exists ==> r is Err && r->Err_0.kind == FsErrorKind::NotFound
            && r->Err_0.path@ == source@,
        source_exists && !source_is_dir ==> r is Err && r->Err_0.kind == FsErrorKind::WrongType
            && r->Err_0.path@ == source@,
        source_exists && source_is_dir && dest_exists ==> r is Err && r->Err_0.kind
            == FsErrorKind::AlreadyExists && r->Err_0.path@ == dest@,
{
    if !source_exists {
        Result::Err(FsError::new(FsErrorKind::NotFound, source))
    } else if !source_is_dir {
        Result::Err(FsError::new(FsErrorKind::WrongType, source))
    } else if dest_exists {
        Result::Err(FsError::new(FsErrorKind::AlreadyExists, dest))
    } else {
        Result::Ok(())
    }
}

/// Validates a whole-tree copy and plans its mutations: after the root
/// checks pass, every walked entry — directories before their children —
/// is mapped to the one action that mirrors it below the destination root.
pub fn plan_copy_dir(
    from: &str,
    to: &str,
    source_exists: bool,
    source_is_dir: bool,
    dest_exists: bool,
    entries: &Vec<WalkEntry>,
) -> (r: Result<Vec<FsAction>, FsError>)
    requires
        forall|i: int|
            0 <= i < entries@.len() ==> is_path_under(from@, (#[trigger] entries@[i]).path@),
        forall|i: int|
            0 <= i < entries@.len() ==> ((#[trigger] entries@[i]).kind == EntryKind::Symlink
                ==> entries@[i].link_target is Some),
    ensures
        r is Ok <==> source_exists && source_is_dir && !dest_exists,
        !source_exists ==> r is Err && r->Err_0.kind == FsErrorKind::NotFound
            && r->Err_0.path@ == from@,
        source_exists && !source_is_dir ==> r is Err && r->Err_0.kind == FsErrorKind::WrongType
            && r->Err_0.path@ == from@,
        source_exists && source_is_dir && dest_exists ==> r is Err && r->Err_0.kind
            == FsErrorKind::AlreadyExists && r->Err_0.path@ == to@,
        r is Ok ==> r->Ok_0@.len() == entries@.len() && forall|i: int|
            0 <= i < entries@.len() ==> replicates(
                from@,
                to@,
                entries@[i],
                #[trigger] r->Ok_0@[i],
            ),
{
    match copy_dir_precheck(from, to, source_exists, source_is_dir, dest_exists) {
        Result::Err(e) => Result::Err(e),
        Result::Ok(()) => {
            let mut acts: Vec<FsAction> = Vec::new();
            let n = entries.len();
            let mut i: usize = 0;
            while i < n
                invariant
                    0 <= i <= n,
                    n == entries@.len(),
                    acts@.len() == i,
                    forall|j: int|
                        0 <= j < entries@.len() ==> is_path_under(
                            from@,
                            (#[trigger] entries@[j]).path@,
                        ),
                    forall|j: int|
                        0 <= j < entries@.len() ==> ((#[trigger] entries@[j]).kind
                            == EntryKind::Symlink ==> entries@[j].link_target is Some),
                    forall|j: int|
                        0 <= j < i ==> replicates(from@, to@, entries@[j], #[trigger] acts@[j]),
                decreases n - i,
            {
                let act = plan_entry(from, to, &entries[i]);
                acts.push(act);
                i += 1;
            }
            Result::Ok(acts)
        },
    }
}

} // verus!
