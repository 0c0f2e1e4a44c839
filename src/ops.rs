//! The mutation engine's decisions: how an entry is deleted, what a move
//! does when the fast rename fails, and how archive entries are named.
//!
//! The host performs each step on the file system, in the order given, and
//! stops a batch at the first step that fails.

use vstd::prelude::*;
use vstd::string::*;

verus! {

/// How one path is deleted.
#[derive(Clone, Copy, Debug, PartialEq, Eq, Structural)]
pub enum DeleteAction {
    /// Sent to the platform's trash, from which it can be restored.
    Trash,
    /// Removed for good with everything below it.
    RemoveTree,
    /// Removed for good.
    RemoveFile,
}

pub open spec fn delete_action_of(use_trash: bool, is_dir: bool) -> DeleteAction {
    if use_trash {
        DeleteAction::Trash
    } else if is_dir {
        DeleteAction::RemoveTree
    } else {
        DeleteAction::RemoveFile
    }
}

/// How to delete one path: the caller's flag alone chooses between the trash
/// and permanent removal, which is recursive for a directory.
pub fn delete_action(use_trash: bool, is_dir: bool) -> (r: DeleteAction)
    ensures
        r == delete_action_of(use_trash, is_dir),
        use_trash <==> r == DeleteAction::Trash,
{
    if use_trash {
        DeleteAction::Trash
    } else if is_dir {
        DeleteAction::RemoveTree
    } else {
        DeleteAction::RemoveFile
    }
}

/// A delete with the trash flag set never removes anything permanently, and
/// one without it removes a directory together with all it holds.
pub proof fn lemma_trash_flag_decides(is_dir: bool)
    ensures
        delete_action_of(true, is_dir) == DeleteAction::Trash,
        delete_action_of(false, is_dir) != DeleteAction::Trash,
        is_dir ==> delete_action_of(false, is_dir) == DeleteAction::RemoveTree,
{
}

/// Removing a tree for good leaves nothing at or below its root, and every
/// file elsewhere as it was.
pub proof fn lemma_remove_tree_clears(fs: FileMap, root: Seq<char>)
    ensures
        forall|q: Seq<char>| under(q, root) ==> !#[trigger] remove_tree(fs, root).contains_key(q),
        forall|q: Seq<char>|
            !under(q, root) && fs.contains_key(q) ==> #[trigger] remove_tree(fs, root).contains_key(q)
                && remove_tree(fs, root)[q] == fs[q],
{
}

/// One file-system step of a move that could not be done by renaming.
#[derive(Debug)]
pub enum FsStep {
    CopyFile { from: String, to: String },
    CopyTree { from: String, to: String },
    RemoveFile(String),
    RemoveTree(String),
}

/// Files by path, as far as these steps are concerned.
pub type FileMap = Map<Seq<char>, Seq<u8>>;

/// Whether `p` is `root` or lies below it.
pub open spec fn under(p: Seq<char>, root: Seq<char>) -> bool {
    p == root || (p.len() > root.len() && p.subrange(0, root.len() as int) == root && p[root.len()
        as int] == '/')
}

/// The path that `q`, below `to`, had below `from` before a tree copy.
pub open spec fn origin(q: Seq<char>, from: Seq<char>, to: Seq<char>) -> Seq<char> {
    from + q.subrange(to.len() as int, q.len() as int)
}

/// The files after the tree at `from` is copied to `to`.
pub open spec fn copy_tree(fs: FileMap, from: Seq<char>, to: Seq<char>) -> FileMap {
    Map::new(
        |q: Seq<char>| fs.contains_key(q) || (under(q, to) && fs.contains_key(origin(q, from, to))),
        |q: Seq<char>|
            if under(q, to) && fs.contains_key(origin(q, from, to)) {
                fs[origin(q, from, to)]
            } else {
                fs[q]
            },
    )
}

/// The files after the tree at `root` is removed.
pub open spec fn remove_tree(fs: FileMap, root: Seq<char>) -> FileMap {
    fs.restrict(fs.dom().filter(|q: Seq<char>| !under(q, root)))
}

/// The files after one step.
pub open spec fn apply_step(fs: FileMap, step: FsStep) -> FileMap {
    match step {
        FsStep::CopyFile { from, to } => if fs.contains_key(from@) {
            fs.insert(to@, fs[from@])
        } else {
            fs
        },
        FsStep::CopyTree { from, to } => copy_tree(fs, from@, to@),
        FsStep::RemoveFile(p) => fs.remove(p@),
        FsStep::RemoveTree(p) => remove_tree(fs, p@),
    }
}

/// The files after the steps, in order.
pub open spec fn apply_steps(fs: FileMap, steps: Seq<FsStep>) -> FileMap
    decreases steps.len(),
{
    if steps.len() == 0 {
        fs
    } else {
        apply_steps(apply_step(fs, steps[0]), steps.drop_first())
    }
}

/// What a move of `src` to `dst` still has to do after the rename attempt.
pub open spec fn move_steps_of(src: Seq<char>, dst: Seq<char>, is_dir: bool, renamed: bool) -> Seq<
    (bool, bool, Seq<char>, Seq<char>),
> {
    // (is a copy, of a tree, from, to); a removal has its path in `from`.
    if renamed {
        Seq::empty()
    } else {
        seq![(true, is_dir, src, dst), (false, is_dir, src, src)]
    }
}

/// Whether a step is the one that `move_steps_of` describes by `d`.
pub open spec fn step_is(step: FsStep, d: (bool, bool, Seq<char>, Seq<char>)) -> bool {
    match step {
        FsStep::CopyFile { from, to } => d.0 && !d.1 && from@ == d.2 && to@ == d.3,
        FsStep::CopyTree { from, to } => d.0 && d.1 && from@ == d.2 && to@ == d.3,
        FsStep::RemoveFile(p) => !d.0 && !d.1 && p@ == d.2,
        FsStep::RemoveTree(p) => !d.0 && d.1 && p@ == d.2,
    }
}

/// The steps left of a move of `src` to `dst` once the rename has been
/// tried: none if it worked; else a copy (of the whole tree for a
/// directory), then the removal of the original. If the removal fails the
/// copy stays.
pub fn move_fallback(src: &str, dst: &str, is_dir: bool, renamed: bool) -> (r: Vec<FsStep>)
    ensures
        r@.len() == move_steps_of(src@, dst@, is_dir, renamed).len(),
        forall|i: int|
            0 <= i < r@.len() ==> step_is(#[trigger] r@[i], move_steps_of(src@, dst@, is_dir, renamed)[i]),
{
    let mut r: Vec<FsStep> = Vec::new();
    if !renamed {
        if is_dir {
            r.push(FsStep::CopyTree { from: String::from_str(src), to: String::from_str(dst) });
            r.push(FsStep::RemoveTree(String::from_str(src)));
        } else {
            r.push(FsStep::CopyFile { from: String::from_str(src), to: String::from_str(dst) });
            r.push(FsStep::RemoveFile(String::from_str(src)));
        }
    }
    r
}

proof fn lemma_apply_two(fs: FileMap, steps: Seq<FsStep>)
    requires
        steps.len() == 2,
    ensures
        apply_steps(fs, steps) == apply_step(apply_step(fs, steps[0]), steps[1]),
{
    let s1 = steps.drop_first();
    let f1 = apply_step(fs, steps[0]);
    assert(s1.len() == 1);
    assert(s1[0] == steps[1]);
    let f2 = apply_step(f1, s1[0]);
    assert(apply_steps(fs, steps) == apply_steps(f1, s1));
    assert(apply_steps(f1, s1) == apply_steps(f2, s1.drop_first()));
    assert(s1.drop_first().len() == 0);
    assert(apply_steps(f2, s1.drop_first()) == f2);
}

/// A file moved across volumes (the rename failed): afterwards the
/// destination holds exactly the original bytes and the source is gone.
pub proof fn lemma_file_move_fallback(fs: FileMap, src: Seq<char>, dst: Seq<char>, steps: Seq<FsStep>)
    requires
        fs.contains_key(src),
        src != dst,
        steps.len() == move_steps_of(src, dst, false, false).len(),
        forall|i: int| 0 <= i < steps.len() ==> step_is(#[trigger] steps[i], move_steps_of(src, dst, false, false)[i]),
    ensures
        apply_steps(fs, steps).contains_key(dst),
        apply_steps(fs, steps)[dst] == fs[src],
        !apply_steps(fs, steps).contains_key(src),
{
    assert(step_is(steps[0], move_steps_of(src, dst, false, false)[0]));
    assert(step_is(steps[1], move_steps_of(src, dst, false, false)[1]));
    lemma_apply_two(fs, steps);
}

/// A directory moved across volumes (the rename failed), to a place that
/// shares no path with it: afterwards every file that was below the source
/// is below the destination at the same relative path with the same bytes,
/// and nothing is left below the source.
pub proof fn lemma_tree_move_fallback(
    fs: FileMap,
    src: Seq<char>,
    dst: Seq<char>,
    steps: Seq<FsStep>,
    rest: Seq<char>,
)
    requires
        forall|q: Seq<char>| !(under(q, src) && under(q, dst)),
        steps.len() == move_steps_of(src, dst, true, false).len(),
        forall|i: int| 0 <= i < steps.len() ==> step_is(#[trigger] steps[i], move_steps_of(src, dst, true, false)[i]),
        rest.len() == 0 || rest[0] == '/',
        fs.contains_key(src + rest),
    ensures
        apply_steps(fs, steps).contains_key(dst + rest),
        apply_steps(fs, steps)[dst + rest] == fs[src + rest],
        forall|q: Seq<char>| under(q, src) ==> !apply_steps(fs, steps).contains_key(q),
{
    assert(step_is(steps[0], move_steps_of(src, dst, true, false)[0]));
    assert(step_is(steps[1], move_steps_of(src, dst, true, false)[1]));
    lemma_apply_two(fs, steps);
    let q = dst + rest;
    assert(q.subrange(0, dst.len() as int) =~= dst);
    assert(q.subrange(dst.len() as int, q.len() as int) =~= rest);
    if rest.len() > 0 {
        assert(q[dst.len() as int] == rest[0]);
    }
    assert(under(q, dst));
    assert(!under(q, src));
    let copied = copy_tree(fs, src, dst);
    assert(copied.contains_key(q));
    assert(copied[q] == fs[src + rest]);
    assert(remove_tree(copied, src).contains_key(q));
}

/// The archive entry of a directory: its relative path and a `/`.
pub fn archive_dir_entry(prefix: &str) -> (r: String)
    ensures
        r@ == prefix@ + "/"@,
{
    String::from_str(prefix).concat("/")
}

/// The archive path of `child` inside the directory entry `prefix`.
pub fn archive_child_path(prefix: &str, child: &str) -> (r: String)
    ensures
        r@ == prefix@ + "/"@ + child@,
{
    String::from_str(prefix).concat("/").concat(child)
}

/// The step that copies one source to `dst`: the whole tree for a
/// directory, the file itself otherwise.
pub fn copy_step(src: &str, dst: &str, is_dir: bool) -> (r: FsStep)
    ensures
        step_is(r, (true, is_dir, src@, dst@)),
{
    if is_dir {
        FsStep::CopyTree { from: String::from_str(src), to: String::from_str(dst) }
    } else {
        FsStep::CopyFile { from: String::from_str(src), to: String::from_str(dst) }
    }
}

/// The characters of `p` after its last `/` or `\`; all of `p` without one.
pub open spec fn last_component(p: Seq<char>) -> Seq<char>
    decreases p.len(),
{
    if p.len() == 0 {
        p
    } else if p.last() == '/' || p.last() == '\\' {
        Seq::empty()
    } else {
        last_component(p.drop_last()).push(p.last())
    }
}

/// The name shown for a folder the user picked: the last component of its
/// path, split at either kind of separator.
pub fn folder_display_name(path: &str) -> (r: String)
    ensures
        r@ == last_component(path@),
{
    let n = path.unicode_len();
    let mut start: usize = 0;
    let mut i: usize = 0;
    while i < n
        invariant
            n == path@.len(),
            start <= i <= n,
            last_component(path@.subrange(0, i as int)) == path@.subrange(start as int, i as int),
        decreases n - i,
    {
        let c = path.get_char(i);
        proof {
            let pre = path@.subrange(0, i as int + 1);
            assert(pre.drop_last() =~= path@.subrange(0, i as int));
            assert(pre.last() == c);
        }
        if c == '/' || c == '\\' {
            start = i + 1;
            assert(path@.subrange(start as int, i as int + 1) =~= Seq::<char>::empty());
        } else {
            assert(path@.subrange(start as int, i as int + 1) =~= path@.subrange(
                start as int,
                i as int,
            ).push(c));
        }
        i = i + 1;
    }
    assert(path@.subrange(0, n as int) =~= path@);
    String::from_str(path.substring_char(start, n))
}

} // verus!

