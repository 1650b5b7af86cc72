//! Changes to files, as plain data.
use vstd::prelude::*;

verus! {

/// One change to the file system.
#[derive(Debug)]
pub enum FileOp {
    /// Creates a directory and those above it.
    CreateDir { path: String },
    /// Writes a file anew.
    Write { path: String, content: String },
    /// Lets nobody but the owner of a file read and write it.
    Restrict { path: String },
    /// Gives a file another name, in place of what had it.
    Rename { from: String, to: String },
    RemoveFile { path: String },
    RemoveDir { path: String },
}

/// What a change denotes.
pub enum Op {
    CreateDir(Seq<char>),
    Write(Seq<char>, Seq<char>),
    Restrict(Seq<char>),
    Rename(Seq<char>, Seq<char>),
    RemoveFile(Seq<char>),
    RemoveDir(Seq<char>),
}

impl View for FileOp {
    type V = Op;

    open spec fn view(&self) -> Op {
        match *self {
            FileOp::CreateDir { path } => Op::CreateDir(path@),
            FileOp::Write { path, content } => Op::Write(path@, content@),
            FileOp::Restrict { path } => Op::Restrict(path@),
            FileOp::Rename { from, to } => Op::Rename(from@, to@),
            FileOp::RemoveFile { path } => Op::RemoveFile(path@),
            FileOp::RemoveDir { path } => Op::RemoveDir(path@),
        }
    }
}

pub open spec fn ops(v: Seq<FileOp>) -> Seq<Op> {
    v.map_values(|o: FileOp| o@)
}

/// The text of each file, by path.
pub type Files = Map<Seq<char>, Seq<char>>;

/// The files after one change.
pub open spec fn after_op(files: Files, op: Op) -> Files {
    match op {
        Op::CreateDir(_) => files,
        Op::Write(path, content) => files.insert(path, content),
        Op::Restrict(_) => files,
        Op::Rename(from, to) => if files.contains_key(from) {
            files.remove(from).insert(to, files[from])
        } else {
            files
        },
        Op::RemoveFile(path) => files.remove(path),
        Op::RemoveDir(_) => files,
    }
}

/// The files after some changes, one after the other.
pub open spec fn after_ops(files: Files, changes: Seq<Op>) -> Files
    decreases changes.len(),
{
    if changes.len() == 0 {
        files
    } else {
        after_op(after_ops(files, changes.drop_last()), changes.last())
    }
}

/// Whether a file is as it was.
pub open spec fn unchanged(before: Files, after: Files, path: Seq<char>) -> bool {
    &&& after.contains_key(path) == before.contains_key(path)
    &&& before.contains_key(path) ==> after[path] == before[path]
}

/// Whether a file holds a text.
pub open spec fn holds_text(files: Files, path: Seq<char>, text: Seq<char>) -> bool {
    files.contains_key(path) && files[path] == text
}

/// Adds a change behind the others.
pub(crate) fn push_op(v: &mut Vec<FileOp>, op: FileOp)
    ensures
        ops(final(v)@) == ops(old(v)@).push(op@),
{
    let ghost before = v@;
    v.push(op);
    assert(ops(v@) =~= ops(before).push(op@));
}

/// The files after some changes and one more.
pub proof fn lemma_after_next(files: Files, changes: Seq<Op>, n: int)
    requires
        0 <= n < changes.len(),
    ensures
        after_ops(files, changes.take(n + 1)) == after_op(
            after_ops(files, changes.take(n)),
            changes[n],
        ),
{
    assert(changes.take(n + 1).drop_last() =~= changes.take(n));
}

/// A file that is unchanged is there where it was, with what it held.
pub proof fn law_unchanged_files_hold_what_they_held(before: Files, after: Files, path: Seq<char>)
    requires
        unchanged(before, after, path),
    ensures
        before.contains_key(path) <==> after.contains_key(path),
        before.contains_key(path) ==> after[path] == before[path],
{
}

} // verus!
