//! State that is kept in files across restarts.
//!
//! A checkpoint is written to a file of another name first, which then takes
//! its place, so that a reader sees the old text or the new one.
use crate::fileops::{after_ops, ops, push_op, FileOp, Files, Op};
use crate::paths::{
    extension, file_stem, file_stem_of, join_path, path_extension, path_join, path_with_extension,
    with_extension,
};
use crate::strmap::StrMap;
use crate::text::{cat2, holds, replace_char, same, texts, with_replaced};
use vstd::prelude::*;

verus! {

/// A checkpoint on disk.
#[derive(Debug)]
pub struct Checkpoint {
    pub key: String,
    pub path: String,
}

/// Keeps checkpoints in a directory.
#[derive(Debug)]
pub struct CheckpointManager {
    pub dir: String,
}

/// A key as part of a file name.
pub open spec fn safe_key(key: Seq<char>) -> Seq<char> {
    with_replaced(with_replaced(key, '/', '_'), ':', '_')
}

/// The file of a checkpoint.
pub open spec fn checkpoint_path(dir: Seq<char>, key: Seq<char>) -> Seq<char> {
    path_join(dir, safe_key(key) + ".json"@)
}

/// The file to which a checkpoint is written first.
pub open spec fn temp_path(dir: Seq<char>, key: Seq<char>) -> Seq<char> {
    path_with_extension(checkpoint_path(dir, key), "tmp"@)
}

/// The keys of the checkpoints among the files at `paths`.
pub open spec fn keys_of(paths: Seq<Seq<char>>) -> Seq<Seq<char>>
    decreases paths.len(),
{
    if paths.len() == 0 {
        Seq::empty()
    } else {
        let front = keys_of(paths.drop_last());
        match file_stem_of(paths.last()) {
            Some(stem) => if path_extension(paths.last()) == Some("json"@) {
                front.push(stem)
            } else {
                front
            },
            None => front,
        }
    }
}

fn safe(key: &str) -> (r: String)
    ensures
        r@ == safe_key(key@),
{
    let once = replace_char(key, '/', '_');
    replace_char(once.as_str(), ':', '_')
}

impl CheckpointManager {
    /// A manager of the checkpoints in `dir`.
    pub fn new(dir: &str) -> (r: Self)
        ensures
            r.dir@ == dir@,
    {
        CheckpointManager { dir: dir.to_owned() }
    }

    /// The file of a checkpoint.
    pub fn path_for(&self, key: &str) -> (r: String)
        ensures
            r@ == checkpoint_path(self.dir@, key@),
    {
        let name = cat2(safe(key).as_str(), ".json");
        join_path(self.dir.as_str(), name.as_str())
    }

    /// What writes a checkpoint.
    pub fn write(&self, key: &str, text: &str) -> (r: Vec<FileOp>)
        ensures
            ops(r@) == write_ops(self.dir@, key@, text@),
    {
        let mut out: Vec<FileOp> = Vec::new();
        let path = self.path_for(key);
        let tmp = with_extension(path.as_str(), "tmp");
        assert(ops(out@) =~= Seq::<Op>::empty());
        push_op(&mut out, FileOp::Write { path: tmp.clone(), content: text.to_owned() });
        push_op(&mut out, FileOp::Rename { from: tmp, to: path });
        assert(ops(out@) =~= write_ops(self.dir@, key@, text@));
        out
    }

    /// What deletes a checkpoint, where it is there.
    pub fn delete(&self, key: &str, present: bool) -> (r: Vec<FileOp>)
        ensures
            ops(r@) == if present {
                seq![Op::RemoveFile(checkpoint_path(self.dir@, key@))]
            } else {
                Seq::<Op>::empty()
            },
    {
        let mut out: Vec<FileOp> = Vec::new();
        assert(ops(out@) =~= Seq::<Op>::empty());
        if present {
            push_op(&mut out, FileOp::RemoveFile { path: self.path_for(key) });
            assert(ops(out@) =~= seq![Op::RemoveFile(checkpoint_path(self.dir@, key@))]);
        }
        out
    }

    /// The keys of the checkpoints among the files at `paths`.
    pub fn list(&self, paths: &Vec<String>) -> (r: Vec<String>)
        ensures
            texts(r@) == keys_of(texts(paths@)),
    {
        let mut out: Vec<String> = Vec::new();
        let mut i: usize = 0;
        assert(texts(out@) =~= keys_of(texts(paths@).take(0)));
        while i < paths.len()
            invariant
                i <= paths@.len(),
                texts(out@) == keys_of(texts(paths@).take(i as int)),
            decreases paths@.len() - i,
        {
            let ghost before = out@;
            assert(texts(paths@).take(i + 1).drop_last() =~= texts(paths@).take(i as int));
            let path = paths[i].as_str();
            let is_checkpoint = match extension(path) {
                Some(e) => same(e.as_str(), "json"),
                None => false,
            };
            if is_checkpoint {
                if let Some(stem) = file_stem(path) {
                    out.push(stem);
                    assert(texts(out@) =~= texts(before).push(stem@));
                }
            }
            i = i + 1;
        }
        assert(texts(paths@).take(i as int) =~= texts(paths@));
        out
    }

    /// Whether a checkpoint is among the files at `paths`.
    pub fn checkpoint_exists(&self, key: &str, paths: &Vec<String>) -> (r: bool)
        ensures
            r == texts(paths@).contains(checkpoint_path(self.dir@, key@)),
    {
        let path = self.path_for(key);
        holds(paths, path.as_str())
    }
}

/// The changes that write a checkpoint.
pub open spec fn write_ops(dir: Seq<char>, key: Seq<char>, text: Seq<char>) -> Seq<Op> {
    seq![
        Op::Write(temp_path(dir, key), text),
        Op::Rename(temp_path(dir, key), checkpoint_path(dir, key)),
    ]
}

/// The state of a pod that is kept.
#[derive(Debug)]
pub struct PodCheckpoint {
    pub uid: String,
    pub name: String,
    pub namespace: String,
    pub sandbox_id: Option<String>,
    /// The identifier that the runtime gave each container.
    pub container_ids: StrMap<String>,
    pub restart_counts: StrMap<u32>,
}

impl PodCheckpoint {
    pub fn new(uid: &str, name: &str, namespace: &str) -> (r: Self)
        ensures
            r.uid@ == uid@,
            r.name@ == name@,
            r.namespace@ == namespace@,
            r.sandbox_id is None,
            r.container_ids@ == Map::<Seq<char>, String>::empty(),
            r.restart_counts@ == Map::<Seq<char>, u32>::empty(),
    {
        PodCheckpoint {
            uid: uid.to_owned(),
            name: name.to_owned(),
            namespace: namespace.to_owned(),
            sandbox_id: None,
            container_ids: StrMap::new(),
            restart_counts: StrMap::new(),
        }
    }
}

/// A read after a write finds what was written, and a second write replaces
/// what the first one wrote.
pub proof fn law_read_finds_what_was_written(
    files: Files,
    dir: Seq<char>,
    key: Seq<char>,
    text: Seq<char>,
)
    ensures
        after_ops(files, write_ops(dir, key, text)).contains_key(checkpoint_path(dir, key)),
        after_ops(files, write_ops(dir, key, text))[checkpoint_path(dir, key)] == text,
{
    lemma_write(files, dir, key, text);
}

proof fn lemma_write(files: Files, dir: Seq<char>, key: Seq<char>, text: Seq<char>)
    ensures
        after_ops(files, write_ops(dir, key, text)) == files.insert(
            temp_path(dir, key),
            text,
        ).remove(temp_path(dir, key)).insert(checkpoint_path(dir, key), text),
{
    let w = write_ops(dir, key, text);
    assert(w.drop_last().drop_last() =~= Seq::<Op>::empty());
    assert(w.drop_last().last() == Op::Write(temp_path(dir, key), text));
    assert(after_ops(files, w.drop_last().drop_last()) == files);
    assert(after_ops(files, w.drop_last()) == files.insert(temp_path(dir, key), text));
}

/// A write leaves all other files as they are, but for the file to which the
/// text is written first.
pub proof fn law_write_leaves_other_files(
    files: Files,
    dir: Seq<char>,
    key: Seq<char>,
    text: Seq<char>,
    path: Seq<char>,
)
    requires
        path != checkpoint_path(dir, key),
        path != temp_path(dir, key),
    ensures
        after_ops(files, write_ops(dir, key, text)).contains_key(path) == files.contains_key(path),
        files.contains_key(path) ==> after_ops(files, write_ops(dir, key, text))[path]
            == files[path],
{
    lemma_write(files, dir, key, text);
}

/// A deleted checkpoint is gone.
pub proof fn law_deleted_checkpoint_is_gone(files: Files, dir: Seq<char>, key: Seq<char>)
    ensures
        !after_ops(files, seq![Op::RemoveFile(checkpoint_path(dir, key))]).contains_key(
            checkpoint_path(dir, key),
        ),
{
    let d = seq![Op::RemoveFile(checkpoint_path(dir, key))];
    assert(d.drop_last() =~= Seq::<Op>::empty());
    assert(after_ops(files, d.drop_last()) == files);
}

/// A key keeps its length as a file name: slashes and colons become
/// underscores and all else stays.
pub proof fn law_keys_become_file_names(key: Seq<char>, i: int)
    requires
        0 <= i < key.len(),
    ensures
        safe_key(key).len() == key.len(),
        key[i] == '/' || key[i] == ':' ==> safe_key(key)[i] == '_',
        key[i] != '/' && key[i] != ':' ==> safe_key(key)[i] == key[i],
{
}

/// Just the files with the extension of a checkpoint are listed, each by the
/// part of its name before that.
pub proof fn law_checkpoints_are_listed(paths: Seq<Seq<char>>, stem: Seq<char>)
    ensures
        keys_of(paths).contains(stem) <==> exists|i: int|
            0 <= i < paths.len() && file_stem_of(#[trigger] paths[i]) == Some(stem)
                && path_extension(paths[i]) == Some("json"@),
    decreases paths.len(),
{
    if paths.len() > 0 {
        let front = paths.drop_last();
        let f = keys_of(front);
        let all = keys_of(paths);
        law_checkpoints_are_listed(front, stem);
        if f.contains(stem) {
            let j = choose|j: int| 0 <= j < f.len() && f[j] == stem;
            assert(all[j] == stem);
            let i = choose|i: int|
                0 <= i < front.len() && file_stem_of(#[trigger] front[i]) == Some(stem)
                    && path_extension(front[i]) == Some("json"@);
            assert(paths[i] == front[i]);
        }
        let n = paths.len() - 1;
        if file_stem_of(paths[n]) == Some(stem) && path_extension(paths[n]) == Some("json"@) {
            assert(all[f.len() as int] == stem);
        }
        if all.contains(stem) && !f.contains(stem) {
            let j = choose|j: int| 0 <= j < all.len() && all[j] == stem;
            if j < f.len() {
                assert(f[j] == stem);
            }
            assert(file_stem_of(paths[n]) == Some(stem));
        }
        if exists|i: int|
            0 <= i < paths.len() && file_stem_of(#[trigger] paths[i]) == Some(stem)
                && path_extension(paths[i]) == Some("json"@) {
            let i = choose|i: int|
                0 <= i < paths.len() && file_stem_of(#[trigger] paths[i]) == Some(stem)
                    && path_extension(paths[i]) == Some("json"@);
            if i < n {
                assert(front[i] == paths[i]);
            }
        }
    }
}

/// What is kept under a key stands in a file of its name, and is written beside
/// it first.
pub proof fn law_keys_have_their_files(dir: Seq<char>, key: Seq<char>)
    ensures
        checkpoint_path(dir, key) == path_join(dir, safe_key(key) + ".json"@),
        temp_path(dir, key) == path_with_extension(
            path_join(dir, safe_key(key) + ".json"@),
            "tmp"@,
        ),
{
}

} // verus!
