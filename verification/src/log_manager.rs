//! The logs of containers.
//!
//! The log of a container is a run of numbered files, of which a limited number
//! is kept. A file that would grow beyond its limit is followed by the next one.
use crate::error::KubeletError;
use crate::paths::{join_path, path_join};
use crate::rfc3339::{format_rfc3339, rfc3339_text};
use crate::text::{
    cat2, cat5, cat7, chars_of, dec, decimal, ends_with, find_from, first_index, has_suffix,
    lemma_dec_suffixed, lemma_first_index_is, lemma_other_suffix, natural_upto, parse_u32,
    parse_u64, same, string_of, strip_suffix, texts, without_suffix,
};
use crate::types::Timestamp;
use vstd::prelude::*;
use vstd::utf8::encode_utf8;

verus! {

// ---------------------------------------------------------------------------
// Entries
// ---------------------------------------------------------------------------

/// A line of a log.
#[derive(Debug)]
pub struct LogEntry {
    pub log: String,
    /// `stdout` or `stderr`.
    pub stream: String,
    /// The time, as text.
    pub time: String,
}

/// A message with a line break at its end.
pub open spec fn with_newline(message: Seq<char>) -> Seq<char> {
    if has_suffix(message, "\n"@) {
        message
    } else {
        message + "\n"@
    }
}

fn ended(message: &str) -> (r: String)
    ensures
        r@ == with_newline(message@),
{
    if ends_with(message, "\n") {
        message.to_owned()
    } else {
        cat2(message, "\n")
    }
}

/// What serde_json's `to_string` yields for a text: a JSON string.
pub uninterp spec fn json_quoted(s: Seq<char>) -> Seq<char>;

/// Calls `serde_json::to_string` on a text, which never fails. How characters
/// are escaped is not restated: the result is named, as a function of the
/// characters alone.
#[verifier::external_body]
fn json_string(s: &str) -> (r: String)
    ensures
        r@ == json_quoted(s@),
{
    serde_json::to_string(s).unwrap_or_default()
}

/// An entry of a stream, with the time of writing to the nanosecond.
pub open spec fn entry_is(e: LogEntry, message: Seq<char>, stream: Seq<char>, now: Timestamp) -> bool {
    &&& e.log@ == with_newline(message)
    &&& e.stream@ == stream
    &&& Some(e.time@) == rfc3339_text(now.secs, now.nanos, true)
}

/// The three parts of a line in the format of the container runtime interface:
/// time, stream and message. The flags between stream and message are passed
/// over.
pub open spec fn cri_parts(line: Seq<char>) -> Option<(Seq<char>, Seq<char>, Seq<char>)> {
    let a = first_index(line, ' ') as int;
    let rest = line.skip(a + 1);
    let b = first_index(rest, ' ') as int;
    let tail = rest.skip(b + 1);
    let c = first_index(tail, ' ') as int;
    if a >= line.len() || b >= rest.len() {
        None
    } else {
        Some(
            (
                line.take(a),
                rest.take(b),
                if c < tail.len() {
                    tail.skip(c + 1)
                } else {
                    Seq::empty()
                },
            ),
        )
    }
}

/// The entry of a line that is not in the agent's own format.
pub open spec fn cri_entry(line: Seq<char>, r: Option<LogEntry>) -> bool {
    match cri_parts(line) {
        Some((time, stream, message)) => if stream == "stdout"@ || stream == "stderr"@ {
            r matches Some(e) && e.log@ == with_newline(message) && e.stream@ == stream && e.time@
                == time
        } else {
            r is None
        },
        None => r is None,
    }
}

impl LogEntry {
    /// An entry of the standard output; nothing where the time cannot be
    /// written.
    pub fn stdout(message: &str, now: Timestamp) -> (r: Option<Self>)
        ensures
            match r {
                Some(e) => entry_is(e, message@, "stdout"@, now),
                None => rfc3339_text(now.secs, now.nanos, true) is None,
            },
    {
        match format_rfc3339(now.secs, now.nanos, true) {
            Some(time) => Some(
                LogEntry { log: ended(message), stream: "stdout".to_owned(), time },
            ),
            None => None,
        }
    }

    /// An entry of the standard error output; nothing where the time cannot be
    /// written.
    pub fn stderr(message: &str, now: Timestamp) -> (r: Option<Self>)
        ensures
            match r {
                Some(e) => entry_is(e, message@, "stderr"@, now),
                None => rfc3339_text(now.secs, now.nanos, true) is None,
            },
    {
        match format_rfc3339(now.secs, now.nanos, true) {
            Some(time) => Some(
                LogEntry { log: ended(message), stream: "stderr".to_owned(), time },
            ),
            None => None,
        }
    }

    /// The entry as a line of the agent's own format: a JSON object.
    pub open spec fn json_line(self) -> Seq<char> {
        "{\"log\":"@ + json_quoted(self.log@) + ",\"stream\":"@ + json_quoted(self.stream@)
            + ",\"time\":"@ + json_quoted(self.time@) + "}\n"@
    }

    /// The entry as a line of the agent's own format.
    pub fn to_json_line(&self) -> (r: String)
        ensures
            r@ == self.json_line(),
            r@ == "{\"log\":"@ + json_quoted(self.log@) + ",\"stream\":"@ + json_quoted(self.stream@)
                + ",\"time\":"@ + json_quoted(self.time@) + "}\n"@,
    {
        let log = json_string(self.log.as_str());
        let stream = json_string(self.stream.as_str());
        let time = json_string(self.time.as_str());
        cat7(
            "{\"log\":",
            log.as_str(),
            ",\"stream\":",
            stream.as_str(),
            ",\"time\":",
            time.as_str(),
            "}\n",
        )
    }

    /// Reads a line of a log. `own` is the entry that it holds, where it is in
    /// the agent's own format; else it is read in the format of the container
    /// runtime interface.
    pub fn parse_line(line: &str, own: Option<LogEntry>) -> (r: Option<Self>)
        ensures
            match own {
                Some(e) => r == Some(e),
                None => cri_entry(line@, r),
            },
    {
        if let Some(e) = own {
            return Some(e);
        }
        let v = chars_of(line);
        let a: usize = find_from(&v, 0, ' ');
        assert(v@.skip(0) =~= v@);
        if a >= v.len() {
            return None;
        }
        let ghost rest = v@.skip(a + 1);
        let b: usize = find_from(&v, a + 1, ' ');
        if b >= v.len() {
            return None;
        }
        let ghost tail = rest.skip(b - a);
        assert(tail =~= v@.skip(b + 1));
        let c: usize = find_from(&v, b + 1, ' ');
        let time = string_of(&v, 0, a);
        let stream = string_of(&v, a + 1, b);
        let message = if c < v.len() {
            string_of(&v, c + 1, v.len())
        } else {
            String::new()
        };
        proof {
            assert(time@ =~= v@.take(a as int));
            assert(stream@ =~= rest.take(b - a - 1));
            if c < v@.len() {
                assert(message@ =~= tail.skip(c - b));
            } else {
                assert(message@ =~= Seq::<char>::empty());
            }
        }
        if !same(stream.as_str(), "stdout") && !same(stream.as_str(), "stderr") {
            return None;
        }
        Some(LogEntry { log: ended(message.as_str()), stream, time })
    }
}

// ---------------------------------------------------------------------------
// The files of a container
// ---------------------------------------------------------------------------

/// A file of a log directory.
#[derive(Debug)]
pub struct LogFile {
    pub name: String,
    pub size: u64,
}

/// The number of a log file by its name.
pub open spec fn log_number(name: Seq<char>) -> Option<nat> {
    match without_suffix(name, ".log"@) {
        Some(n) => natural_upto(n, u32::MAX as int),
        None => None,
    }
}

/// The largest number of the log files; zero where there is none.
pub open spec fn last_number(files: Seq<LogFile>) -> nat
    decreases files.len(),
{
    if files.len() == 0 {
        0
    } else {
        let front = last_number(files.drop_last());
        match log_number(files.last().name@) {
            Some(n) => if n > front {
                n
            } else {
                front
            },
            None => front,
        }
    }
}

/// The name of a log file.
pub open spec fn log_name(index: nat) -> Seq<char> {
    dec(index) + ".log"@
}

/// The size of the first file of the given name; zero where there is none.
pub open spec fn size_of_file(files: Seq<LogFile>, name: Seq<char>) -> u64
    decreases files.len(),
{
    if files.len() == 0 {
        0
    } else if files[0].name@ == name {
        files[0].size
    } else {
        size_of_file(files.skip(1), name)
    }
}

/// The change to the next file of a log. The files that are then too many are
/// removed before the next one is created.
#[derive(Debug)]
pub struct Rotation {
    /// The file that is written from now on.
    pub create: String,
}

/// What is written to a log.
#[derive(Debug)]
pub struct LogWrite {
    /// The change of the file that comes first.
    pub rotation: Option<Rotation>,
    /// The line that the file gets then.
    pub line: String,
}

/// Keeps which file of the log of a container is written.
#[derive(Debug)]
pub struct ContainerLogManager {
    pub log_dir: String,
    /// The size that a file is not to exceed.
    pub max_size_bytes: u64,
    /// How many files are kept.
    pub max_files: u32,
    pub current_index: u32,
    pub current_size: u64,
    /// Whether the current file is open. Nothing is written while it is not.
    pub open: bool,
}

/// The path of a log file.
pub open spec fn log_path(log_dir: Seq<char>, index: nat) -> Seq<char> {
    path_join(log_dir, log_name(index))
}

fn path_of(log_dir: &str, index: u32) -> (r: String)
    ensures
        r@ == log_path(log_dir@, index as nat),
{
    let n = decimal(index as u64);
    let name = cat2(n.as_str(), ".log");
    join_path(log_dir, name.as_str())
}

/// Whether a file is a log file older than those that are kept.
pub open spec fn is_surplus(m: ContainerLogManager, name: Seq<char>) -> bool {
    log_number(name) matches Some(n) && n + m.max_files <= m.current_index
}

/// The paths of those of `files` that are older than the log files that are
/// kept.
pub open spec fn surplus_paths(m: ContainerLogManager, files: Seq<LogFile>) -> Seq<Seq<char>>
    decreases files.len(),
{
    if files.len() == 0 {
        Seq::empty()
    } else {
        let front = surplus_paths(m, files.drop_last());
        if is_surplus(m, files.last().name@) {
            front.push(path_join(m.log_dir@, files.last().name@))
        } else {
            front
        }
    }
}

fn number_of(name: &str) -> (r: Option<u32>)
    ensures
        match r {
            Some(n) => log_number(name@) == Some(n as nat),
            None => log_number(name@) is None,
        },
{
    match strip_suffix(name, ".log") {
        Some(n) => parse_u32(n),
        None => None,
    }
}

/// The change to the next file.
pub open spec fn rotation_is(
    before: ContainerLogManager,
    after: ContainerLogManager,
    r: Rotation,
) -> bool {
    &&& after.log_dir == before.log_dir
    &&& after.max_size_bytes == before.max_size_bytes
    &&& after.max_files == before.max_files
    &&& after.current_index == before.current_index + 1
    &&& after.current_size == 0
    &&& !after.open
    &&& r.create@ == log_path(before.log_dir@, after.current_index as nat)
}

/// A manager that goes on with the last of some files.
pub open spec fn fresh_manager(
    m: ContainerLogManager,
    log_dir: Seq<char>,
    max_size_bytes: u64,
    max_files: u32,
    files: Seq<LogFile>,
) -> bool {
    &&& m.log_dir@ == log_dir
    &&& m.max_size_bytes == max_size_bytes
    &&& m.max_files == max_files
    &&& m.current_index == last_number(files)
    &&& m.current_size == size_of_file(files, log_name(last_number(files)))
    &&& !m.open
}

/// Whether the current file is too small for `n` more bytes.
pub open spec fn is_full(m: ContainerLogManager, n: nat) -> bool {
    m.current_size + n > m.max_size_bytes
}

impl ContainerLogManager {
    /// The number of the file that is written: the largest there is.
    pub fn find_current_index(files: &Vec<LogFile>) -> (r: u32)
        ensures
            r == last_number(files@),
    {
        let mut best: u32 = 0;
        let mut i: usize = 0;
        while i < files.len()
            invariant
                i <= files@.len(),
                best == last_number(files@.take(i as int)),
            decreases files@.len() - i,
        {
            assert(files@.take(i + 1).drop_last() =~= files@.take(i as int));
            if let Some(n) = number_of(files[i].name.as_str()) {
                if n > best {
                    best = n;
                }
            }
            i = i + 1;
        }
        assert(files@.take(i as int) =~= files@);
        best
    }

    /// A manager of the log in a directory, of which `listing` gives the files,
    /// or why it could not be created. It goes on with the last file, which is
    /// still to be opened.
    pub fn new(
        log_dir: &str,
        max_size_bytes: u64,
        max_files: u32,
        listing: &Result<Vec<LogFile>, String>,
    ) -> (r: Result<Self, KubeletError>)
        ensures
            match *listing {
                Ok(files) => r matches Ok(m) && fresh_manager(
                    m,
                    log_dir@,
                    max_size_bytes,
                    max_files,
                    files@,
                ),
                Err(e) => r matches Err(KubeletError::Storage(m)) && m@ == "create log dir: "@ + e@,
            },
    {
        let files = match listing {
            Ok(files) => files,
            Err(e) => {
                return Err(KubeletError::Storage(cat2("create log dir: ", e.as_str())));
            },
        };
        let current_index: u32 = ContainerLogManager::find_current_index(files);
        let n = decimal(current_index as u64);
        let name = cat2(n.as_str(), ".log");
        let mut current_size: u64 = 0;
        let mut i: usize = 0;
        assert(files@.skip(0) =~= files@);
        let mut found = false;
        while i < files.len() && !found
            invariant
                i <= files@.len(),
                if found {
                    current_size == size_of_file(files@, name@)
                } else {
                    current_size == 0 && size_of_file(files@, name@) == size_of_file(
                        files@.skip(i as int),
                        name@,
                    )
                },
            decreases files@.len() - i,
        {
            assert(files@.skip(i as int)[0] == files@[i as int]);
            assert(files@.skip(i as int).skip(1) =~= files@.skip(i + 1));
            if same(files[i].name.as_str(), name.as_str()) {
                current_size = files[i].size;
                found = true;
            }
            i = i + 1;
        }
        Ok(
            ContainerLogManager {
                log_dir: log_dir.to_owned(),
                max_size_bytes,
                max_files,
                current_index,
                current_size,
                open: false,
            },
        )
    }

    /// Takes up that the current file was opened, or why not.
    pub fn opened(&mut self, outcome: &Result<(), String>) -> (r: Result<(), KubeletError>)
        ensures
            *final(self) == (ContainerLogManager { open: outcome is Ok, ..*old(self) }),
            match *outcome {
                Ok(_) => r is Ok,
                Err(e) => r matches Err(KubeletError::Storage(m)) && m@ == "open log file: "@ + e@,
            },
    {
        match outcome {
            Ok(_) => {
                self.open = true;
                Ok(())
            },
            Err(e) => {
                self.open = false;
                Err(KubeletError::Storage(cat2("open log file: ", e.as_str())))
            },
        }
    }

    /// What writing an entry takes: its line, and before it the change to the
    /// next file where the current one would become too large.
    pub fn write(&mut self, entry: &LogEntry) -> (r: LogWrite)
        requires
            old(self).current_size + encode_utf8(entry.json_line()).len() <= u64::MAX,
            is_full(*old(self), encode_utf8(entry.json_line()).len()) ==> old(self).current_index
                < u32::MAX,
        ensures
            r.line@ == entry.json_line(),
            if is_full(*old(self), encode_utf8(entry.json_line()).len()) {
                r.rotation matches Some(rot) && rotation_is(*old(self), *final(self), rot)
            } else {
                r.rotation is None && *final(self) == *old(self)
            },
    {
        let line = entry.to_json_line();
        let n: u64 = line.as_str().as_bytes().len() as u64;
        let rotation = if self.current_size + n > self.max_size_bytes {
            Some(self.rotate())
        } else {
            None
        };
        LogWrite { rotation, line }
    }

    /// Takes up that the next file was opened, or why not.
    pub fn finish_rotation(&mut self, outcome: &Result<(), String>) -> (r: Result<
        (),
        KubeletError,
    >)
        ensures
            *final(self) == (ContainerLogManager { open: outcome is Ok, ..*old(self) }),
            match *outcome {
                Ok(_) => r is Ok,
                Err(e) => r matches Err(KubeletError::Storage(m)) && m@ == "open rotated log: "@
                    + e@,
            },
    {
        match outcome {
            Ok(_) => {
                self.open = true;
                Ok(())
            },
            Err(e) => {
                self.open = false;
                Err(KubeletError::Storage(cat2("open rotated log: ", e.as_str())))
            },
        }
    }

    /// Takes up that a line was written to the open file, or why not.
    pub fn finish_write(&mut self, line: &str, outcome: &Result<(), String>) -> (r: Result<
        (),
        KubeletError,
    >)
        requires
            old(self).open && outcome is Ok ==> old(self).current_size + encode_utf8(line@).len()
                <= u64::MAX,
        ensures
            match *outcome {
                Err(e) => if old(self).open {
                    r matches Err(KubeletError::Storage(m)) && m@ == "write log: "@ + e@
                } else {
                    r is Ok
                },
                Ok(_) => r is Ok,
            },
            *final(self) == if old(self).open && outcome is Ok {
                ContainerLogManager {
                    current_size: (old(self).current_size + encode_utf8(line@).len()) as u64,
                    ..*old(self)
                }
            } else {
                *old(self)
            },
    {
        if !self.open {
            return Ok(());
        }
        match outcome {
            Ok(_) => {
                let n: u64 = line.as_bytes().len() as u64;
                self.current_size = self.current_size + n;
                Ok(())
            },
            Err(e) => Err(KubeletError::Storage(cat2("write log: ", e.as_str()))),
        }
    }

    /// Changes to the next file. What `surplus_files` names is then removed.
    pub fn rotate(&mut self) -> (r: Rotation)
        requires
            old(self).current_index < u32::MAX,
        ensures
            rotation_is(*old(self), *final(self), r),
    {
        self.current_index = self.current_index + 1;
        self.current_size = 0;
        self.open = false;
        Rotation { create: path_of(self.log_dir.as_str(), self.current_index) }
    }

    /// The log files that are too many: all that are older than those that are
    /// kept. `files` are those of the log directory.
    pub fn surplus_files(&self, files: &Vec<LogFile>) -> (r: Vec<String>)
        ensures
            texts(r@) == surplus_paths(*self, files@),
    {
        let mut out: Vec<String> = Vec::new();
        let mut i: usize = 0;
        assert(texts(out@) =~= surplus_paths(*self, files@.take(0)));
        while i < files.len()
            invariant
                i <= files@.len(),
                texts(out@) == surplus_paths(*self, files@.take(i as int)),
            decreases files@.len() - i,
        {
            let ghost before = out@;
            assert(files@.take(i + 1).drop_last() =~= files@.take(i as int));
            let name = files[i].name.as_str();
            if let Some(n) = number_of(name) {
                if n as u64 + self.max_files as u64 <= self.current_index as u64 {
                    let path = join_path(self.log_dir.as_str(), name);
                    out.push(path);
                    assert(texts(out@) =~= texts(before).push(path@));
                }
            }
            i = i + 1;
        }
        assert(files@.take(i as int) =~= files@);
        out
    }

    /// The file that is written.
    pub fn current_log_path(&self) -> (r: String)
        ensures
            r@ == log_path(self.log_dir@, self.current_index as nat),
    {
        path_of(self.log_dir.as_str(), self.current_index)
    }

    /// The number of the oldest file that is kept.
    pub open spec fn first_kept(self) -> int {
        if self.current_index >= self.max_files - 1 {
            self.current_index - (self.max_files - 1)
        } else {
            0
        }
    }

    /// The files that are kept, the oldest first, where they are among those at
    /// `present`.
    pub fn log_files(&self, present: &Vec<String>) -> (r: Vec<String>)
        requires
            self.max_files > 0,
        ensures
            texts(r@) == kept_paths(
                self.log_dir@,
                texts(present@),
                self.first_kept() as nat,
                (self.current_index + 1) as nat,
            ),
    {
        let start: u32 = self.current_index.saturating_sub(self.max_files - 1);
        let mut out: Vec<String> = Vec::new();
        let mut i: u64 = start as u64;
        let ghost first = self.first_kept() as nat;
        assert(texts(out@) =~= kept_paths(self.log_dir@, texts(present@), first, first));
        while i <= self.current_index as u64
            invariant
                first <= i <= self.current_index + 1,
                texts(out@) == kept_paths(self.log_dir@, texts(present@), first, i as nat),
            decreases self.current_index + 1 - i,
        {
            let ghost before = out@;
            let path = path_of(self.log_dir.as_str(), i as u32);
            if crate::text::holds(present, path.as_str()) {
                out.push(path);
                assert(texts(out@) =~= texts(before).push(path@));
            }
            i = i + 1;
        }
        out
    }
}

/// The paths of the log files from `from` up to before `to` that are among
/// `present`.
pub open spec fn kept_paths(
    log_dir: Seq<char>,
    present: Seq<Seq<char>>,
    from: nat,
    to: nat,
) -> Seq<Seq<char>>
    decreases to,
{
    if to <= from {
        Seq::empty()
    } else {
        let front = kept_paths(log_dir, present, from, (to - 1) as nat);
        let path = log_path(log_dir, (to - 1) as nat);
        if present.contains(path) {
            front.push(path)
        } else {
            front
        }
    }
}

/// No more log files are kept than are to be: one that is not named as surplus
/// is among the last ones, of which there are no more, and the file that is
/// written is never named.
pub proof fn law_only_the_last_files_are_kept(m: ContainerLogManager, files: Seq<LogFile>, i: int)
    requires
        m.max_files > 0,
        0 <= i < files.len(),
        log_number(files[i].name@) is Some,
        log_number(files[i].name@)->0 <= m.current_index,
        !surplus_paths(m, files).contains(path_join(m.log_dir@, files[i].name@)),
    ensures
        m.first_kept() <= log_number(files[i].name@)->0 <= m.current_index,
        m.current_index - m.first_kept() < m.max_files,
        forall|name: Seq<char>| #[trigger]
            is_surplus(m, name) ==> log_number(name)->0 < m.first_kept(),
{
    if is_surplus(m, files[i].name@) {
        lemma_surplus_is_named(m, files, i);
    }
}

proof fn lemma_surplus_is_named(m: ContainerLogManager, files: Seq<LogFile>, i: int)
    requires
        0 <= i < files.len(),
        is_surplus(m, files[i].name@),
    ensures
        surplus_paths(m, files).contains(path_join(m.log_dir@, files[i].name@)),
    decreases files.len(),
{
    let all = surplus_paths(m, files);
    let path = path_join(m.log_dir@, files[i].name@);
    if i == files.len() - 1 {
        assert(all[all.len() - 1] == path);
    } else {
        let front = files.drop_last();
        assert(front[i] == files[i]);
        lemma_surplus_is_named(m, front, i);
        let named = surplus_paths(m, front);
        let k = choose|k: int| 0 <= k < named.len() && named[k] == path;
        assert(all[k] == path);
    }
}

/// A file that is within its limit stays within it, where the entries themselves
/// are.
pub proof fn law_files_stay_within_the_limit(
    before: ContainerLogManager,
    rotated: ContainerLogManager,
    rotation: Rotation,
    line: Seq<char>,
)
    requires
        encode_utf8(line).len() <= before.max_size_bytes,
        if is_full(before, encode_utf8(line).len()) {
            rotation_is(before, rotated, rotation)
        } else {
            rotated == before
        },
    ensures
        rotated.current_size + encode_utf8(line).len() <= rotated.max_size_bytes,
{
}

// ---------------------------------------------------------------------------
// All logs of the node
// ---------------------------------------------------------------------------

/// Says where the logs of containers are.
#[derive(Debug)]
pub struct LogManager {
    pub log_root: String,
    pub max_size_bytes: u64,
    pub max_files: u32,
}

/// The directory of the logs of a pod.
pub open spec fn pod_log_dir_of(
    log_root: Seq<char>,
    namespace: Seq<char>,
    pod_name: Seq<char>,
    pod_uid: Seq<char>,
) -> Seq<char> {
    path_join(log_root, namespace + "_"@ + pod_name + "_"@ + pod_uid)
}

/// The sum of some sizes.
pub open spec fn total_size(sizes: Seq<u64>) -> nat
    decreases sizes.len(),
{
    if sizes.len() == 0 {
        0
    } else {
        total_size(sizes.drop_last()) + sizes.last() as nat
    }
}

proof fn lemma_total_size_mono(sizes: Seq<u64>, i: int)
    requires
        0 <= i <= sizes.len(),
    ensures
        total_size(sizes.take(i)) <= total_size(sizes),
    decreases sizes.len() - i,
{
    if i < sizes.len() {
        lemma_total_size_mono(sizes, i + 1);
        assert(sizes.take(i + 1).drop_last() =~= sizes.take(i));
    } else {
        assert(sizes.take(i) =~= sizes);
    }
}

impl LogManager {
    pub fn new(log_root: &str, max_size_bytes: u64, max_files: u32) -> (r: Self)
        ensures
            r.log_root@ == log_root@,
            r.max_size_bytes == max_size_bytes,
            r.max_files == max_files,
    {
        LogManager { log_root: log_root.to_owned(), max_size_bytes, max_files }
    }

    /// The directory of the logs of a pod.
    pub fn pod_log_dir(&self, namespace: &str, pod_name: &str, pod_uid: &str) -> (r: String)
        ensures
            r@ == pod_log_dir_of(self.log_root@, namespace@, pod_name@, pod_uid@),
    {
        let name = cat5(namespace, "_", pod_name, "_", pod_uid);
        join_path(self.log_root.as_str(), name.as_str())
    }

    /// The directory of the logs of a container.
    pub fn container_log_dir(
        &self,
        namespace: &str,
        pod_name: &str,
        pod_uid: &str,
        container_name: &str,
    ) -> (r: String)
        ensures
            r@ == path_join(
                pod_log_dir_of(self.log_root@, namespace@, pod_name@, pod_uid@),
                container_name@,
            ),
    {
        let dir = self.pod_log_dir(namespace, pod_name, pod_uid);
        join_path(dir.as_str(), container_name)
    }

    /// The manager of the log of a container, of whose directory `listing` gives
    /// the files, or why it could not be created.
    pub fn for_container(
        &self,
        namespace: &str,
        pod_name: &str,
        pod_uid: &str,
        container_name: &str,
        listing: &Result<Vec<LogFile>, String>,
    ) -> (r: Result<ContainerLogManager, KubeletError>)
        ensures
            match *listing {
                Ok(files) => r matches Ok(m) && fresh_manager(
                    m,
                    path_join(
                        pod_log_dir_of(self.log_root@, namespace@, pod_name@, pod_uid@),
                        container_name@,
                    ),
                    self.max_size_bytes,
                    self.max_files,
                    files@,
                ),
                Err(e) => r matches Err(KubeletError::Storage(m)) && m@ == "create log dir: "@ + e@,
            },
    {
        let dir = self.container_log_dir(namespace, pod_name, pod_uid, container_name);
        ContainerLogManager::new(dir.as_str(), self.max_size_bytes, self.max_files, listing)
    }

    /// What the removal of the logs of a pod yields. `outcome` is missing where
    /// there were none.
    pub fn remove_pod_logs(&self, outcome: &Option<Result<(), String>>) -> (r: Result<
        (),
        KubeletError,
    >)
        ensures
            match *outcome {
                Some(Err(e)) => r matches Err(KubeletError::Storage(m)) && m@
                    == "remove pod logs: "@ + e@,
                _ => r is Ok,
            },
    {
        match outcome {
            Some(o) => match o {
                Ok(_) => Ok(()),
                Err(e) => Err(KubeletError::Storage(cat2("remove pod logs: ", e.as_str()))),
            },
            None => Ok(()),
        }
    }

    /// The size of the log of a container whose files have the given sizes.
    pub fn log_size_bytes(&self, sizes: &Vec<u64>) -> (r: u64)
        requires
            total_size(sizes@) <= u64::MAX,
        ensures
            r == total_size(sizes@),
    {
        let mut sum: u64 = 0;
        let mut i: usize = 0;
        while i < sizes.len()
            invariant
                i <= sizes@.len(),
                total_size(sizes@) <= u64::MAX,
                sum == total_size(sizes@.take(i as int)),
            decreases sizes@.len() - i,
        {
            proof {
                assert(sizes@.take(i + 1).drop_last() =~= sizes@.take(i as int));
                lemma_total_size_mono(sizes@, i + 1);
            }
            sum = sum + sizes[i];
            i = i + 1;
        }
        assert(sizes@.take(i as int) =~= sizes@);
        sum
    }
}

pub open spec fn natural_or(s: Seq<char>, default: nat) -> nat {
    match natural_upto(s, u64::MAX as int) {
        Some(n) => n,
        None => default,
    }
}

/// The size that a text denotes. What cannot be read counts as ten, as one with
/// the largest unit, and as ten MiB without a unit.
pub open spec fn log_size_of(s: Seq<char>) -> nat {
    let n = s.len();
    if has_suffix(s, "Ki"@) {
        natural_or(s.take(n - 2), 10) * 1024
    } else if has_suffix(s, "Mi"@) {
        natural_or(s.take(n - 2), 10) * 1024 * 1024
    } else if has_suffix(s, "Gi"@) {
        natural_or(s.take(n - 2), 1) * 1024 * 1024 * 1024
    } else {
        natural_or(s, 10 * 1024 * 1024)
    }
}

fn parse_or(s: &str, default: u64) -> (r: u64)
    ensures
        r == natural_or(s@, default as nat),
{
    match parse_u64(s) {
        Some(n) => n,
        None => default,
    }
}

/// Parses the largest size of a log file, such as `10Mi`.
pub fn parse_log_max_size(s: &str) -> (r: u64)
    requires
        log_size_of(s@) <= u64::MAX,
    ensures
        r == log_size_of(s@),
{
    proof {
        reveal_strlit("Ki");
        reveal_strlit("Mi");
        reveal_strlit("Gi");
    }
    if let Some(n) = strip_suffix(s, "Ki") {
        return parse_or(n, 10) * 1024;
    }
    if let Some(n) = strip_suffix(s, "Mi") {
        return parse_or(n, 10) * 1024 * 1024;
    }
    if let Some(n) = strip_suffix(s, "Gi") {
        return parse_or(n, 1) * 1024 * 1024 * 1024;
    }
    parse_or(s, 10 * 1024 * 1024)
}

/// A message ends with one newline: one is added where there is none.
pub proof fn law_messages_end_with_a_newline(message: Seq<char>)
    ensures
        with_newline(message).len() > 0 && with_newline(message).last() == '\n',
        message.len() > 0 && message.last() == '\n' ==> with_newline(message) == message,
        message.len() == 0 || message.last() != '\n' ==> with_newline(message) == message.push(
            '\n',
        ),
{
    reveal_strlit("\n");
    assert("\n"@ =~= seq!['\n']);
    if message.len() > 0 {
        let t = message.skip(message.len() - 1);
        assert(t.len() == 1 && t[0] == message.last());
        if message.last() == '\n' {
            assert(t =~= "\n"@);
        }
    }
    assert(message + "\n"@ =~= message.push('\n'));
}

/// A line of a runtime's log is its time, its stream, a tag and the message,
/// which may hold blanks itself.
pub proof fn law_lines_are_taken_apart(
    time: Seq<char>,
    stream: Seq<char>,
    tag: Seq<char>,
    message: Seq<char>,
    r: Option<LogEntry>,
)
    requires
        !time.contains(' '),
        !stream.contains(' '),
        !tag.contains(' '),
        cri_entry(time + " "@ + stream + " "@ + tag + " "@ + message, r),
    ensures
        stream == "stdout"@ || stream == "stderr"@ ==> {
            &&& r is Some
            &&& r->0.time@ == time
            &&& r->0.stream@ == stream
            &&& r->0.log@ == with_newline(message)
        },
        stream != "stdout"@ && stream != "stderr"@ ==> r is None,
{
    reveal_strlit(" ");
    let line = time + " "@ + stream + " "@ + tag + " "@ + message;
    let rest = stream + " "@ + tag + " "@ + message;
    let tail = tag + " "@ + message;
    lemma_word_then_blank(time, rest);
    lemma_word_then_blank(stream, tail);
    lemma_word_then_blank(tag, message);
    assert(line =~= time + " "@ + rest);
    assert(rest =~= stream + " "@ + tail);
}

proof fn lemma_word_then_blank(word: Seq<char>, after: Seq<char>)
    requires
        !word.contains(' '),
    ensures
        first_index(word + " "@ + after, ' ') == word.len(),
        (word + " "@ + after).take(word.len() as int) == word,
        (word + " "@ + after).skip(word.len() as int + 1) == after,
        (word + " "@ + after).len() > word.len(),
{
    reveal_strlit(" ");
    let s = word + " "@ + after;
    assert(s[word.len() as int] == ' ');
    assert forall|i: int| 0 <= i < word.len() implies s[i] != ' ' by {
        assert(word.contains(word[i]));
        assert(s[i] == word[i]);
    }
    lemma_first_index_is(s, ' ', word.len() as int);
    assert(s.take(word.len() as int) =~= word);
    assert(s.skip(word.len() as int + 1) =~= after);
}

/// A log file is numbered by its name, and the name tells the number.
pub proof fn law_log_files_are_numbered(n: nat)
    requires
        n <= u32::MAX,
    ensures
        log_number(log_name(n)) == Some(n),
        log_name(n) == dec(n) + ".log"@,
{
    reveal_strlit(".log");
    assert(".log"@.last() == 'g');
    lemma_dec_suffixed(n, ".log"@);
}

/// The current file is the one with the highest number.
pub proof fn law_current_file_has_the_highest_number(files: Seq<LogFile>)
    ensures
        forall|i: int|
            0 <= i < files.len() && log_number((#[trigger] files[i]).name@) is Some ==> log_number(
                files[i].name@,
            )->0 <= last_number(files),
        last_number(files) > 0 ==> exists|i: int|
            0 <= i < files.len() && log_number((#[trigger] files[i]).name@) == Some(
                last_number(files),
            ),
    decreases files.len(),
{
    if files.len() > 0 {
        let front = files.drop_last();
        let n = files.len() - 1;
        law_current_file_has_the_highest_number(front);
        assert forall|i: int|
            0 <= i < files.len() && log_number((#[trigger] files[i]).name@) is Some implies log_number(
            files[i].name@,
        )->0 <= last_number(files) by {
            if i < n {
                assert(front[i] == files[i]);
            }
        }
        if last_number(files) > 0 {
            if log_number(files[n].name@) == Some(last_number(files)) {
                assert(log_number(files[n].name@) == Some(last_number(files)));
            } else {
                let i = choose|i: int|
                    0 <= i < front.len() && log_number((#[trigger] front[i]).name@) == Some(
                        last_number(front),
                    );
                assert(files[i] == front[i]);
            }
        }
    }
}

/// Changing the file makes the next number current and its file empty.
pub proof fn law_rotation_starts_the_next_file(
    before: ContainerLogManager,
    after: ContainerLogManager,
    r: Rotation,
)
    requires
        rotation_is(before, after, r),
    ensures
        after.current_index == before.current_index + 1,
        after.current_size == 0,
        r.create@ == path_join(before.log_dir@, dec((before.current_index + 1) as nat) + ".log"@),
        after.max_size_bytes == before.max_size_bytes,
        after.max_files == before.max_files,
{
}

/// The size of a log is read in bytes, or in units of 1024 bytes, of its square
/// and of its cube with the suffixes `Ki`, `Mi` and `Gi`.
pub proof fn law_log_sizes_are_read(n: nat)
    requires
        n <= u64::MAX,
    ensures
        log_size_of(dec(n)) == n,
        log_size_of(dec(n) + "Ki"@) == n * 1024,
        log_size_of(dec(n) + "Mi"@) == n * 1024 * 1024,
        log_size_of(dec(n) + "Gi"@) == n * 1024 * 1024 * 1024,
{
    reveal_strlit("Ki");
    reveal_strlit("Mi");
    reveal_strlit("Gi");
    lemma_dec_suffixed(n, "Ki"@);
    lemma_dec_suffixed(n, "Mi"@);
    lemma_dec_suffixed(n, "Gi"@);
    lemma_dec_suffixed(n, Seq::empty());
    let d = dec(n).len() as int;
    let m = dec(n) + "Mi"@;
    let g = dec(n) + "Gi"@;
    assert(m.last() == 'i' && g.last() == 'i');
    assert(m[d] == 'M' && g[d] == 'G');
    lemma_other_suffix(m, "Ki"@);
    lemma_other_suffix(g, "Ki"@);
    lemma_other_suffix(g, "Mi"@);
    lemma_other_suffix(dec(n), "Ki"@);
    lemma_other_suffix(dec(n), "Mi"@);
    lemma_other_suffix(dec(n), "Gi"@);
}

/// The logs of a pod lie below the root, by namespace, name and identity.
pub proof fn law_pod_logs_have_their_place(
    log_root: Seq<char>,
    namespace: Seq<char>,
    pod_name: Seq<char>,
    pod_uid: Seq<char>,
)
    ensures
        pod_log_dir_of(log_root, namespace, pod_name, pod_uid) == path_join(
            log_root,
            namespace + "_"@ + pod_name + "_"@ + pod_uid,
        ),
{
}

/// The size of all files is the sum of their sizes.
pub proof fn law_each_file_counts(sizes: Seq<u64>, size: u64)
    ensures
        total_size(sizes.push(size)) == total_size(sizes) + size,
        total_size(Seq::<u64>::empty()) == 0,
{
    assert(sizes.push(size).drop_last() =~= sizes);
}

/// The size of the current file is that of the first file of its name, and zero
/// where there is none.
pub proof fn law_size_is_that_of_the_file(files: Seq<LogFile>, name: Seq<char>, i: int)
    ensures
        0 <= i < files.len() && files[i].name@ == name && (forall|j: int|
            0 <= j < i ==> (#[trigger] files[j]).name@ != name) ==> size_of_file(files, name)
            == files[i].size,
        (forall|j: int| 0 <= j < files.len() ==> (#[trigger] files[j]).name@ != name)
            ==> size_of_file(files, name) == 0,
    decreases files.len(),
{
    if files.len() > 0 {
        let rest = files.skip(1);
        law_size_is_that_of_the_file(rest, name, i - 1);
        if 0 < i < files.len() && files[i].name@ == name && (forall|j: int|
            0 <= j < i ==> (#[trigger] files[j]).name@ != name) {
            assert(files[0].name@ != name);
            assert(rest[i - 1] == files[i]);
            assert forall|j: int| 0 <= j < i - 1 implies (#[trigger] rest[j]).name@ != name by {
                assert(rest[j] == files[j + 1]);
            }
        }
        if forall|j: int| 0 <= j < files.len() ==> (#[trigger] files[j]).name@ != name {
            assert(files[0].name@ != name);
            assert forall|j: int| 0 <= j < rest.len() implies (#[trigger] rest[j]).name@ != name by {
                assert(rest[j] == files[j + 1]);
            }
        }
    }
}

/// The files that are listed are those within the numbers that are kept and
/// present, and no others.
pub proof fn law_kept_files_are_listed(
    log_dir: Seq<char>,
    present: Seq<Seq<char>>,
    from: nat,
    to: nat,
    path: Seq<char>,
)
    ensures
        kept_paths(log_dir, present, from, to).contains(path) <==> present.contains(path)
            && exists|n: nat| from <= n < to && path == #[trigger] log_path(log_dir, n),
    decreases to,
{
    if to > from {
        let last = (to - 1) as nat;
        let front = kept_paths(log_dir, present, from, last);
        let all = kept_paths(log_dir, present, from, to);
        law_kept_files_are_listed(log_dir, present, from, last, path);
        if front.contains(path) {
            let j = choose|j: int| 0 <= j < front.len() && front[j] == path;
            assert(all[j] == path);
        }
        if present.contains(path) && path == log_path(log_dir, last) {
            assert(all[front.len() as int] == path);
        }
        if all.contains(path) && !front.contains(path) {
            let j = choose|j: int| 0 <= j < all.len() && all[j] == path;
            if j < front.len() {
                assert(front[j] == path);
            }
            assert(path == log_path(log_dir, last));
        }
        if exists|n: nat| from <= n < to && path == #[trigger] log_path(log_dir, n) {
            let n = choose|n: nat| from <= n < to && path == #[trigger] log_path(log_dir, n);
            if n < last {
                assert(path == log_path(log_dir, n));
            }
        }
    }
}

/// A log that is opened goes on where its files end.
pub proof fn law_opened_log_goes_on(
    m: ContainerLogManager,
    log_dir: Seq<char>,
    max_size_bytes: u64,
    max_files: u32,
    files: Seq<LogFile>,
    i: int,
)
    requires
        fresh_manager(m, log_dir, max_size_bytes, max_files, files),
        0 <= i < files.len(),
    ensures
        m.log_dir@ == log_dir,
        m.max_size_bytes == max_size_bytes,
        m.max_files == max_files,
        log_number(files[i].name@) matches Some(n) ==> n <= m.current_index,
{
    law_current_file_has_the_highest_number(files);
}

/// An entry has its stream and its time, and its message with a newline.
pub proof fn law_entries_keep_their_parts(
    e: LogEntry,
    message: Seq<char>,
    stream: Seq<char>,
    now: Timestamp,
)
    requires
        entry_is(e, message, stream, now),
        message.len() > 0,
        message.last() != '\n',
    ensures
        e.stream@ == stream,
        e.log@ == message.push('\n'),
        Some(e.time@) == rfc3339_text(now.secs, now.nanos, true),
{
    law_messages_end_with_a_newline(message);
}

/// Rotating goes to the next file of the same log, which is empty.
pub proof fn law_rotation_goes_to_the_next_file(
    before: ContainerLogManager,
    after: ContainerLogManager,
    r: Rotation,
)
    requires
        rotation_is(before, after, r),
    ensures
        after.log_dir == before.log_dir,
        after.max_size_bytes == before.max_size_bytes,
        after.max_files == before.max_files,
        after.current_index == before.current_index + 1,
        after.current_size == 0,
        r.create@ == log_path(before.log_dir@, before.current_index as nat + 1),
{
}

} // verus!
