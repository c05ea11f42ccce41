//! The destination file's archive: which files of the archive directory
//! count, which of them is the oldest, and what a rotation does.

use crate::clock::{
    has_shape, local_now, local_time_text, parse_stamp, parsed_stamp, Timestamp, ARCHIVE_FORMAT,
    ARCHIVE_SHAPE,
};
use crate::text::{contains, contains_text, occurs_at, remove_all, without_all};
use vstd::prelude::*;
use vstd::string::StringExecFns;

verus! {

/// One mebibyte: the largest buffer that a copy reads into.
pub const MB: usize = 1024 * 1024;

/// The size assumed of a file whose size cannot be read.
pub const MAX_FILE_SIZE: usize = 1000000000;

/// The number of archived files above which the oldest is deleted.
pub const MAX_ARCHIVES: usize = 15;

/// The usual name of the current log file.
pub const DEFAULT_FILE_NAME: &'static str = "log.txt";

/// The usual name of the archive directory.
pub const DEFAULT_ARCHIVE_DIR: &'static str = "archives";

/// The directory that holds the current log file.
#[derive(Debug, Default)]
pub struct Directory(pub &'static str);

/// The name of the current log file.
#[derive(Debug, Default)]
pub struct FileName(pub &'static str);

/// A file of the archive directory, as a scan found it.
#[derive(Debug, Default)]
pub struct DirFile {
    pub date_of_creation: Timestamp,
    pub path: String,
    pub name: String,
}

/// Whether and where replaced log files are kept.
#[derive(Debug, Clone, Copy)]
pub enum ArchiveType {
    /// Nothing is kept: the file is emptied when it is opened.
    Disabled,
    /// Replaced files are kept in the named directory, 15 at most.
    Archive(&'static str),
}

impl Default for ArchiveType {
    /// No archive.
    fn default() -> (archive: Self)
        ensures
            archive == ArchiveType::Disabled,
    {
        ArchiveType::Disabled
    }
}

/// What a name in the archive directory stands for.
#[derive(Debug, Clone, Copy, PartialEq, Eq, Structural)]
pub enum EntryKind {
    /// A file that the operating system put there: passed over in silence.
    Metadata,
    /// A file that is no log: left alone, with a warning.
    Incompatible,
    /// An archived log file.
    Archive,
}

/// What `name` stands for: a name that holds `.DS_Store` is metadata, any
/// other without `log` in it is incompatible, the rest are archives.
pub open spec fn kind_of(name: Seq<char>) -> EntryKind {
    if contains_text(name, ".DS_Store"@) {
        EntryKind::Metadata
    } else if !contains_text(name, "log"@) {
        EntryKind::Incompatible
    } else {
        EntryKind::Archive
    }
}

/// The part of an archive's name that holds its date: the name without
/// any `log ` in it.
pub open spec fn date_text(name: Seq<char>) -> Seq<char> {
    without_all(name, "log "@)
}

/// The date that an archive's name holds, if it holds one.
pub open spec fn name_date(name: Seq<char>) -> Option<Timestamp> {
    parsed_stamp(date_text(name), ARCHIVE_FORMAT@)
}

/// The path of `name` inside `dir`.
pub open spec fn path_in(dir: Seq<char>, name: Seq<char>) -> Seq<char> {
    dir + "/"@ + name
}

/// The date given to an archive: the one read from its name, or `now`
/// where the name holds none.
pub open spec fn entry_date(parsed: Option<Timestamp>, now: Timestamp) -> Timestamp {
    match parsed {
        Some(date) => date,
        None => now,
    }
}

/// What `name` stands for.
pub fn entry_kind(name: &str) -> (kind: EntryKind)
    ensures
        kind == kind_of(name@),
{
    if contains(name, ".DS_Store") {
        EntryKind::Metadata
    } else if !contains(name, "log") {
        EntryKind::Incompatible
    } else {
        EntryKind::Archive
    }
}

/// The path of `name` inside `dir`.
pub fn join_path(dir: &str, name: &str) -> (path: String)
    ensures
        path@ == path_in(dir@, name@),
{
    let mut path = String::from_str(dir);
    path.append("/");
    path.append(name);
    path
}

/// The paths that a rotation works on.
#[derive(Debug)]
pub struct RotationPaths {
    /// The current log file.
    pub current: String,
    /// The directory of the archived files.
    pub archive_dir: String,
}

/// How the destination file is opened.
#[derive(Debug)]
pub enum OpenPlan {
    /// The file of this name is opened and emptied.
    Truncate(String),
    /// The archive is rotated, and the current file is made anew.
    Rotate(RotationPaths),
}

/// The paths of a rotation: the file `log_file` and the directory
/// `arch_dir`, both inside `dir`.
pub fn rotation_paths(log_file: &FileName, dir: &Directory, arch_dir: &str) -> (paths:
    RotationPaths)
    ensures
        paths.current@ == path_in(dir.0@, log_file.0@),
        paths.archive_dir@ == path_in(dir.0@, arch_dir@),
{
    RotationPaths { current: join_path(dir.0, log_file.0), archive_dir: join_path(dir.0, arch_dir) }
}

/// How the file `curr_file` is opened under the policy `archive`: without
/// an archive it is opened by its name alone and emptied, with one the
/// archive in `dir` is rotated.
pub fn open_plan(curr_file: &FileName, dir: &Directory, archive: &ArchiveType) -> (plan: OpenPlan)
    ensures
        match *archive {
            ArchiveType::Disabled => plan matches OpenPlan::Truncate(path) && path@
                == curr_file.0@,
            ArchiveType::Archive(arch_dir) => plan matches OpenPlan::Rotate(paths)
                && paths.current@ == path_in(dir.0@, curr_file.0@) && paths.archive_dir@
                == path_in(dir.0@, arch_dir@),
        },
{
    match archive {
        ArchiveType::Disabled => OpenPlan::Truncate(String::from_str(curr_file.0)),
        ArchiveType::Archive(arch_dir) => OpenPlan::Rotate(
            rotation_paths(curr_file, dir, arch_dir),
        ),
    }
}

/// The archive entry for `name` in `archive_dir`, created at `date`.
pub fn archive_entry(archive_dir: &str, name: &str, date: Timestamp) -> (file: DirFile)
    ensures
        file.date_of_creation == date,
        file.path@ == path_in(archive_dir@, name@),
        file.name@ == name@,
{
    DirFile {
        date_of_creation: date,
        path: join_path(archive_dir, name),
        name: String::from_str(name),
    }
}

/// The texts of `names`, in order.
pub open spec fn texts(names: Seq<String>) -> Seq<Seq<char>> {
    names.map_values(|name: String| name@)
}

/// Those of `names` that stand for `kind`, in order.
pub open spec fn names_of_kind(names: Seq<Seq<char>>, kind: EntryKind) -> Seq<Seq<char>>
    decreases names.len(),
{
    if names.len() == 0 {
        Seq::empty()
    } else if kind_of(names.last()) == kind {
        names_of_kind(names.drop_last(), kind).push(names.last())
    } else {
        names_of_kind(names.drop_last(), kind)
    }
}

/// Whether `file` is the entry of the archive `name` in `archive_dir`: it
/// has that name and path, and the date that its name holds, or a date of
/// the clock where the name holds none.
pub open spec fn is_entry_of(file: DirFile, archive_dir: Seq<char>, name: Seq<char>) -> bool {
    &&& file.name@ == name
    &&& file.path@ == path_in(archive_dir, name)
    &&& exists|now: Timestamp| file.date_of_creation == #[trigger] entry_date(name_date(name), now)
}

/// The date that the archive's name holds, if it holds one.
pub fn read_name_date(name: &str) -> (date: Option<Timestamp>)
    ensures
        date == name_date(name@),
{
    let text = remove_all(name, "log ");
    parse_stamp(text.as_str(), ARCHIVE_FORMAT)
}

/// The date of an archive, given the date that its name holds: that date,
/// or the clock's at this moment where the name holds none.
pub fn date_or_now(parsed: Option<Timestamp>) -> (date: Timestamp)
    ensures
        exists|now: Timestamp| date == #[trigger] entry_date(parsed, now),
{
    let date = match parsed {
        Some(date) => date,
        None => local_now(),
    };
    assert(date == entry_date(parsed, date));
    date
}

/// What a scan of the archive directory found.
#[derive(Debug)]
pub struct ArchiveScan {
    /// The archived log files, in the order of the listing.
    pub files: Vec<DirFile>,
    /// The names of the files that are no logs, in the order of the listing.
    pub incompatible: Vec<String>,
}

/// Sorts the names listed in `archive_dir` into archives, files that are no
/// logs, and metadata, which is dropped. An archive is dated by its name;
/// one whose name holds no date is dated by the clock at that moment.
pub fn scan_archive(archive_dir: &str, names: &Vec<String>) -> (scan: ArchiveScan)
    ensures
        scan.files@.len() == names_of_kind(texts(names@), EntryKind::Archive).len(),
        forall|k: int|
            0 <= k < scan.files@.len() ==> is_entry_of(
                #[trigger] scan.files@[k],
                archive_dir@,
                names_of_kind(texts(names@), EntryKind::Archive)[k],
            ),
        texts(scan.incompatible@) == names_of_kind(texts(names@), EntryKind::Incompatible),
{
    let mut files: Vec<DirFile> = Vec::new();
    let mut incompatible: Vec<String> = Vec::new();
    let ghost all = texts(names@);
    let mut at: usize = 0;
    assert(all.take(0) =~= Seq::<Seq<char>>::empty());
    assert(texts(incompatible@) =~= Seq::<Seq<char>>::empty());
    while at < names.len()
        invariant
            at <= names.len(),
            all == texts(names@),
            files@.len() == names_of_kind(all.take(at as int), EntryKind::Archive).len(),
            forall|k: int|
                0 <= k < files@.len() ==> is_entry_of(
                    #[trigger] files@[k],
                    archive_dir@,
                    names_of_kind(all.take(at as int), EntryKind::Archive)[k],
                ),
            texts(incompatible@) == names_of_kind(all.take(at as int), EntryKind::Incompatible),
        decreases names.len() - at,
    {
        let name = names[at].as_str();
        proof {
            assert(all.take(at + 1).drop_last() =~= all.take(at as int));
            assert(all.take(at + 1).last() == name@);
        }
        match entry_kind(name) {
            EntryKind::Metadata => {},
            EntryKind::Incompatible => {
                let ghost before = incompatible@;
                incompatible.push(String::from_str(name));
                assert(texts(incompatible@) =~= texts(before).push(name@));
            },
            EntryKind::Archive => {
                let date = date_or_now(read_name_date(name));
                files.push(archive_entry(archive_dir, name, date));
            },
        }
        at += 1;
    }
    assert(all.take(at as int) =~= all);
    ArchiveScan { files, incompatible }
}

/// The dates of `files`, in order.
pub open spec fn dates_of(files: Seq<DirFile>) -> Seq<Timestamp> {
    files.map_values(|file: DirFile| file.date_of_creation)
}

/// Whether `index` is the place of the oldest of `dates`: none is earlier,
/// and all that stand before it are later.
pub open spec fn is_oldest(dates: Seq<Timestamp>, index: int) -> bool {
    &&& 0 <= index < dates.len()
    &&& forall|j: int| 0 <= j < dates.len() ==> !(#[trigger] dates[j]).is_before(dates[index])
    &&& forall|j: int| 0 <= j < index ==> dates[index].is_before(#[trigger] dates[j])
}

/// The place of the oldest of `files`, the first of them where several are
/// equally old; nothing where there are no files.
pub fn find_oldest_file_date(files: &[DirFile]) -> (oldest: Option<usize>)
    ensures
        files@.len() == 0 ==> oldest is None,
        files@.len() > 0 ==> oldest is Some && is_oldest(dates_of(files@), oldest->0 as int),
{
    if files.len() == 0 {
        return None;
    }
    let ghost dates = dates_of(files@);
    let mut oldest_date = files[0].date_of_creation;
    let mut file_to_remove: usize = 0;
    let mut i: usize = 0;
    while i < files.len()
        invariant
            i <= files.len(),
            dates == dates_of(files@),
            file_to_remove < files.len(),
            file_to_remove <= i,
            oldest_date == dates[file_to_remove as int],
            forall|j: int| 0 <= j < i ==> !(#[trigger] dates[j]).is_before(oldest_date),
            forall|j: int| 0 <= j < file_to_remove ==> oldest_date.is_before(#[trigger] dates[j]),
        decreases files.len() - i,
    {
        let file_date = files[i].date_of_creation;
        if file_date.before(&oldest_date) {
            oldest_date = file_date;
            file_to_remove = i;
        }
        i += 1;
    }
    Some(file_to_remove)
}

/// What a rotation does to the archive before it recreates the current file.
#[derive(Debug, Clone, Copy, PartialEq, Eq, Structural)]
pub enum RotationPlan {
    /// The archive is over its limit: the file at `index` is deleted, and
    /// the current file is not copied.
    Prune { index: usize },
    /// The archive has room: the current file, if there is one, is copied
    /// into a new archive file.
    Preserve,
}

/// Whether `plan` is the rotation for archived files with these dates: with
/// more than 15 of them the oldest is deleted and nothing is copied, else
/// the current file is kept.
pub open spec fn is_plan_for(plan: RotationPlan, dates: Seq<Timestamp>) -> bool {
    if dates.len() > MAX_ARCHIVES {
        plan matches RotationPlan::Prune { index } && is_oldest(dates, index as int)
    } else {
        plan == RotationPlan::Preserve
    }
}

/// What a rotation does, given the archived files that a scan found: with
/// more than 15 of them the oldest goes, else the current file is kept.
pub fn plan_rotation(files: &Vec<DirFile>) -> (plan: RotationPlan)
    ensures
        is_plan_for(plan, dates_of(files@)),
{
    if files.len() > MAX_ARCHIVES {
        match find_oldest_file_date(files.as_slice()) {
            Some(index) => RotationPlan::Prune { index },
            None => RotationPlan::Preserve,
        }
    } else {
        RotationPlan::Preserve
    }
}

/// The name of the archive file made at the date that `date` spells.
pub open spec fn archive_name(date: Seq<char>) -> Seq<char> {
    "log "@ + date
}

/// The name of the archive file made at the date that `date` spells.
pub fn archive_file_name(date: &str) -> (name: String)
    ensures
        name@ == archive_name(date@),
{
    let mut name = String::from_str("log ");
    name.append(date);
    name
}

/// The path in `archive_dir` of the archive file made at the date that
/// `date` spells.
pub fn archive_path_at(archive_dir: &str, date: &str) -> (path: String)
    ensures
        path@ == path_in(archive_dir@, archive_name(date@)),
{
    let name = archive_file_name(date);
    join_path(archive_dir, name.as_str())
}

/// The path in `archive_dir` of an archive file made at this moment: its
/// name spells the date that the clock gives.
pub fn archive_path(archive_dir: &str) -> (path: String)
    ensures
        exists|date: Seq<char>|
            #![trigger archive_name(date)]
            has_shape(date, ARCHIVE_SHAPE@) && path@ == path_in(archive_dir@, archive_name(date)),
{
    let date = local_time_text(ARCHIVE_FORMAT);
    let path = archive_path_at(archive_dir, date.as_str());
    assert(path@ == path_in(archive_dir@, archive_name(date@)));
    path
}

/// A file that a rotation makes counts as an archive in the next scan: a
/// name that spells a date of the clock's shape holds `log`, and holds no
/// `.DS_Store`.
pub proof fn lemma_new_archive_is_counted(date: Seq<char>)
    requires
        has_shape(date, ARCHIVE_SHAPE@),
    ensures
        kind_of(archive_name(date)) == EntryKind::Archive,
{
    reveal_strlit("log ");
    reveal_strlit("log");
    reveal_strlit(".DS_Store");
    reveal_strlit("00-00-00 00:00");
    let name = archive_name(date);
    assert(name.subrange(0, 3) =~= "log"@);
    assert(occurs_at(name, "log"@, 0));
    assert forall|at: int| !occurs_at(name, ".DS_Store"@, at) by {
        if occurs_at(name, ".DS_Store"@, at) {
            assert(name.subrange(at, at + 9)[0] == '.');
            assert(name[at] == '.');
            if at >= 4 {
                assert(name[at] == date[at - 4]);
                assert(ARCHIVE_SHAPE@[at - 4] != '.');
            }
        }
    }
}

/// How far a copy of the current file into its archive has come: the
/// length of the next read, and the size the file had at the start.
#[derive(Debug, Clone, Copy, PartialEq, Eq, Structural)]
pub struct CopyPlan {
    pub buf_len: usize,
    pub file_size: usize,
}

/// How a read of the current file ended.
#[derive(Debug, Clone, Copy, PartialEq, Eq, Structural)]
pub enum ReadOutcome {
    /// So many bytes were read. Zero: the end of the file.
    Read(usize),
    /// The read failed.
    Failed,
}

/// What follows a read: so many bytes of the buffer are written to the
/// archive, and the copy goes on with another read or ends.
#[derive(Debug, Clone, Copy, PartialEq, Eq, Structural)]
pub enum CopyStep {
    Continue { write: usize, next: CopyPlan },
    Finish { write: usize },
}

/// The smaller of two lengths.
pub open spec fn min_len(a: int, b: int) -> int {
    if a <= b {
        a
    } else {
        b
    }
}

/// The length of the read that follows one of `buf_len`: half of it, and
/// never less than one byte.
pub open spec fn halved(buf_len: int) -> int {
    if buf_len / 2 >= 1 {
        buf_len / 2
    } else {
        1
    }
}

impl CopyPlan {
    /// The plan at the start of a copy: the file's size is `known_size`, or
    /// a gigabyte where it is not known, and the first read takes a mebibyte
    /// or the whole file, whichever is less.
    pub open spec fn initial(known_size: Option<usize>) -> CopyPlan {
        let file_size = match known_size {
            Some(size) => size,
            None => MAX_FILE_SIZE,
        };
        CopyPlan { buf_len: min_len(MB as int, file_size as int) as usize, file_size }
    }

    /// What follows a read that ended in `outcome`. A failed read and the
    /// end of the file end the copy; so does a buffer that has outgrown the
    /// file. Otherwise what was read is written and the next read is half as
    /// long.
    pub open spec fn step(self, outcome: ReadOutcome) -> CopyStep {
        match outcome {
            ReadOutcome::Failed => CopyStep::Finish { write: 0 },
            ReadOutcome::Read(n) => if n == 0 || self.buf_len > self.file_size {
                CopyStep::Finish { write: n }
            } else {
                CopyStep::Continue {
                    write: n,
                    next: CopyPlan {
                        buf_len: halved(self.buf_len as int) as usize,
                        file_size: self.file_size,
                    },
                }
            },
        }
    }

    /// The plan at the start of a copy of a file of `known_size` bytes.
    pub fn start(known_size: Option<usize>) -> (plan: CopyPlan)
        ensures
            plan == CopyPlan::initial(known_size),
    {
        let file_size = match known_size {
            Some(size) => size,
            None => MAX_FILE_SIZE,
        };
        let buf_len = if MB <= file_size {
            MB
        } else {
            file_size
        };
        CopyPlan { buf_len, file_size }
    }

    /// What follows a read that ended in `outcome`.
    pub fn after_read(&self, outcome: ReadOutcome) -> (next: CopyStep)
        ensures
            next == self.step(outcome),
    {
        match outcome {
            ReadOutcome::Failed => CopyStep::Finish { write: 0 },
            ReadOutcome::Read(n) => {
                if n == 0 || self.buf_len > self.file_size {
                    CopyStep::Finish { write: n }
                } else {
                    let half = self.buf_len / 2;
                    let buf_len = if half >= 1 {
                        half
                    } else {
                        1
                    };
                    CopyStep::Continue {
                        write: n,
                        next: CopyPlan { buf_len, file_size: self.file_size },
                    }
                }
            },
        }
    }
}

/// How many bytes a read brings that could bring `wanted`: none into an
/// empty buffer or at the end of the file, and else at least one and no more
/// than the buffer takes and the file has left.
pub open spec fn read_len(wanted: int, buf_len: int, left: int) -> int {
    if buf_len <= 0 || left <= 0 {
        0
    } else if wanted < 1 {
        1
    } else {
        min_len(wanted, min_len(buf_len, left))
    }
}

/// What a copy that follows `plan` writes to the archive from the offset
/// `at` of a file that holds `content`, where the read at each offset
/// brings as many bytes as `reads` says, cut to what a read can bring.
pub open spec fn copied(
    plan: CopyPlan,
    content: Seq<u8>,
    at: int,
    reads: spec_fn(int) -> int,
) -> Seq<u8>
    decreases content.len() - at,
{
    let n = read_len(reads(at), plan.buf_len as int, content.len() - at);
    let chunk = content.subrange(at, at + n);
    match plan.step(ReadOutcome::Read(n as usize)) {
        CopyStep::Continue { write, next } => if n > 0 {
            chunk + copied(next, content, at + n, reads)
        } else {
            chunk
        },
        CopyStep::Finish { write } => chunk,
    }
}

/// A copy whose reads do not fail writes the rest of the file, however
/// short each read falls, as long as the buffer is not empty before the end
/// and has not outgrown the file.
pub proof fn lemma_copy_writes_rest(
    plan: CopyPlan,
    content: Seq<u8>,
    at: int,
    reads: spec_fn(int) -> int,
)
    requires
        0 <= at <= content.len(),
        plan.buf_len <= plan.file_size,
        plan.buf_len >= 1 || at == content.len(),
    ensures
        copied(plan, content, at, reads) == content.skip(at),
    decreases content.len() - at,
{
    let n = read_len(reads(at), plan.buf_len as int, content.len() - at);
    let chunk = content.subrange(at, at + n);
    if n > 0 {
        let next = CopyPlan {
            buf_len: halved(plan.buf_len as int) as usize,
            file_size: plan.file_size,
        };
        assert(plan.step(ReadOutcome::Read(n as usize)) == CopyStep::Continue {
            write: n as usize,
            next,
        });
        lemma_copy_writes_rest(next, content, at + n, reads);
        assert(chunk + content.skip(at + n) =~= content.skip(at));
    } else {
        assert(at == content.len());
        assert(chunk =~= content.skip(at));
    }
}

/// A copy whose reads do not fail writes the whole file, byte for byte,
/// whether the file's size was known at the start or not.
pub proof fn lemma_copy_is_complete(
    known_size: Option<usize>,
    content: Seq<u8>,
    reads: spec_fn(int) -> int,
)
    requires
        known_size matches Some(size) ==> size == content.len(),
    ensures
        copied(CopyPlan::initial(known_size), content, 0, reads) == content,
{
    lemma_copy_writes_rest(CopyPlan::initial(known_size), content, 0, reads);
    assert(content.skip(0) =~= content);
}

/// The dates that a scan gives to files: to each the date that its name
/// holds, and the clock's where the name holds none.
pub open spec fn entry_dates(parsed: Seq<Option<Timestamp>>, nows: Seq<Timestamp>) -> Seq<
    Timestamp,
> {
    Seq::new(parsed.len(), |i: int| entry_date(parsed[i], nows[i]))
}

/// A file whose name holds no date is not chosen as the oldest over a file
/// whose name holds a date before the time of the scan.
pub proof fn lemma_undated_not_chosen_over_older(
    parsed: Seq<Option<Timestamp>>,
    nows: Seq<Timestamp>,
    undated: int,
    dated: int,
    oldest: int,
)
    requires
        parsed.len() == nows.len(),
        0 <= undated < parsed.len(),
        0 <= dated < parsed.len(),
        parsed[undated] is None,
        parsed[dated] matches Some(date) && date.is_before(nows[undated]),
        is_oldest(entry_dates(parsed, nows), oldest),
    ensures
        oldest != undated,
{
    let dates = entry_dates(parsed, nows);
    assert(!dates[dated].is_before(dates[oldest]));
}

/// Only one place is that of the oldest.
pub proof fn lemma_oldest_is_unique(dates: Seq<Timestamp>, a: int, b: int)
    requires
        is_oldest(dates, a),
        is_oldest(dates, b),
    ensures
        a == b,
{
    if a < b {
        assert(dates[b].is_before(dates[a]));
        assert(!dates[b].is_before(dates[a]));
    } else if b < a {
        assert(dates[a].is_before(dates[b]));
        assert(!dates[a].is_before(dates[b]));
    }
}

/// The names in the archive directory after a rotation that followed
/// `plan`, given the names before it. `removed` says whether the deletion
/// succeeded, and `archived` is the name of the archive file that the
/// current file was copied to, if there was a current file.
pub open spec fn names_after(
    names: Seq<Seq<char>>,
    plan: RotationPlan,
    removed: bool,
    archived: Option<Seq<char>>,
) -> Seq<Seq<char>> {
    let archives = names_of_kind(names, EntryKind::Archive);
    match plan {
        RotationPlan::Prune { index } => if removed && index < archives.len() {
            names.remove(names.index_of(archives[index as int]))
        } else {
            names
        },
        RotationPlan::Preserve => match archived {
            Some(name) => if names.contains(name) {
                names
            } else {
                names.push(name)
            },
            None => names,
        },
    }
}

/// Each of the names of a kind is one of the names, and of that kind.
pub proof fn lemma_names_of_kind_within(names: Seq<Seq<char>>, kind: EntryKind, k: int)
    requires
        0 <= k < names_of_kind(names, kind).len(),
    ensures
        names.contains(names_of_kind(names, kind)[k]),
        kind_of(names_of_kind(names, kind)[k]) == kind,
    decreases names.len(),
{
    let front = names.drop_last();
    if k < names_of_kind(front, kind).len() {
        lemma_names_of_kind_within(front, kind, k);
        let i = choose|i: int| 0 <= i < front.len() && front[i] == names_of_kind(front, kind)[k];
        assert(names[i] == names_of_kind(names, kind)[k]);
    } else {
        assert(names[names.len() - 1] == names_of_kind(names, kind)[k]);
    }
}

/// Without one name of a kind there is one name of that kind less.
pub proof fn lemma_names_of_kind_remove(names: Seq<Seq<char>>, kind: EntryKind, i: int)
    requires
        0 <= i < names.len(),
        kind_of(names[i]) == kind,
    ensures
        names_of_kind(names.remove(i), kind).len() == names_of_kind(names, kind).len() - 1,
    decreases names.len(),
{
    if i == names.len() - 1 {
        assert(names.remove(i) =~= names.drop_last());
    } else {
        lemma_names_of_kind_remove(names.drop_last(), kind, i);
        assert(names.remove(i).drop_last() =~= names.drop_last().remove(i));
        assert(names.remove(i).last() == names.last());
    }
}

/// After a rotation the archive holds no more than 15 archived files,
/// where it held no more than 16 before. Left out are the rotations after
/// which it cannot: one that fails to delete the oldest of 16, and one that
/// adds a file under a new name to 15.
pub proof fn lemma_retention(
    names: Seq<Seq<char>>,
    dates: Seq<Timestamp>,
    plan: RotationPlan,
    removed: bool,
    archived: Option<Seq<char>>,
)
    requires
        dates.len() == names_of_kind(names, EntryKind::Archive).len(),
        is_plan_for(plan, dates),
        dates.len() <= MAX_ARCHIVES + 1,
        dates.len() == MAX_ARCHIVES + 1 ==> removed,
        dates.len() == MAX_ARCHIVES ==> (archived matches Some(name) ==> names.contains(name)),
    ensures
        names_of_kind(names_after(names, plan, removed, archived), EntryKind::Archive).len()
            <= MAX_ARCHIVES,
{
    let archives = names_of_kind(names, EntryKind::Archive);
    match plan {
        RotationPlan::Prune { index } => {
            lemma_names_of_kind_within(names, EntryKind::Archive, index as int);
            let i = names.index_of(archives[index as int]);
            lemma_names_of_kind_remove(names, EntryKind::Archive, i);
        },
        RotationPlan::Preserve => {
            if let Some(name) = archived {
                if !names.contains(name) {
                    assert(names.push(name).drop_last() =~= names);
                }
            }
        },
    }
}

} // verus!
