//! Pairing the files that a scan found into photo groups, sorted by their
//! identifier.

use crate::file_name::{
    classify, extension_of, kind_of_extension, split_name, stem_of, to_uppercase, uppercase,
    FileKind,
};
use crate::group::{
    finalize, settled, status_of, unmarked, PhotoFileInfo, PhotoFileView, PhotoGroupInfo,
    PhotoGroupView,
};
use crate::order::{
    law_order_is_irreflexive, law_order_is_transitive, lemma_before_excludes, place_of, text_lt,
    Place,
};
use crate::text::{holds, lemma_holds_part};
use vstd::prelude::*;
use vstd::string::*;

verus! {

/// What a scan learned of one path: the path and the name of its last
/// component, each where it is valid Unicode; whether a regular file is
/// there; and the size of the file, where it could be read.
#[derive(Debug, Clone, PartialEq, Eq)]
pub struct FileProbe {
    pub path: Option<String>,
    pub name: Option<String>,
    pub is_file: bool,
    pub size: Option<u64>,
}

/// What a [`FileProbe`] holds, as mathematical values.
pub struct FileProbeView {
    pub path: Option<Seq<char>>,
    pub name: Option<Seq<char>>,
    pub is_file: bool,
    pub size: Option<u64>,
}

impl View for FileProbe {
    type V = FileProbeView;

    open spec fn view(&self) -> FileProbeView {
        FileProbeView {
            path: self.path.deep_view(),
            name: self.name.deep_view(),
            is_file: self.is_file,
            size: self.size,
        }
    }
}

impl DeepView for FileProbe {
    type V = FileProbeView;

    open spec fn deep_view(&self) -> FileProbeView {
        self.view()
    }
}

/// A file that is paired: the stem of its name, its kind, and its
/// description.
pub struct Candidate {
    pub stem: Seq<char>,
    pub kind: FileKind,
    pub file: PhotoFileView,
}

/// A text, or the empty text in its place.
pub open spec fn text_or_empty(text: Option<Seq<char>>) -> Seq<char> {
    match text {
        Some(t) => t,
        None => seq![],
    }
}

/// The candidate that a probe gives: a regular file whose extension, in any
/// case of its letters, is that of a JPEG or a RAW file. A name or a path
/// that is not known counts as empty, a size that is not known as zero.
pub open spec fn candidate_of(probe: FileProbeView) -> Option<Candidate> {
    let name = text_or_empty(probe.name);
    match kind_of_extension(extension_of(name)) {
        Some(kind) => if probe.is_file {
            Some(
                Candidate {
                    stem: stem_of(name),
                    kind: kind,
                    file: PhotoFileView {
                        name: name,
                        extension: uppercase(extension_of(name)->0),
                        path: text_or_empty(probe.path),
                        size: match probe.size {
                            Some(size) => size,
                            None => 0,
                        },
                    },
                },
            )
        } else {
            None
        },
        None => None,
    }
}

/// The candidates that probes give, in the order of the probes.
pub open spec fn candidates(probes: Seq<FileProbeView>) -> Seq<Candidate>
    decreases probes.len(),
{
    if probes.len() == 0 {
        seq![]
    } else {
        match candidate_of(probes.last()) {
            Some(c) => candidates(probes.drop_last()).push(c),
            None => candidates(probes.drop_last()),
        }
    }
}

/// A candidate as it is held while it is placed.
#[derive(Debug, Clone, PartialEq, Eq)]
pub struct Placement {
    pub stem: String,
    pub kind: FileKind,
    pub file: PhotoFileInfo,
}

impl View for Placement {
    type V = Candidate;

    open spec fn view(&self) -> Candidate {
        Candidate { stem: self.stem@, kind: self.kind, file: self.file@ }
    }
}

impl DeepView for Placement {
    type V = Candidate;

    open spec fn deep_view(&self) -> Candidate {
        self.view()
    }
}

/// Examines a probe: whether it is a file to pair, and as what.
pub fn examine(probe: FileProbe) -> (placement: Option<Placement>)
    ensures
        placement.deep_view() == candidate_of(probe@),
{
    if !probe.is_file {
        return None;
    }
    let name = match probe.name {
        Some(name) => name,
        None => String::new(),
    };
    let (stem, extension) = split_name(name.as_str());
    let upper = match extension {
        Some(e) => to_uppercase(e.as_str()),
        None => {
            return None;
        },
    };
    let kind = match classify(upper.as_str()) {
        Some(kind) => kind,
        None => {
            return None;
        },
    };
    let path = match probe.path {
        Some(path) => path,
        None => String::new(),
    };
    let size = match probe.size {
        Some(size) => size,
        None => 0,
    };
    Some(
        Placement {
            stem: stem,
            kind: kind,
            file: PhotoFileInfo { name: name, extension: upper, path: path, size: size },
        },
    )
}

/// The file of `kind` that was last seen under the stem `id` among
/// `candidates`.
pub open spec fn latest(candidates: Seq<Candidate>, id: Seq<char>, kind: FileKind) -> Option<
    PhotoFileView,
>
    decreases candidates.len(),
{
    if candidates.len() == 0 {
        None
    } else if candidates.last().stem == id && candidates.last().kind == kind {
        Some(candidates.last().file)
    } else {
        latest(candidates.drop_last(), id, kind)
    }
}

/// Whether a candidate has the stem `id`.
pub open spec fn occurs(candidates: Seq<Candidate>, id: Seq<char>) -> bool {
    exists|i: int| 0 <= i < candidates.len() && (#[trigger] candidates[i]).stem == id
}

/// Whether a group has the identifier `id`.
pub open spec fn has_group(groups: Seq<PhotoGroupView>, id: Seq<char>) -> bool {
    exists|j: int| 0 <= j < groups.len() && (#[trigger] groups[j]).id == id
}

/// Whether the identifiers of `groups` ascend strictly in the order of their
/// UTF-8 bytes.
pub open spec fn sorted_by_id(groups: Seq<PhotoGroupView>) -> bool {
    forall|i: int, j: int|
        0 <= i < j < groups.len() ==> text_lt((#[trigger] groups[i]).id, (#[trigger] groups[j]).id)
}

/// Whether `group` is the group of its identifier among `candidates`: a
/// candidate has that stem, each of the two files is the one last seen of its
/// kind, one of the two is there, and there is no metadata yet. The status is
/// the one that the files give where `settled`, and that of a group in the
/// making where not.
pub open spec fn group_of(candidates: Seq<Candidate>, group: PhotoGroupView, settled: bool) -> bool {
    &&& occurs(candidates, group.id)
    &&& group.jpg is Some || group.raw is Some
    &&& group.jpg == latest(candidates, group.id, FileKind::Jpeg)
    &&& group.raw == latest(candidates, group.id, FileKind::Raw)
    &&& group.exif is None
    &&& if settled {
        Some(group.status) == status_of(group.jpg is Some, group.raw is Some)
    } else {
        group.status == unmarked()
    }
}

/// Whether `groups` are the groups of `candidates`: sorted by identifier,
/// each the group of its identifier, and one for every stem that occurs.
pub open spec fn pairing(
    candidates: Seq<Candidate>,
    groups: Seq<PhotoGroupView>,
    settled: bool,
) -> bool {
    &&& sorted_by_id(groups)
    &&& forall|j: int|
        0 <= j < groups.len() ==> group_of(candidates, #[trigger] groups[j], settled)
    &&& forall|i: int|
        0 <= i < candidates.len() ==> has_group(groups, (#[trigger] candidates[i]).stem)
}

/// What one more candidate changes of the file last seen.
proof fn lemma_latest_push(
    candidates: Seq<Candidate>,
    c: Candidate,
    id: Seq<char>,
    kind: FileKind,
)
    ensures
        latest(candidates.push(c), id, kind) == if c.stem == id && c.kind == kind {
            Some(c.file)
        } else {
            latest(candidates, id, kind)
        },
{
    assert(candidates.push(c).drop_last() =~= candidates);
}

/// A stem that does not occur has no file.
proof fn lemma_latest_occurs(candidates: Seq<Candidate>, id: Seq<char>, kind: FileKind)
    ensures
        latest(candidates, id, kind) is Some ==> occurs(candidates, id),
    decreases candidates.len(),
{
    if candidates.len() > 0 {
        if candidates.last().stem == id {
            assert(candidates[candidates.len() - 1].stem == id);
        } else {
            lemma_latest_occurs(candidates.drop_last(), id, kind);
            if latest(candidates.drop_last(), id, kind) is Some {
                let i = choose|i: int|
                    0 <= i < candidates.drop_last().len() && (
                    #[trigger] candidates.drop_last()[i]).stem == id;
                assert(candidates[i].stem == id);
            }
        }
    }
}

/// A stem that occurs has a file of one kind or the other.
proof fn lemma_occurs_latest(candidates: Seq<Candidate>, id: Seq<char>)
    requires
        occurs(candidates, id),
    ensures
        latest(candidates, id, FileKind::Jpeg) is Some || latest(candidates, id, FileKind::Raw)
            is Some,
    decreases candidates.len(),
{
    let i = choose|i: int| 0 <= i < candidates.len() && (#[trigger] candidates[i]).stem == id;
    if candidates.last().stem != id {
        assert(candidates.drop_last()[i].stem == id);
        lemma_occurs_latest(candidates.drop_last(), id);
    }
}

/// Finds the place of the identifier `id` among sorted groups: the index of
/// the group that has it, or the index at which a group with it belongs.
fn locate(groups: &Vec<PhotoGroupInfo>, id: &str) -> (found: (usize, bool))
    requires
        sorted_by_id(groups.deep_view()),
    ensures
        found.0 <= groups.len(),
        found.1 ==> found.0 < groups.len() && groups[found.0 as int].id@ == id@,
        !found.1 ==> forall|j: int|
            0 <= j < groups.len() ==> if j < found.0 {
                text_lt((#[trigger] groups[j]).id@, id@)
            } else {
                text_lt(id@, groups[j].id@)
            },
{
    let mut lo: usize = 0;
    let mut hi: usize = groups.len();
    while lo < hi
        invariant
            lo <= hi <= groups.len(),
            sorted_by_id(groups.deep_view()),
            forall|j: int| 0 <= j < lo ==> text_lt((#[trigger] groups[j]).id@, id@),
            forall|j: int| hi <= j < groups.len() ==> text_lt(id@, (#[trigger] groups[j]).id@),
        decreases hi - lo,
    {
        let mid = lo + (hi - lo) / 2;
        let ghost at_mid = groups[mid as int].id@;
        match place_of(groups[mid].id.as_str(), id) {
            Place::Same => {
                return (mid, true);
            },
            Place::Before => {
                assert forall|j: int| 0 <= j < mid + 1 implies text_lt(
                    (#[trigger] groups[j]).id@,
                    id@,
                ) by {
                    if j < mid {
                        assert(text_lt(groups.deep_view()[j].id, groups.deep_view()[mid as int].id));
                        law_order_is_transitive(groups[j].id@, at_mid, id@);
                    }
                }
                lo = mid + 1;
            },
            Place::After => {
                assert forall|j: int| mid <= j < groups.len() implies text_lt(
                    id@,
                    (#[trigger] groups[j]).id@,
                ) by {
                    if mid < j {
                        assert(text_lt(groups.deep_view()[mid as int].id, groups.deep_view()[j].id));
                        law_order_is_transitive(id@, at_mid, groups[j].id@);
                    }
                }
                hi = mid;
            },
        }
    }
    (lo, false)
}

/// Two groups of a sorted sequence have different identifiers.
proof fn lemma_sorted_distinct(groups: Seq<PhotoGroupView>, i: int, j: int)
    requires
        sorted_by_id(groups),
        0 <= i < groups.len(),
        0 <= j < groups.len(),
        i != j,
    ensures
        groups[i].id != groups[j].id,
{
    if i < j {
        assert(text_lt(groups[i].id, groups[j].id));
        lemma_before_excludes(groups[i].id, groups[j].id);
    } else {
        assert(text_lt(groups[j].id, groups[i].id));
        lemma_before_excludes(groups[j].id, groups[i].id);
    }
}

/// A group of the candidates seen stays the group of its identifier when a
/// candidate of another stem is seen.
proof fn lemma_group_kept(seen: Seq<Candidate>, c: Candidate, group: PhotoGroupView)
    requires
        group_of(seen, group, false),
        c.stem != group.id,
    ensures
        group_of(seen.push(c), group, false),
{
    lemma_latest_push(seen, c, group.id, FileKind::Jpeg);
    lemma_latest_push(seen, c, group.id, FileKind::Raw);
    let i = choose|i: int| 0 <= i < seen.len() && (#[trigger] seen[i]).stem == group.id;
    assert(seen.push(c)[i].stem == group.id);
}

/// Places one more candidate among the groups of those seen before: in the
/// group of its stem, where there is one, and else in a new group at the
/// place where its stem belongs. It takes the place of a file of its kind
/// that the group had.
fn place(groups: &mut Vec<PhotoGroupInfo>, placement: Placement, Ghost(seen): Ghost<Seq<Candidate>>)
    requires
        pairing(seen, old(groups).deep_view(), false),
    ensures
        pairing(seen.push(placement@), final(groups).deep_view(), false),
        final(groups).len() <= old(groups).len() + 1,
{
    let ghost c = placement@;
    let ghost before = groups.deep_view();
    let ghost now = seen.push(c);
    let Placement { stem, kind, file } = placement;
    let (at, found) = locate(groups, stem.as_str());
    if found {
        match kind {
            FileKind::Jpeg => {
                groups[at].jpg = Some(file);
            },
            FileKind::Raw => {
                groups[at].raw = Some(file);
            },
        }
        proof {
            let after = groups.deep_view();
            assert(after.len() == before.len());
            assert forall|j: int| 0 <= j < after.len() implies group_of(
                now,
                #[trigger] after[j],
                false,
            ) by {
                assert(group_of(seen, before[j], false));
                if j == at {
                    lemma_latest_push(seen, c, c.stem, FileKind::Jpeg);
                    lemma_latest_push(seen, c, c.stem, FileKind::Raw);
                    assert(now[seen.len() as int].stem == c.stem);
                } else {
                    lemma_sorted_distinct(before, j, at as int);
                    lemma_group_kept(seen, c, before[j]);
                }
            }
            assert forall|i: int| 0 <= i < now.len() implies has_group(
                after,
                (#[trigger] now[i]).stem,
            ) by {
                if i < seen.len() {
                    assert(has_group(before, seen[i].stem));
                    let j = choose|j: int|
                        0 <= j < before.len() && (#[trigger] before[j]).id == seen[i].stem;
                    assert(after[j].id == seen[i].stem);
                } else {
                    assert(after[at as int].id == c.stem);
                }
            }
            assert forall|i: int, j: int| 0 <= i < j < after.len() implies text_lt(
                (#[trigger] after[i]).id,
                (#[trigger] after[j]).id,
            ) by {
                assert(text_lt(before[i].id, before[j].id));
            }
        }
    } else {
        let mut group = PhotoGroupInfo::new(stem);
        match kind {
            FileKind::Jpeg => {
                group.jpg = Some(file);
            },
            FileKind::Raw => {
                group.raw = Some(file);
            },
        }
        let ghost added = group@;
        groups.insert(at, group);
        proof {
            let after = groups.deep_view();
            assert(after =~= before.insert(at as int, added));
            assert(!occurs(seen, c.stem)) by {
                if occurs(seen, c.stem) {
                    let i = choose|i: int| 0 <= i < seen.len() && (#[trigger] seen[i]).stem == c.stem;
                    assert(has_group(before, seen[i].stem));
                    let j = choose|j: int|
                        0 <= j < before.len() && (#[trigger] before[j]).id == c.stem;
                    law_order_is_irreflexive(c.stem);
                }
            }
            lemma_latest_occurs(seen, c.stem, FileKind::Jpeg);
            lemma_latest_occurs(seen, c.stem, FileKind::Raw);
            lemma_latest_push(seen, c, c.stem, FileKind::Jpeg);
            lemma_latest_push(seen, c, c.stem, FileKind::Raw);
            assert forall|j: int| 0 <= j < after.len() implies group_of(
                now,
                #[trigger] after[j],
                false,
            ) by {
                if j == at {
                    assert(now[seen.len() as int].stem == c.stem);
                } else {
                    let k = if j < at {
                        j
                    } else {
                        j - 1
                    };
                    assert(after[j] == before[k]);
                    assert(group_of(seen, before[k], false));
                    law_order_is_irreflexive(c.stem);
                    lemma_group_kept(seen, c, before[k]);
                }
            }
            assert forall|i: int| 0 <= i < now.len() implies has_group(
                after,
                (#[trigger] now[i]).stem,
            ) by {
                if i < seen.len() {
                    assert(has_group(before, seen[i].stem));
                    let j = choose|j: int|
                        0 <= j < before.len() && (#[trigger] before[j]).id == seen[i].stem;
                    let k = if j < at {
                        j
                    } else {
                        j + 1
                    };
                    assert(after[k].id == seen[i].stem);
                } else {
                    assert(after[at as int].id == c.stem);
                }
            }
            assert forall|i: int, j: int| 0 <= i < j < after.len() implies text_lt(
                (#[trigger] after[i]).id,
                (#[trigger] after[j]).id,
            ) by {
                let ki = if i < at {
                    i
                } else {
                    i - 1
                };
                let kj = if j < at {
                    j
                } else {
                    j - 1
                };
                if i != at && j != at {
                    assert(text_lt(before[ki].id, before[kj].id));
                }
            }
        }
    }
}

/// Where every group has a file, settling keeps every group and only gives
/// each its status.
proof fn lemma_settled_each(groups: Seq<PhotoGroupView>)
    requires
        forall|j: int| 0 <= j < groups.len() ==> (#[trigger] groups[j]).settle() is Some,
    ensures
        settled(groups).len() == groups.len(),
        forall|j: int|
            0 <= j < groups.len() ==> Some(#[trigger] settled(groups)[j]) == groups[j].settle(),
    decreases groups.len(),
{
    if groups.len() > 0 {
        assert forall|j: int| 0 <= j < groups.drop_last().len() implies (
        #[trigger] groups.drop_last()[j]).settle() is Some by {
            assert(groups[j].settle() is Some);
        }
        lemma_settled_each(groups.drop_last());
        assert(groups[groups.len() - 1].settle() is Some);
    }
}

/// Settling the groups of candidates that are still in the making gives their
/// settled groups: none is dropped, for each has a file.
proof fn lemma_settled_pairing(candidates: Seq<Candidate>, groups: Seq<PhotoGroupView>)
    requires
        pairing(candidates, groups, false),
    ensures
        pairing(candidates, settled(groups), true),
        settled(groups).len() == groups.len(),
{
    assert forall|j: int| 0 <= j < groups.len() implies (#[trigger] groups[j]).settle() is Some by {
        assert(group_of(candidates, groups[j], false));
        lemma_occurs_latest(candidates, groups[j].id);
    }
    lemma_settled_each(groups);
    let done = settled(groups);
    assert forall|j: int| 0 <= j < done.len() implies group_of(
        candidates,
        #[trigger] done[j],
        true,
    ) by {
        assert(group_of(candidates, groups[j], false));
        assert(Some(done[j]) == groups[j].settle());
    }
    assert forall|i: int| 0 <= i < candidates.len() implies has_group(
        done,
        (#[trigger] candidates[i]).stem,
    ) by {
        assert(has_group(groups, candidates[i].stem));
        let j = choose|j: int|
            0 <= j < groups.len() && (#[trigger] groups[j]).id == candidates[i].stem;
        assert(Some(done[j]) == groups[j].settle());
        assert(done[j].id == candidates[i].stem);
    }
    assert forall|i: int, j: int| 0 <= i < j < done.len() implies text_lt(
        (#[trigger] done[i]).id,
        (#[trigger] done[j]).id,
    ) by {
        assert(text_lt(groups[i].id, groups[j].id));
        assert(Some(done[i]) == groups[i].settle());
        assert(Some(done[j]) == groups[j].settle());
    }
}

/// Why a scan came to nothing.
#[derive(Debug, Clone, PartialEq, Eq)]
pub enum ScanError {
    /// The path to scan is no directory, or does not exist.
    NotADirectory,
    /// The directory at `path` could not be listed; with the cause.
    ReadDirectory { path: String, cause: String },
    /// An entry of the directory at `path` could not be read; with the
    /// cause.
    ReadEntry { path: String, cause: String },
    /// The name of a file of the directory is not valid Unicode.
    InvalidFileName,
}

/// What a [`ScanError`] holds, as mathematical values.
pub enum ScanErrorView {
    NotADirectory,
    ReadDirectory { path: Seq<char>, cause: Seq<char> },
    ReadEntry { path: Seq<char>, cause: Seq<char> },
    InvalidFileName,
}

impl View for ScanError {
    type V = ScanErrorView;

    open spec fn view(&self) -> ScanErrorView {
        match self {
            ScanError::NotADirectory => ScanErrorView::NotADirectory,
            ScanError::ReadDirectory { path, cause } => ScanErrorView::ReadDirectory {
                path: path@,
                cause: cause@,
            },
            ScanError::ReadEntry { path, cause } => ScanErrorView::ReadEntry {
                path: path@,
                cause: cause@,
            },
            ScanError::InvalidFileName => ScanErrorView::InvalidFileName,
        }
    }
}

impl DeepView for ScanError {
    type V = ScanErrorView;

    open spec fn deep_view(&self) -> ScanErrorView {
        self.view()
    }
}

impl ScanErrorView {
    /// The message of the error.
    pub open spec fn message(self) -> Seq<char> {
        match self {
            ScanErrorView::NotADirectory => "Path is not a directory"@,
            ScanErrorView::ReadDirectory { path, cause } => "Failed to read directory "@ + path
                + ": "@ + cause,
            ScanErrorView::ReadEntry { path, cause } => "Failed to read entry of "@ + path + ": "@
                + cause,
            ScanErrorView::InvalidFileName => "Invalid file name"@,
        }
    }
}

impl ScanError {
    /// The message of the error: what failed, and the cause where one is
    /// known.
    pub fn message(&self) -> (text: String)
        ensures
            text@ == self@.message(),
    {
        match self {
            ScanError::NotADirectory => String::from_str("Path is not a directory"),
            ScanError::ReadDirectory { path, cause } => {
                let mut text = String::from_str("Failed to read directory ");
                text.append(path.as_str());
                text.append(": ");
                text.append(cause.as_str());
                text
            },
            ScanError::ReadEntry { path, cause } => {
                let mut text = String::from_str("Failed to read entry of ");
                text.append(path.as_str());
                text.append(": ");
                text.append(cause.as_str());
                text
            },
            ScanError::InvalidFileName => String::from_str("Invalid file name"),
        }
    }
}

/// Pairs the files among the probes of a list of paths. A path at which no
/// regular file is, or whose file is no JPEG and no RAW file, is left out
/// without a word: this scan never fails.
pub fn scan_files(probes: Vec<FileProbe>) -> (outcome: Result<Vec<PhotoGroupInfo>, ScanError>)
    ensures
        outcome matches Ok(groups) && pairing(
            candidates(probes.deep_view()),
            groups.deep_view(),
            true,
        ) && groups.len() <= probes.len(),
{
    let ghost all = probes.deep_view();
    let mut groups: Vec<PhotoGroupInfo> = Vec::new();
    assert(all.take(0) =~= seq![]);
    for probe in it: probes
        invariant
            it.seq().len() == all.len(),
            forall|i: int| 0 <= i < all.len() ==> (#[trigger] it.seq()[i])@ == all[i],
            pairing(candidates(all.take(it.index())), groups.deep_view(), false),
            groups.len() <= it.index() <= all.len(),
    {
        let ghost done = it.index();
        let ghost seen = candidates(all.take(done));
        assert(all.take(done + 1).drop_last() =~= all.take(done));
        assert(all.take(done + 1).last() == probe@);
        match examine(probe) {
            Some(placement) => {
                place(&mut groups, placement, Ghost(seen));
            },
            None => {},
        }
    }
    assert(all.take(all.len() as int) =~= all);
    proof {
        lemma_settled_pairing(candidates(all), groups.deep_view());
    }
    Ok(finalize(groups))
}

/// What listing one entry of a directory brought: the probe of its path, or
/// the path of the directory and the cause of the failure to read the entry.
#[derive(Debug, Clone, PartialEq, Eq)]
pub enum EntryReading {
    Unreadable { path: String, cause: String },
    Found(FileProbe),
}

/// What an [`EntryReading`] holds, as mathematical values.
pub enum EntryReadingView {
    Unreadable { path: Seq<char>, cause: Seq<char> },
    Found(FileProbeView),
}

impl View for EntryReading {
    type V = EntryReadingView;

    open spec fn view(&self) -> EntryReadingView {
        match self {
            EntryReading::Unreadable { path, cause } => EntryReadingView::Unreadable {
                path: path@,
                cause: cause@,
            },
            EntryReading::Found(probe) => EntryReadingView::Found(probe@),
        }
    }
}

impl DeepView for EntryReading {
    type V = EntryReadingView;

    open spec fn deep_view(&self) -> EntryReadingView {
        self.view()
    }
}

/// What listing a directory brought: that the path is no directory, the
/// path and the cause of the failure to list it, or its entries in the order
/// in which they were listed.
#[derive(Debug, Clone, PartialEq, Eq)]
pub enum FolderListing {
    NotADirectory,
    Unreadable { path: String, cause: String },
    Entries(Vec<EntryReading>),
}

/// What a [`FolderListing`] holds, as mathematical values.
pub enum FolderListingView {
    NotADirectory,
    Unreadable { path: Seq<char>, cause: Seq<char> },
    Entries(Seq<EntryReadingView>),
}

impl View for FolderListing {
    type V = FolderListingView;

    open spec fn view(&self) -> FolderListingView {
        match self {
            FolderListing::NotADirectory => FolderListingView::NotADirectory,
            FolderListing::Unreadable { path, cause } => FolderListingView::Unreadable {
                path: path@,
                cause: cause@,
            },
            FolderListing::Entries(entries) => FolderListingView::Entries(entries.deep_view()),
        }
    }
}

/// Why an entry makes the scan of its directory fail: it could not be read,
/// or a regular file is there whose name is not valid Unicode.
pub open spec fn entry_failure(entry: EntryReadingView) -> Option<ScanErrorView> {
    match entry {
        EntryReadingView::Unreadable { path, cause } => Some(
            ScanErrorView::ReadEntry { path: path, cause: cause },
        ),
        EntryReadingView::Found(probe) => if probe.is_file && probe.name is None {
            Some(ScanErrorView::InvalidFileName)
        } else {
            None
        },
    }
}

/// The failure of the first entry that makes the scan fail.
pub open spec fn first_failure(entries: Seq<EntryReadingView>) -> Option<ScanErrorView>
    decreases entries.len(),
{
    if entries.len() == 0 {
        None
    } else {
        match first_failure(entries.drop_last()) {
            Some(failure) => Some(failure),
            None => entry_failure(entries.last()),
        }
    }
}

/// The probes of the entries that were read, in their order.
pub open spec fn found(entries: Seq<EntryReadingView>) -> Seq<FileProbeView>
    decreases entries.len(),
{
    if entries.len() == 0 {
        seq![]
    } else {
        match entries.last() {
            EntryReadingView::Found(probe) => found(entries.drop_last()).push(probe),
            EntryReadingView::Unreadable { .. } => found(entries.drop_last()),
        }
    }
}

/// The failure of a scan of a directory, where it fails: of the listing as a
/// whole, or else of the first entry that makes it fail.
pub open spec fn listing_failure(listing: FolderListingView) -> Option<ScanErrorView> {
    match listing {
        FolderListingView::NotADirectory => Some(ScanErrorView::NotADirectory),
        FolderListingView::Unreadable { path, cause } => Some(
            ScanErrorView::ReadDirectory { path: path, cause: cause },
        ),
        FolderListingView::Entries(entries) => first_failure(entries),
    }
}

/// The probes that a listing holds.
pub open spec fn listed(listing: FolderListingView) -> Seq<FileProbeView> {
    match listing {
        FolderListingView::Entries(entries) => found(entries),
        _ => seq![],
    }
}

/// Pairs the files of a directory, given what listing it brought. The scan
/// fails as a whole where the path is no directory, where the directory or
/// one of its entries cannot be read, and where the name of a regular file
/// is not valid Unicode; the first entry that fails decides. Entries that
/// are no regular files, and files that are no JPEG and no RAW files, are
/// left out.
pub fn scan_folder(listing: FolderListing) -> (outcome: Result<Vec<PhotoGroupInfo>, ScanError>)
    ensures
        match listing_failure(listing@) {
            Some(failure) => outcome matches Err(error) && error@ == failure,
            None => outcome matches Ok(groups) && pairing(
                candidates(listed(listing@)),
                groups.deep_view(),
                true,
            ) && groups.len() <= listed(listing@).len(),
        },
{
    let entries = match listing {
        FolderListing::NotADirectory => {
            return Err(ScanError::NotADirectory);
        },
        FolderListing::Unreadable { path, cause } => {
            return Err(ScanError::ReadDirectory { path: path, cause: cause });
        },
        FolderListing::Entries(entries) => entries,
    };
    let ghost all = entries.deep_view();
    let mut groups: Vec<PhotoGroupInfo> = Vec::new();
    assert(all.take(0) =~= seq![]);
    assert(found(all.take(0)) =~= seq![]);
    for entry in it: entries
        invariant
            it.seq().len() == all.len(),
            forall|i: int| 0 <= i < all.len() ==> (#[trigger] it.seq()[i])@ == all[i],
            listing@ == FolderListingView::Entries(all),
            first_failure(all.take(it.index())) is None,
            pairing(candidates(found(all.take(it.index()))), groups.deep_view(), false),
            groups.len() <= found(all.take(it.index())).len(),
    {
        let ghost done = it.index();
        let ghost seen = candidates(found(all.take(done)));
        assert(all.take(done + 1).drop_last() =~= all.take(done));
        assert(all.take(done + 1).last() == entry@);
        match entry {
            EntryReading::Unreadable { path, cause } => {
                proof {
                    law_first_failure_decides(all, done + 1);
                }
                return Err(ScanError::ReadEntry { path: path, cause: cause });
            },
            EntryReading::Found(probe) => {
                if probe.is_file && probe.name.is_none() {
                    proof {
                        law_first_failure_decides(all, done + 1);
                    }
                    return Err(ScanError::InvalidFileName);
                }
                assert(found(all.take(done + 1)).drop_last() =~= found(all.take(done)));
                match examine(probe) {
                    Some(placement) => {
                        place(&mut groups, placement, Ghost(seen));
                    },
                    None => {},
                }
            },
        }
    }
    assert(all.take(all.len() as int) =~= all);
    proof {
        lemma_settled_pairing(candidates(found(all)), groups.deep_view());
    }
    Ok(finalize(groups))
}

/// Tells whether an entry makes the scan of its directory fail, so that the
/// listing may end with it.
pub fn ends_listing(entry: &EntryReading) -> (ends: bool)
    ensures
        ends == entry_failure(entry@) is Some,
{
    match entry {
        EntryReading::Unreadable { .. } => true,
        EntryReading::Found(probe) => probe.is_file && probe.name.is_none(),
    }
}

/// The first failure decides: a failure among the first entries of a listing
/// is the failure of the whole listing, whatever entries follow. A listing
/// may therefore end with the first entry that fails.
pub proof fn law_first_failure_decides(entries: Seq<EntryReadingView>, k: int)
    requires
        0 <= k <= entries.len(),
        first_failure(entries.take(k)) is Some,
    ensures
        first_failure(entries) == first_failure(entries.take(k)),
    decreases entries.len() - k,
{
    if k < entries.len() {
        assert(entries.take(k + 1).drop_last() =~= entries.take(k));
        law_first_failure_decides(entries, k + 1);
    } else {
        assert(entries.take(k) =~= entries);
    }
}

/// Whether the same stems occur among `a` and among `b`.
pub open spec fn same_stems(a: Seq<Candidate>, b: Seq<Candidate>) -> bool {
    forall|id: Seq<char>| #[trigger] occurs(a, id) == occurs(b, id)
}

/// Sorted groups for the same stems have the same identifiers, place by
/// place.
proof fn lemma_same_ids(
    found_a: Seq<Candidate>,
    found_b: Seq<Candidate>,
    a: Seq<PhotoGroupView>,
    b: Seq<PhotoGroupView>,
    settled: bool,
    i: int,
)
    requires
        pairing(found_a, a, settled),
        pairing(found_b, b, settled),
        same_stems(found_a, found_b),
        0 <= i < a.len(),
    ensures
        i < b.len(),
        a[i].id == b[i].id,
    decreases i,
{
    assert forall|k: int| 0 <= k < i implies k < b.len() && a[k].id == b[k].id by {
        lemma_same_ids(found_a, found_b, a, b, settled, k);
    }
    let j = lemma_group_found(found_a, found_b, a, b, settled, i);
    if j < i {
        lemma_sorted_distinct(a, j, i);
    } else if j > i {
        assert(same_stems(found_b, found_a)) by {
            assert forall|id: Seq<char>| #[trigger] occurs(found_b, id) == occurs(found_a, id) by {
                assert(occurs(found_a, id) == occurs(found_b, id));
            }
        }
        let j2 = lemma_group_found(found_b, found_a, b, a, settled, i);
        if j2 < i {
            lemma_sorted_distinct(b, j2, i);
        } else if j2 > i {
            assert(text_lt(b[i].id, b[j].id));
            assert(text_lt(a[i].id, a[j2].id));
            lemma_before_excludes(b[i].id, a[i].id);
        }
    }
}

/// A group of one pairing has a group of its identifier in every pairing of
/// candidates with the same stems.
proof fn lemma_group_found(
    found_a: Seq<Candidate>,
    found_b: Seq<Candidate>,
    a: Seq<PhotoGroupView>,
    b: Seq<PhotoGroupView>,
    settled: bool,
    i: int,
) -> (j: int)
    requires
        pairing(found_a, a, settled),
        pairing(found_b, b, settled),
        same_stems(found_a, found_b),
        0 <= i < a.len(),
    ensures
        0 <= j < b.len(),
        b[j].id == a[i].id,
{
    assert(group_of(found_a, a[i], settled));
    assert(occurs(found_a, a[i].id) == occurs(found_b, a[i].id));
    let c = choose|c: int| 0 <= c < found_b.len() && (#[trigger] found_b[c]).stem == a[i].id;
    assert(has_group(b, found_b[c].stem));
    choose|j: int| 0 <= j < b.len() && (#[trigger] b[j]).id == a[i].id
}

/// The order of the groups does not depend on the order in which the files
/// were found: whatever files of whatever kinds were found in whatever
/// order, as long as the same stems occur, the same identifiers come out in
/// the same order.
pub proof fn law_order_ignores_enumeration(
    found_a: Seq<Candidate>,
    found_b: Seq<Candidate>,
    a: Seq<PhotoGroupView>,
    b: Seq<PhotoGroupView>,
    settled: bool,
)
    requires
        pairing(found_a, a, settled),
        pairing(found_b, b, settled),
        same_stems(found_a, found_b),
    ensures
        a.len() == b.len(),
        forall|i: int| 0 <= i < a.len() ==> (#[trigger] a[i]).id == b[i].id,
{
    assert(same_stems(found_b, found_a)) by {
        assert forall|id: Seq<char>| #[trigger] occurs(found_b, id) == occurs(found_a, id) by {
            assert(occurs(found_a, id) == occurs(found_b, id));
        }
    }
    if a.len() > 0 {
        lemma_same_ids(found_a, found_b, a, b, settled, a.len() - 1);
    }
    if b.len() > 0 {
        lemma_same_ids(found_b, found_a, b, a, settled, b.len() - 1);
    }
    assert forall|i: int| 0 <= i < a.len() implies (#[trigger] a[i]).id == b[i].id by {
        lemma_same_ids(found_a, found_b, a, b, settled, i);
    }
}

/// The candidates decide their groups: two sequences of groups that pair the
/// same candidates are the same sequence.
pub proof fn law_pairing_unique(
    candidates: Seq<Candidate>,
    a: Seq<PhotoGroupView>,
    b: Seq<PhotoGroupView>,
    settled: bool,
)
    requires
        pairing(candidates, a, settled),
        pairing(candidates, b, settled),
    ensures
        a == b,
{
    law_order_ignores_enumeration(candidates, candidates, a, b, settled);
    assert forall|i: int| 0 <= i < a.len() implies a[i] == b[i] by {
        assert(group_of(candidates, a[i], settled));
        assert(group_of(candidates, b[i], settled));
    }
    assert(a =~= b);
}

/// Every group of a pairing has a file, its status says which, and the
/// groups stand in the order of their identifiers.
pub proof fn law_groups_are_sound(
    candidates: Seq<Candidate>,
    groups: Seq<PhotoGroupView>,
    j: int,
)
    requires
        pairing(candidates, groups, true),
        0 <= j < groups.len(),
    ensures
        groups[j].jpg is Some || groups[j].raw is Some,
        groups[j].jpg is Some && groups[j].raw is Some ==> groups[j].status == "COMPLETE"@,
        groups[j].jpg is Some && groups[j].raw is None ==> groups[j].status == "JPG_ONLY"@,
        groups[j].jpg is None && groups[j].raw is Some ==> groups[j].status == "RAW_ONLY"@,
        forall|i: int| 0 <= i < j ==> text_lt((#[trigger] groups[i]).id, groups[j].id),
{
    assert(group_of(candidates, groups[j], true));
}

/// Two files whose names have the same stem, and whose extensions are the
/// same but for the case of their letters, are paired alike: as files of the
/// same kind under the same stem, or neither is.
pub proof fn law_pairing_ignores_case(a: FileProbeView, b: FileProbeView)
    requires
        a.is_file == b.is_file,
        stem_of(text_or_empty(a.name)) == stem_of(text_or_empty(b.name)),
        extension_of(text_or_empty(a.name)) matches Some(x) && extension_of(
            text_or_empty(b.name),
        ) matches Some(y) && uppercase(x) == uppercase(y),
    ensures
        candidate_of(a) is Some == candidate_of(b) is Some,
        candidate_of(a) matches Some(c) ==> candidate_of(b)->0.stem == c.stem && candidate_of(
            b,
        )->0.kind == c.kind && candidate_of(b)->0.file.extension == c.file.extension,
{
}

/// A failure of the file system always carries the offending path and the
/// cause: the message of a directory that could not be listed, and of an
/// entry that could not be read, holds both.
pub proof fn law_scan_failure_names_path_and_cause(path: Seq<char>, cause: Seq<char>)
    ensures
        holds((ScanErrorView::ReadDirectory { path: path, cause: cause }).message(), path),
        holds((ScanErrorView::ReadDirectory { path: path, cause: cause }).message(), cause),
        holds((ScanErrorView::ReadEntry { path: path, cause: cause }).message(), path),
        holds((ScanErrorView::ReadEntry { path: path, cause: cause }).message(), cause),
{
    let directory = "Failed to read directory "@;
    let entry = "Failed to read entry of "@;
    let colon = ": "@;
    lemma_holds_part(directory, path, colon + cause);
    assert(directory + path + (colon + cause) =~= directory + path + colon + cause);
    lemma_holds_part(directory + path + colon, cause, seq![]);
    assert(directory + path + colon + cause + seq![] =~= directory + path + colon + cause);
    lemma_holds_part(entry, path, colon + cause);
    assert(entry + path + (colon + cause) =~= entry + path + colon + cause);
    lemma_holds_part(entry + path + colon, cause, seq![]);
    assert(entry + path + colon + cause + seq![] =~= entry + path + colon + cause);
}

} // verus!
