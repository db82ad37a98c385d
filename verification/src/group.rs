//! Photo groups: a JPEG file and a RAW file of one shot, paired by the stem
//! of their names.

use crate::container::{metadata_of_file, read_exif, FileReading, FileReadingView};
use crate::metadata::{ExifData, ExifDataView};
use vstd::prelude::*;
use vstd::string::*;

verus! {

/// A file of a photo: its name, its extension in uppercase, its path and its
/// size in bytes.
#[derive(Debug, Clone, PartialEq, Eq)]
pub struct PhotoFileInfo {
    pub name: String,
    pub extension: String,
    pub path: String,
    pub size: u64,
}

/// What a [`PhotoFileInfo`] holds, as mathematical values.
pub struct PhotoFileView {
    pub name: Seq<char>,
    pub extension: Seq<char>,
    pub path: Seq<char>,
    pub size: u64,
}

impl View for PhotoFileInfo {
    type V = PhotoFileView;

    open spec fn view(&self) -> PhotoFileView {
        PhotoFileView {
            name: self.name@,
            extension: self.extension@,
            path: self.path@,
            size: self.size,
        }
    }
}

impl DeepView for PhotoFileInfo {
    type V = PhotoFileView;

    open spec fn deep_view(&self) -> PhotoFileView {
        self.view()
    }
}

/// The files of one shot. `id` is the stem that the names of its files share;
/// `status` tells which of the two files there are.
#[derive(Debug, Clone, PartialEq, Eq)]
pub struct PhotoGroupInfo {
    pub id: String,
    pub jpg: Option<PhotoFileInfo>,
    pub raw: Option<PhotoFileInfo>,
    pub status: String,
    pub exif: Option<ExifData>,
}

/// What a [`PhotoGroupInfo`] holds, as mathematical values.
pub struct PhotoGroupView {
    pub id: Seq<char>,
    pub jpg: Option<PhotoFileView>,
    pub raw: Option<PhotoFileView>,
    pub status: Seq<char>,
    pub exif: Option<ExifDataView>,
}

impl View for PhotoGroupInfo {
    type V = PhotoGroupView;

    open spec fn view(&self) -> PhotoGroupView {
        PhotoGroupView {
            id: self.id@,
            jpg: self.jpg.deep_view(),
            raw: self.raw.deep_view(),
            status: self.status@,
            exif: self.exif.deep_view(),
        }
    }
}

impl DeepView for PhotoGroupInfo {
    type V = PhotoGroupView;

    open spec fn deep_view(&self) -> PhotoGroupView {
        self.view()
    }
}

/// The status of a group that is still being filled.
pub open spec fn unmarked() -> Seq<char> {
    "UNMARKED"@
}

/// The status of a group by the files it has: complete with both, named
/// after the one it has with one, and none with neither, for such a group
/// is no group.
pub open spec fn status_of(has_jpg: bool, has_raw: bool) -> Option<Seq<char>> {
    if has_jpg && has_raw {
        Some("COMPLETE"@)
    } else if has_jpg {
        Some("JPG_ONLY"@)
    } else if has_raw {
        Some("RAW_ONLY"@)
    } else {
        None
    }
}

/// Derives the status of a group from the files it has.
pub fn status_for(has_jpg: bool, has_raw: bool) -> (status: Option<String>)
    ensures
        status.deep_view() == status_of(has_jpg, has_raw),
{
    if has_jpg && has_raw {
        Some(String::from_str("COMPLETE"))
    } else if has_jpg {
        Some(String::from_str("JPG_ONLY"))
    } else if has_raw {
        Some(String::from_str("RAW_ONLY"))
    } else {
        None
    }
}

impl PhotoGroupView {
    /// The paths of the files of the group: of the JPEG file, then of the RAW
    /// file, as far as the group has them.
    pub open spec fn member_paths(self) -> Seq<Seq<char>> {
        let jpg = match self.jpg {
            Some(file) => seq![file.path],
            None => seq![],
        };
        let raw = match self.raw {
            Some(file) => seq![file.path],
            None => seq![],
        };
        jpg + raw
    }

    /// The file whose metadata stands for the group: the JPEG file where
    /// there is one, else the RAW file.
    pub open spec fn metadata_source(self) -> Option<PhotoFileView> {
        match self.jpg {
            Some(file) => Some(file),
            None => self.raw,
        }
    }

    /// The group with the status that its files give, or nothing for a group
    /// without files.
    pub open spec fn settle(self) -> Option<PhotoGroupView> {
        match status_of(self.jpg is Some, self.raw is Some) {
            Some(status) => Some(PhotoGroupView { status: status, ..self }),
            None => None,
        }
    }

    /// The group with the metadata that its source file gives, given what
    /// reading that file brought. Metadata that cannot be read is no
    /// metadata.
    pub open spec fn with_metadata(self, reading: FileReadingView) -> PhotoGroupView {
        PhotoGroupView {
            exif: match metadata_of_file(reading) {
                Ok(data) => Some(data),
                Err(_) => None,
            },
            ..self
        }
    }
}

impl PhotoGroupInfo {
    /// A group that is still to be filled: no file, no metadata, and the
    /// status of a group in the making.
    pub fn new(id: String) -> (group: PhotoGroupInfo)
        ensures
            group@ == (PhotoGroupView {
                id: id@,
                jpg: None,
                raw: None,
                status: unmarked(),
                exif: None,
            }),
    {
        PhotoGroupInfo {
            id: id,
            jpg: None,
            raw: None,
            status: String::from_str("UNMARKED"),
            exif: None,
        }
    }

    /// The file to read the group's metadata from: the JPEG file where there
    /// is one, else the RAW file.
    pub fn metadata_source(&self) -> (source: Option<&PhotoFileInfo>)
        ensures
            source.deep_view() == self@.metadata_source(),
    {
        match &self.jpg {
            Some(file) => Some(file),
            None => match &self.raw {
                Some(file) => Some(file),
                None => None,
            },
        }
    }

    /// Gives the group the status that its files give; a group without files
    /// gives nothing.
    pub fn settle(self) -> (settled: Option<PhotoGroupInfo>)
        ensures
            settled.deep_view() == self@.settle(),
    {
        match status_for(self.jpg.is_some(), self.raw.is_some()) {
            Some(status) => Some(
                PhotoGroupInfo {
                    id: self.id,
                    jpg: self.jpg,
                    raw: self.raw,
                    status: status,
                    exif: self.exif,
                },
            ),
            None => None,
        }
    }

    /// Attaches the metadata of the group's source file, given what reading
    /// that file brought. A file that cannot be read or decoded leaves the
    /// group without metadata; it is no failure of the group.
    pub fn attach_metadata(self, reading: FileReading) -> (group: PhotoGroupInfo)
        ensures
            group@ == self@.with_metadata(reading@),
    {
        let exif = match read_exif(reading) {
            Ok(data) => Some(data),
            Err(_) => None,
        };
        PhotoGroupInfo { id: self.id, jpg: self.jpg, raw: self.raw, status: self.status, exif: exif }
    }
}

/// The groups of `groups` that have a file, each with the status that its
/// files give, in the order of `groups`.
pub open spec fn settled(groups: Seq<PhotoGroupView>) -> Seq<PhotoGroupView>
    decreases groups.len(),
{
    if groups.len() == 0 {
        seq![]
    } else {
        match groups.last().settle() {
            Some(group) => settled(groups.drop_last()).push(group),
            None => settled(groups.drop_last()),
        }
    }
}

/// Settles the status of every group and drops the groups without files.
pub fn finalize(groups: Vec<PhotoGroupInfo>) -> (result: Vec<PhotoGroupInfo>)
    ensures
        result.deep_view() == settled(groups.deep_view()),
{
    let ghost all = groups.deep_view();
    let mut result: Vec<PhotoGroupInfo> = Vec::new();
    for group in it: groups
        invariant
            it.seq().len() == all.len(),
            forall|i: int| 0 <= i < all.len() ==> (#[trigger] it.seq()[i])@ == all[i],
            result.deep_view() == settled(all.take(it.index())),
    {
        let ghost done = it.index();
        assert(all.take(done + 1).drop_last() =~= all.take(done));
        match group.settle() {
            Some(settled_group) => {
                result.push(settled_group);
            },
            None => {},
        }
    }
    assert(all.take(all.len() as int) =~= all);
    result
}

} // verus!
