//! File names: the stem, the extension, and the kinds of image file that
//! an extension stands for.

use crate::order::{place_of, Place};
use crate::text::{chars_of, slice_text};
use vstd::prelude::*;
use vstd::string::*;

verus! {

/// The index of the last dot of `name`, where it has one.
pub open spec fn last_dot(name: Seq<char>) -> Option<int>
    decreases name.len(),
{
    if name.len() == 0 {
        None
    } else if name.last() == '.' {
        Some(name.len() - 1)
    } else {
        last_dot(name.drop_last())
    }
}

/// The index of the dot that parts the stem of `name` from its extension:
/// the last dot, unless it leads the name or the name is `..`.
pub open spec fn parting_dot(name: Seq<char>) -> Option<int> {
    match last_dot(name) {
        Some(i) => if i > 0 && name != seq!['.', '.'] {
            Some(i)
        } else {
            None
        },
        None => None,
    }
}

/// The stem of a file name: what stands before the parting dot, and the whole
/// name where no dot parts it.
pub open spec fn stem_of(name: Seq<char>) -> Seq<char> {
    match parting_dot(name) {
        Some(i) => name.take(i),
        None => name,
    }
}

/// The extension of a file name: what stands behind the parting dot, where a
/// dot parts the name.
pub open spec fn extension_of(name: Seq<char>) -> Option<Seq<char>> {
    match parting_dot(name) {
        Some(i) => Some(name.skip(i + 1)),
        None => None,
    }
}

/// Parts a file name into its stem and its extension.
pub fn split_name(name: &str) -> (parts: (String, Option<String>))
    ensures
        parts.0@ == stem_of(name@),
        parts.1.deep_view() == extension_of(name@),
{
    let chars = chars_of(name);
    let n = chars.len();
    let mut end = n;
    assert(chars@.take(n as int) =~= chars@);
    while end > 0 && chars[end - 1] != '.'
        invariant
            end <= n,
            n == chars.len(),
            last_dot(chars@) == last_dot(chars@.take(end as int)),
        decreases end,
    {
        assert(chars@.take(end as int).drop_last() =~= chars@.take(end - 1));
        end = end - 1;
    }
    let whole = n == 2 && chars[0] == '.' && chars[1] == '.';
    assert(whole <==> chars@ =~= seq!['.', '.']);
    if end > 1 && !whole {
        (slice_text(name, 0, end - 1), Some(slice_text(name, end, n)))
    } else {
        (name.to_owned(), None)
    }
}

/// What `str::to_uppercase` makes of a text: its uppercase form by the case
/// mappings of Unicode.
pub uninterp spec fn uppercase(text: Seq<char>) -> Seq<char>;

/// `str::to_uppercase`. The contract only names the result.
#[verifier::external_body]
pub(crate) fn to_uppercase(text: &str) -> (upper: String)
    ensures
        upper@ == uppercase(text@),
{
    text.to_uppercase()
}

/// The kinds of image file that are paired.
#[derive(Debug, Clone, Copy, PartialEq, Eq, Structural)]
pub enum FileKind {
    /// A JPEG image.
    Jpeg,
    /// A RAW image of one of the known manufacturers' formats.
    Raw,
}

/// The extensions of JPEG files, in uppercase.
pub open spec fn jpeg_extensions() -> Seq<Seq<char>> {
    seq!["JPG"@, "JPEG"@]
}

/// The extensions of RAW files, in uppercase.
pub open spec fn raw_extensions() -> Seq<Seq<char>> {
    seq!["ARW"@, "CR2"@, "NEF"@, "DNG"@, "ORF"@, "RAF"@, "SRW"@]
}

/// The kind of file that an extension in uppercase stands for, where it is
/// listed.
pub open spec fn kind_of(upper: Seq<char>) -> Option<FileKind> {
    if jpeg_extensions().contains(upper) {
        Some(FileKind::Jpeg)
    } else if raw_extensions().contains(upper) {
        Some(FileKind::Raw)
    } else {
        None
    }
}

/// The kind of file that the extension `extension` stands for in any
/// case of its letters.
pub open spec fn kind_of_extension(extension: Option<Seq<char>>) -> Option<FileKind> {
    match extension {
        Some(e) => kind_of(uppercase(e)),
        None => None,
    }
}

/// The extensions of JPEG files, in uppercase.
pub fn jpeg_extension_list() -> (list: Vec<&'static str>)
    ensures
        list.deep_view() == jpeg_extensions(),
{
    vec!["JPG", "JPEG"]
}

/// The extensions of RAW files, in uppercase.
pub fn raw_extension_list() -> (list: Vec<&'static str>)
    ensures
        list.deep_view() == raw_extensions(),
{
    vec!["ARW", "CR2", "NEF", "DNG", "ORF", "RAF", "SRW"]
}

/// Whether `list` holds the text `wanted`.
pub fn lists(list: &Vec<&'static str>, wanted: &str) -> (found: bool)
    ensures
        found == list.deep_view().contains(wanted@),
{
    let mut i: usize = 0;
    while i < list.len()
        invariant
            i <= list.len(),
            forall|j: int| 0 <= j < i ==> list.deep_view()[j] != wanted@,
        decreases list.len() - i,
    {
        if place_of(list[i], wanted) == Place::Same {
            assert(list.deep_view()[i as int] == wanted@);
            return true;
        }
        i = i + 1;
    }
    false
}

/// The kind of file that an extension in uppercase stands for, where it is
/// listed.
pub fn classify(upper: &str) -> (kind: Option<FileKind>)
    ensures
        kind == kind_of(upper@),
{
    if lists(&jpeg_extension_list(), upper) {
        Some(FileKind::Jpeg)
    } else if lists(&raw_extension_list(), upper) {
        Some(FileKind::Raw)
    } else {
        None
    }
}

} // verus!
