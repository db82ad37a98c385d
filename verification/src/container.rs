//! Reading the metadata of an image file from its bytes. The container and
//! its EXIF segment are decoded by the `exif` crate; this module picks the
//! seven fields that the metadata record is derived from.

use crate::metadata::{
    extract_metadata, metadata_of, ExifData, ExifDataView, ExifFields, ExifFieldsView,
    FieldContent, FieldContentView, Rational, RawField, RawFieldView,
};
use crate::text::{holds, lemma_holds_part};
use vstd::prelude::*;
use vstd::string::*;

verus! {

/// The decoded EXIF attributes of an image, as the `exif` crate holds them.
#[verifier::external_type_specification]
#[verifier::external_body]
pub struct ExExif(exif::Exif);

/// One decoded EXIF field, as the `exif` crate holds it.
#[verifier::external_type_specification]
#[verifier::external_body]
pub struct ExField(exif::Field);

/// The failure of the `exif` crate to decode an image.
#[verifier::external_type_specification]
#[verifier::external_body]
pub struct ExDecodeError(exif::Error);

/// The fields that the metadata record is derived from.
#[derive(Debug, Clone, Copy, PartialEq, Eq)]
pub enum MetadataTag {
    ExposureTime,
    FNumber,
    PhotographicSensitivity,
    FocalLength,
    DateTimeOriginal,
    Model,
    LensModel,
}

/// What `exif::Reader::read_from_container` makes of a file that holds
/// `bytes`: the decoded attributes, or the reason why there are none.
pub uninterp spec fn container_exif(bytes: Seq<u8>) -> Result<exif::Exif, exif::Error>;

/// The field that `exif::Exif::get_field` finds in `exif` under `tag` for the
/// primary image.
pub uninterp spec fn primary_field(exif: exif::Exif, tag: MetadataTag) -> Option<exif::Field>;

/// The public member `value` of an `exif::Field`, as far as the rules read
/// it: its rationals, its byte strings, or that it is of another type.
pub uninterp spec fn field_content(field: exif::Field) -> FieldContentView;

/// The text that `exif::Field::display_value` renders `field` as when `exif`
/// provides the unit.
pub uninterp spec fn field_display(field: exif::Field, exif: exif::Exif) -> Seq<char>;

/// The text that `exif::Error` displays as.
pub uninterp spec fn error_text(error: exif::Error) -> Seq<char>;

/// `exif::Reader::read_from_container` on a reader over `bytes`, with a new
/// reader of the crate's defaults. The contract only names the outcome: it
/// depends on nothing but the bytes.
#[verifier::external_body]
fn decode_container(bytes: &[u8]) -> (outcome: Result<exif::Exif, exif::Error>)
    ensures
        outcome == container_exif(bytes@),
{
    exif::Reader::new().read_from_container(&mut std::io::Cursor::new(bytes))
}

/// `exif::Exif::get_field` for the primary image. The contract only names the
/// field that is found.
#[verifier::external_body]
fn find_field(exif: &exif::Exif, tag: MetadataTag) -> (field: Option<&exif::Field>)
    ensures
        field is Some == primary_field(*exif, tag) is Some,
        field matches Some(f) ==> primary_field(*exif, tag) == Some(*f),
{
    let tag = match tag {
        MetadataTag::ExposureTime => exif::Tag::ExposureTime,
        MetadataTag::FNumber => exif::Tag::FNumber,
        MetadataTag::PhotographicSensitivity => exif::Tag::PhotographicSensitivity,
        MetadataTag::FocalLength => exif::Tag::FocalLength,
        MetadataTag::DateTimeOriginal => exif::Tag::DateTimeOriginal,
        MetadataTag::Model => exif::Tag::Model,
        MetadataTag::LensModel => exif::Tag::LensModel,
    };
    exif.get_field(tag, exif::In::PRIMARY)
}

/// The public member `value` of an `exif::Field`: rationals and byte strings
/// are copied, every other type is left out. The contract only names what is
/// read.
#[verifier::external_body]
fn content(field: &exif::Field) -> (content: FieldContent)
    ensures
        content@ == field_content(*field),
{
    match &field.value {
        exif::Value::Rational(v) => FieldContent::Rational(
            v.iter().map(|r| Rational { num: r.num, denom: r.denom }).collect(),
        ),
        exif::Value::Ascii(v) => FieldContent::Ascii(v.clone()),
        _ => FieldContent::Other,
    }
}

/// `exif::Field::display_value`, then `with_unit` with `exif` as the provider
/// of the unit, then the `Display` form of the result. The contract only
/// names the text.
#[verifier::external_body]
fn display(field: &exif::Field, exif: &exif::Exif) -> (text: String)
    ensures
        text@ == field_display(*field, *exif),
{
    field.display_value().with_unit(exif).to_string()
}

/// The `Display` form of an `exif::Error`. The contract only names it.
#[verifier::external_body]
fn describe(error: &exif::Error) -> (text: String)
    ensures
        text@ == error_text(*error),
{
    error.to_string()
}

/// The field of the primary image under `tag`, as plain values.
pub open spec fn field_view(exif: exif::Exif, tag: MetadataTag) -> Option<RawFieldView> {
    match primary_field(exif, tag) {
        Some(f) => Some(
            RawFieldView { content: field_content(f), display: field_display(f, exif) },
        ),
        None => None,
    }
}

/// The seven fields of the primary image, as plain values.
pub open spec fn fields_of(exif: exif::Exif) -> ExifFieldsView {
    ExifFieldsView {
        exposure_time: field_view(exif, MetadataTag::ExposureTime),
        f_number: field_view(exif, MetadataTag::FNumber),
        sensitivity: field_view(exif, MetadataTag::PhotographicSensitivity),
        focal_length: field_view(exif, MetadataTag::FocalLength),
        date_time: field_view(exif, MetadataTag::DateTimeOriginal),
        model: field_view(exif, MetadataTag::Model),
        lens_model: field_view(exif, MetadataTag::LensModel),
    }
}

/// The field of the primary image under `tag`, as plain values.
fn field(exif: &exif::Exif, tag: MetadataTag) -> (raw: Option<RawField>)
    ensures
        raw.deep_view() == field_view(*exif, tag),
{
    match find_field(exif, tag) {
        Some(f) => Some(RawField { content: content(f), display: display(f, exif) }),
        None => None,
    }
}

/// Picks the seven fields out of decoded attributes.
fn fields(exif: &exif::Exif) -> (picked: ExifFields)
    ensures
        picked@ == fields_of(*exif),
{
    ExifFields {
        exposure_time: field(exif, MetadataTag::ExposureTime),
        f_number: field(exif, MetadataTag::FNumber),
        sensitivity: field(exif, MetadataTag::PhotographicSensitivity),
        focal_length: field(exif, MetadataTag::FocalLength),
        date_time: field(exif, MetadataTag::DateTimeOriginal),
        model: field(exif, MetadataTag::Model),
        lens_model: field(exif, MetadataTag::LensModel),
    }
}

/// What reading the file at a path brought: the cause for which it could
/// not be opened, the cause for which it could not be read once it was open,
/// or its bytes.
#[derive(Debug, Clone, PartialEq, Eq)]
pub enum FileReading {
    NotOpened { path: String, cause: String },
    NotRead { path: String, cause: String },
    Read(Vec<u8>),
}

/// What a [`FileReading`] holds, as mathematical values.
pub enum FileReadingView {
    NotOpened { path: Seq<char>, cause: Seq<char> },
    NotRead { path: Seq<char>, cause: Seq<char> },
    Read(Seq<u8>),
}

impl View for FileReading {
    type V = FileReadingView;

    open spec fn view(&self) -> FileReadingView {
        match self {
            FileReading::NotOpened { path, cause } => FileReadingView::NotOpened {
                path: path@,
                cause: cause@,
            },
            FileReading::NotRead { path, cause } => FileReadingView::NotRead {
                path: path@,
                cause: cause@,
            },
            FileReading::Read(bytes) => FileReadingView::Read(bytes@),
        }
    }
}

/// Why no metadata could be read from a file.
#[derive(Debug, Clone, PartialEq, Eq)]
pub enum MetadataError {
    /// The file at `path` could not be opened; with the cause.
    Io { path: String, cause: String },
    /// The file at `path` was opened and could not be read; with the cause.
    Unread { path: String, cause: String },
    /// The file holds no EXIF segment that can be decoded; with the cause.
    Decode(String),
}

/// What a [`MetadataError`] holds, as mathematical values.
pub enum MetadataErrorView {
    Io { path: Seq<char>, cause: Seq<char> },
    Unread { path: Seq<char>, cause: Seq<char> },
    Decode(Seq<char>),
}

impl View for MetadataError {
    type V = MetadataErrorView;

    open spec fn view(&self) -> MetadataErrorView {
        match self {
            MetadataError::Io { path, cause } => MetadataErrorView::Io {
                path: path@,
                cause: cause@,
            },
            MetadataError::Unread { path, cause } => MetadataErrorView::Unread {
                path: path@,
                cause: cause@,
            },
            MetadataError::Decode(cause) => MetadataErrorView::Decode(cause@),
        }
    }
}

impl MetadataErrorView {
    /// The message of the error. A failure of the file system names the path
    /// and the cause.
    pub open spec fn message(self) -> Seq<char> {
        match self {
            MetadataErrorView::Io { path, cause } => "Failed to open file "@ + path + ": "@ + cause,
            MetadataErrorView::Unread { path, cause } => "Failed to read file "@ + path + ": "@
                + cause,
            MetadataErrorView::Decode(cause) => "Failed to read EXIF: "@ + cause,
        }
    }
}

impl MetadataError {
    /// The message of the error: what failed, on which file, and the cause.
    pub fn message(&self) -> (text: String)
        ensures
            text@ == self@.message(),
    {
        match self {
            MetadataError::Io { path, cause } => {
                let mut text = String::from_str("Failed to open file ");
                text.append(path.as_str());
                text.append(": ");
                text.append(cause.as_str());
                text
            },
            MetadataError::Unread { path, cause } => {
                let mut text = String::from_str("Failed to read file ");
                text.append(path.as_str());
                text.append(": ");
                text.append(cause.as_str());
                text
            },
            MetadataError::Decode(cause) => {
                let mut text = String::from_str("Failed to read EXIF: ");
                text.append(cause.as_str());
                text
            },
        }
    }
}

/// The metadata of a file, given what reading the file brought. A file that
/// could not be opened or read is a failure of the file system, with its
/// path and the cause, and nothing is decoded; bytes without a decodable EXIF
/// segment are a decode error; decoded attributes always give a record.
pub open spec fn metadata_of_file(reading: FileReadingView) -> Result<
    ExifDataView,
    MetadataErrorView,
> {
    match reading {
        FileReadingView::NotOpened { path, cause } => Err(
            MetadataErrorView::Io { path: path, cause: cause },
        ),
        FileReadingView::NotRead { path, cause } => Err(
            MetadataErrorView::Unread { path: path, cause: cause },
        ),
        FileReadingView::Read(bytes) => match container_exif(bytes) {
            Ok(exif) => Ok(metadata_of(fields_of(exif))),
            Err(error) => Err(MetadataErrorView::Decode(error_text(error))),
        },
    }
}

/// Reads the metadata of an image file from what reading the file brought.
pub fn read_exif(reading: FileReading) -> (outcome: Result<ExifData, MetadataError>)
    ensures
        match outcome {
            Ok(data) => metadata_of_file(reading@) == Ok::<ExifDataView, MetadataErrorView>(data@),
            Err(error) => metadata_of_file(reading@) == Err::<ExifDataView, MetadataErrorView>(
                error@,
            ),
        },
{
    match reading {
        FileReading::NotOpened { path, cause } => Err(MetadataError::Io { path: path, cause: cause }),
        FileReading::NotRead { path, cause } => Err(
            MetadataError::Unread { path: path, cause: cause },
        ),
        FileReading::Read(bytes) => match decode_container(bytes.as_slice()) {
            Ok(exif) => {
                let picked = fields(&exif);
                Ok(extract_metadata(&picked))
            },
            Err(error) => Err(MetadataError::Decode(describe(&error))),
        },
    }
}

/// A failure of the file system always carries the offending path and the
/// cause: the message of a file that could not be opened or read holds both.
pub proof fn law_io_failure_names_path_and_cause(path: Seq<char>, cause: Seq<char>)
    ensures
        holds((MetadataErrorView::Io { path: path, cause: cause }).message(), path),
        holds((MetadataErrorView::Io { path: path, cause: cause }).message(), cause),
        holds((MetadataErrorView::Unread { path: path, cause: cause }).message(), path),
        holds((MetadataErrorView::Unread { path: path, cause: cause }).message(), cause),
        metadata_of_file(FileReadingView::NotOpened { path: path, cause: cause }) == Err::<
            ExifDataView,
            MetadataErrorView,
        >(MetadataErrorView::Io { path: path, cause: cause }),
        metadata_of_file(FileReadingView::NotRead { path: path, cause: cause }) == Err::<
            ExifDataView,
            MetadataErrorView,
        >(MetadataErrorView::Unread { path: path, cause: cause }),
{
    let open = "Failed to open file "@;
    let read = "Failed to read file "@;
    let colon = ": "@;
    lemma_holds_part(open, path, colon + cause);
    assert(open + path + (colon + cause) =~= open + path + colon + cause);
    lemma_holds_part(open + path + colon, cause, seq![]);
    assert(open + path + colon + cause + seq![] =~= open + path + colon + cause);
    lemma_holds_part(read, path, colon + cause);
    assert(read + path + (colon + cause) =~= read + path + colon + cause);
    lemma_holds_part(read + path + colon, cause, seq![]);
    assert(read + path + colon + cause + seq![] =~= read + path + colon + cause);
}

} // verus!
