//! The display-ready metadata record of a photo and the rules that derive
//! each of its fields from a decoded EXIF field.

use crate::binary64::{
    fixed_one, fixed_one_text, round_half_even, round_half_up, round_to_even, round_up,
};
use crate::text::{
    before_comma, chars_of, cut_at_comma, decimal, decimal_text, push_decimal, slice_text, trim,
    trim_text, trim_window, utf8_text, Strip,
};
use vstd::prelude::*;
use vstd::string::*;
use vstd::utf8::{decode_utf8, valid_utf8};

verus! {

/// Capture parameters of a photo, each as a text ready for display. A field
/// is absent where the photo does not state it in a usable form.
#[derive(Debug, Clone, PartialEq, Eq)]
pub struct ExifData {
    pub shutter_speed: Option<String>,
    pub aperture: Option<String>,
    pub iso: Option<String>,
    pub focal_length: Option<String>,
    pub date_time: Option<String>,
    pub model: Option<String>,
    pub lens: Option<String>,
}

/// What an [`ExifData`] holds, as mathematical values.
pub struct ExifDataView {
    pub shutter_speed: Option<Seq<char>>,
    pub aperture: Option<Seq<char>>,
    pub iso: Option<Seq<char>>,
    pub focal_length: Option<Seq<char>>,
    pub date_time: Option<Seq<char>>,
    pub model: Option<Seq<char>>,
    pub lens: Option<Seq<char>>,
}

impl View for ExifData {
    type V = ExifDataView;

    open spec fn view(&self) -> ExifDataView {
        ExifDataView {
            shutter_speed: self.shutter_speed.deep_view(),
            aperture: self.aperture.deep_view(),
            iso: self.iso.deep_view(),
            focal_length: self.focal_length.deep_view(),
            date_time: self.date_time.deep_view(),
            model: self.model.deep_view(),
            lens: self.lens.deep_view(),
        }
    }
}

impl DeepView for ExifData {
    type V = ExifDataView;

    open spec fn deep_view(&self) -> ExifDataView {
        self.view()
    }
}

/// An unsigned EXIF rational: a numerator over a denominator.
#[derive(Debug, Clone, Copy, PartialEq, Eq)]
pub struct Rational {
    pub num: u32,
    pub denom: u32,
}

/// The value of a decoded EXIF field, as far as the rules read it.
#[derive(Debug, Clone, PartialEq, Eq)]
pub enum FieldContent {
    /// Unsigned rationals.
    Rational(Vec<Rational>),
    /// Byte strings, without their terminating null.
    Ascii(Vec<Vec<u8>>),
    /// A value of any other type.
    Other,
}

/// What a [`FieldContent`] holds, as mathematical values.
pub enum FieldContentView {
    Rational(Seq<Rational>),
    Ascii(Seq<Seq<u8>>),
    Other,
}

impl View for FieldContent {
    type V = FieldContentView;

    open spec fn view(&self) -> FieldContentView {
        match self {
            FieldContent::Rational(v) => FieldContentView::Rational(v@),
            FieldContent::Ascii(v) => FieldContentView::Ascii(v.deep_view()),
            FieldContent::Other => FieldContentView::Other,
        }
    }
}

/// A decoded EXIF field: its value and the text that the decoder renders it
/// as.
#[derive(Debug, Clone, PartialEq, Eq)]
pub struct RawField {
    pub content: FieldContent,
    pub display: String,
}

/// What a [`RawField`] holds, as mathematical values.
pub struct RawFieldView {
    pub content: FieldContentView,
    pub display: Seq<char>,
}

impl View for RawField {
    type V = RawFieldView;

    open spec fn view(&self) -> RawFieldView {
        RawFieldView { content: self.content@, display: self.display@ }
    }
}

impl DeepView for RawField {
    type V = RawFieldView;

    open spec fn deep_view(&self) -> RawFieldView {
        self.view()
    }
}

/// The seven fields of a photo's primary image that the metadata record is
/// derived from, each as decoded or absent.
#[derive(Debug, Clone, PartialEq, Eq)]
pub struct ExifFields {
    pub exposure_time: Option<RawField>,
    pub f_number: Option<RawField>,
    pub sensitivity: Option<RawField>,
    pub focal_length: Option<RawField>,
    pub date_time: Option<RawField>,
    pub model: Option<RawField>,
    pub lens_model: Option<RawField>,
}

/// What an [`ExifFields`] holds, as mathematical values.
pub struct ExifFieldsView {
    pub exposure_time: Option<RawFieldView>,
    pub f_number: Option<RawFieldView>,
    pub sensitivity: Option<RawFieldView>,
    pub focal_length: Option<RawFieldView>,
    pub date_time: Option<RawFieldView>,
    pub model: Option<RawFieldView>,
    pub lens_model: Option<RawFieldView>,
}

impl View for ExifFields {
    type V = ExifFieldsView;

    open spec fn view(&self) -> ExifFieldsView {
        ExifFieldsView {
            exposure_time: self.exposure_time.deep_view(),
            f_number: self.f_number.deep_view(),
            sensitivity: self.sensitivity.deep_view(),
            focal_length: self.focal_length.deep_view(),
            date_time: self.date_time.deep_view(),
            model: self.model.deep_view(),
            lens_model: self.lens_model.deep_view(),
        }
    }
}

/// The first rational of a value, where it has one with a denominator
/// other than zero.
pub open spec fn leading_ratio(content: FieldContentView) -> Option<Rational> {
    match content {
        FieldContentView::Rational(v) => if v.len() > 0 && v[0].denom != 0 {
            Some(v[0])
        } else {
            None
        },
        _ => None,
    }
}

/// The denominator of the unit fraction that stands for an exposure of
/// `num / denom` seconds: `denom / num` rounded to an integer, a tie upwards.
/// An exposure of zero has no reciprocal; the largest 32-bit number stands
/// for it.
pub open spec fn unit_fraction(num: u32, denom: u32) -> nat {
    if num == 0 {
        0xffff_ffff
    } else {
        round_half_up(denom as nat, num as nat)
    }
}

/// The text of an exposure time of `num / denom` seconds: from one second
/// on, the seconds with one fractional digit and an `s`; below, a unit
/// fraction.
pub open spec fn exposure_text(num: u32, denom: u32) -> Seq<char> {
    if num >= denom {
        fixed_one(num as nat, denom as nat) + "s"@
    } else {
        "1/"@ + decimal(unit_fraction(num, denom))
    }
}

/// The text of an F-number of `num / denom`: with one fractional digit.
pub open spec fn f_number_text(num: u32, denom: u32) -> Seq<char> {
    "f/"@ + fixed_one(num as nat, denom as nat)
}

/// The text of a focal length of `num / denom` millimetres: rounded to an
/// integer, a tie to the even neighbour.
pub open spec fn focal_text(num: u32, denom: u32) -> Seq<char> {
    decimal(round_half_even(num as nat, denom as nat)) + "mm"@
}

/// A rendered text without the double quotes at its ends.
pub open spec fn unquoted(display: Seq<char>) -> Seq<char> {
    trim(display, Strip::Quotes)
}

/// The shutter speed that an exposure-time field gives.
pub open spec fn shutter_speed_of(field: RawFieldView) -> Option<Seq<char>> {
    match field.content {
        FieldContentView::Rational(v) => match leading_ratio(field.content) {
            Some(r) => Some(exposure_text(r.num, r.denom)),
            None => None,
        },
        _ => Some(unquoted(field.display)),
    }
}

/// The aperture that an F-number field gives.
pub open spec fn aperture_of(field: RawFieldView) -> Option<Seq<char>> {
    match leading_ratio(field.content) {
        Some(r) => Some(f_number_text(r.num, r.denom)),
        None => None,
    }
}

/// The focal length that a focal-length field gives.
pub open spec fn focal_length_of(field: RawFieldView) -> Option<Seq<char>> {
    match leading_ratio(field.content) {
        Some(r) => Some(focal_text(r.num, r.denom)),
        None => None,
    }
}

/// The text that one byte string of a lens-model field gives: its UTF-8
/// text without nulls, then white space, then double quotes at its ends;
/// nothing where the bytes are not UTF-8 or no character is left.
pub open spec fn lens_entry(bytes: Seq<u8>) -> Option<Seq<char>> {
    if valid_utf8(bytes) {
        let text = trim(
            trim(trim(decode_utf8(bytes), Strip::Nuls), Strip::Whitespace),
            Strip::Quotes,
        );
        if text.len() > 0 {
            Some(text)
        } else {
            None
        }
    } else {
        None
    }
}

/// The first of `entries` that gives a lens text, and that text.
pub open spec fn first_lens_entry(entries: Seq<Seq<u8>>) -> Option<Seq<char>>
    decreases entries.len(),
{
    if entries.len() == 0 {
        None
    } else {
        match lens_entry(entries[0]) {
            Some(text) => Some(text),
            None => first_lens_entry(entries.drop_first()),
        }
    }
}

/// The lens text that a rendered field gives: what stands before the first
/// comma, freed of quotes and white space around it; nothing where no
/// character is left.
pub open spec fn lens_from_display(display: Seq<char>) -> Option<Seq<char>> {
    let cleaned = trim(trim(display, Strip::Quotes), Strip::Whitespace);
    let text = trim(trim(before_comma(cleaned), Strip::Whitespace), Strip::Quotes);
    if text.len() > 0 {
        Some(text)
    } else {
        None
    }
}

/// The lens that a lens-model field gives.
pub open spec fn lens_of(field: RawFieldView) -> Option<Seq<char>> {
    match field.content {
        FieldContentView::Ascii(entries) => first_lens_entry(entries),
        _ => lens_from_display(field.display),
    }
}

/// The rendered text of a field, unquoted, where the field is there.
pub open spec fn unquoted_display(field: Option<RawFieldView>) -> Option<Seq<char>> {
    match field {
        Some(f) => Some(unquoted(f.display)),
        None => None,
    }
}

/// The metadata record that the seven fields give.
pub open spec fn metadata_of(fields: ExifFieldsView) -> ExifDataView {
    ExifDataView {
        shutter_speed: match fields.exposure_time {
            Some(f) => shutter_speed_of(f),
            None => None,
        },
        aperture: match fields.f_number {
            Some(f) => aperture_of(f),
            None => None,
        },
        iso: unquoted_display(fields.sensitivity),
        focal_length: match fields.focal_length {
            Some(f) => focal_length_of(f),
            None => None,
        },
        date_time: unquoted_display(fields.date_time),
        model: unquoted_display(fields.model),
        lens: match fields.lens_model {
            Some(f) => lens_of(f),
            None => None,
        },
    }
}

/// Renders an exposure time of `num / denom` seconds; nothing for a
/// denominator of zero.
pub fn format_shutter_speed(num: u32, denom: u32) -> (text: Option<String>)
    ensures
        text.deep_view() == if denom == 0 {
            None
        } else {
            Some(exposure_text(num, denom))
        },
{
    if denom == 0 {
        return None;
    }
    if num >= denom {
        let mut text = fixed_one_text(num, denom);
        text.append("s");
        Some(text)
    } else {
        let reciprocal: u64 = if num == 0 {
            0xffff_ffff
        } else {
            let rounded = round_up(denom as u128, num as u128);
            assert(rounded <= denom + 1) by (nonlinear_arith)
                requires
                    rounded <= (denom as nat) / (num as nat) + 1,
                    num >= 1,
            ;
            rounded as u64
        };
        let mut text = String::from_str("1/");
        push_decimal(&mut text, reciprocal);
        Some(text)
    }
}

/// Renders an F-number of `num / denom`; nothing for a denominator of zero.
pub fn format_aperture(num: u32, denom: u32) -> (text: Option<String>)
    ensures
        text.deep_view() == if denom == 0 {
            None
        } else {
            Some(f_number_text(num, denom))
        },
{
    if denom == 0 {
        return None;
    }
    let mut text = String::from_str("f/");
    let digits = fixed_one_text(num, denom);
    text.append(digits.as_str());
    Some(text)
}

/// Renders a focal length of `num / denom` millimetres; nothing for a
/// denominator of zero.
pub fn format_focal_length(num: u32, denom: u32) -> (text: Option<String>)
    ensures
        text.deep_view() == if denom == 0 {
            None
        } else {
            Some(focal_text(num, denom))
        },
{
    if denom == 0 {
        return None;
    }
    let rounded = round_to_even(num as u128, denom as u128);
    assert(rounded <= num + 1) by (nonlinear_arith)
        requires
            rounded <= (num as nat) / (denom as nat) + 1,
            denom >= 1,
    ;
    let mut text = decimal_text(rounded as u64);
    text.append("mm");
    Some(text)
}

/// Takes the double quotes off both ends of a rendered text.
pub fn strip_quotes(display: &str) -> (text: String)
    ensures
        text@ == unquoted(display@),
{
    trim_text(display, Strip::Quotes)
}

/// The first rational of a value, where it has one with a denominator
/// other than zero.
fn leading(content: &FieldContent) -> (ratio: Option<Rational>)
    ensures
        ratio == leading_ratio(content@),
{
    match content {
        FieldContent::Rational(v) => {
            if v.len() > 0 && v[0].denom != 0 {
                Some(v[0])
            } else {
                None
            }
        },
        _ => None,
    }
}

/// Derives the shutter speed from an exposure-time field.
pub fn shutter_speed(field: &RawField) -> (text: Option<String>)
    ensures
        text.deep_view() == shutter_speed_of(field@),
{
    match &field.content {
        FieldContent::Rational(_) => match leading(&field.content) {
            Some(r) => format_shutter_speed(r.num, r.denom),
            None => None,
        },
        _ => Some(strip_quotes(field.display.as_str())),
    }
}

/// Derives the aperture from an F-number field.
pub fn aperture(field: &RawField) -> (text: Option<String>)
    ensures
        text.deep_view() == aperture_of(field@),
{
    match leading(&field.content) {
        Some(r) => format_aperture(r.num, r.denom),
        None => None,
    }
}

/// Derives the focal length from a focal-length field.
pub fn focal_length(field: &RawField) -> (text: Option<String>)
    ensures
        text.deep_view() == focal_length_of(field@),
{
    match leading(&field.content) {
        Some(r) => format_focal_length(r.num, r.denom),
        None => None,
    }
}

/// Cleans one byte string of a lens-model field.
fn clean_lens_entry(bytes: &[u8]) -> (text: Option<String>)
    ensures
        text.deep_view() == lens_entry(bytes@),
{
    match utf8_text(bytes) {
        None => None,
        Some(raw) => {
            let chars = chars_of(raw);
            assert(chars@.subrange(0, chars@.len() as int) =~= chars@);
            let (lo, hi) = trim_window(&chars, 0, chars.len(), Strip::Nuls);
            let (lo, hi) = trim_window(&chars, lo, hi, Strip::Whitespace);
            let (lo, hi) = trim_window(&chars, lo, hi, Strip::Quotes);
            if lo < hi {
                Some(slice_text(raw, lo, hi))
            } else {
                None
            }
        },
    }
}

/// Derives the lens from the byte strings of a lens-model field: the first
/// that leaves a text when cleaned.
pub fn lens_from_ascii(entries: &Vec<Vec<u8>>) -> (text: Option<String>)
    ensures
        text.deep_view() == first_lens_entry(entries.deep_view()),
{
    let mut i: usize = 0;
    assert(entries.deep_view().skip(0) =~= entries.deep_view());
    while i < entries.len()
        invariant
            i <= entries.len(),
            first_lens_entry(entries.deep_view()) == first_lens_entry(
                entries.deep_view().skip(i as int),
            ),
        decreases entries.len() - i,
    {
        let ghost rest = entries.deep_view().skip(i as int);
        assert(rest[0] == entries[i as int]@);
        assert(rest.drop_first() =~= entries.deep_view().skip(i + 1));
        match clean_lens_entry(entries[i].as_slice()) {
            Some(text) => {
                return Some(text);
            },
            None => {},
        }
        i = i + 1;
    }
    None
}

/// Derives the lens from the rendered text of a lens-model field.
pub fn lens_from_text(display: &str) -> (text: Option<String>)
    ensures
        text.deep_view() == lens_from_display(display@),
{
    let chars = chars_of(display);
    assert(chars@.subrange(0, chars@.len() as int) =~= chars@);
    let (lo, hi) = trim_window(&chars, 0, chars.len(), Strip::Quotes);
    let (lo, hi) = trim_window(&chars, lo, hi, Strip::Whitespace);
    let hi = cut_at_comma(&chars, lo, hi);
    let (lo, hi) = trim_window(&chars, lo, hi, Strip::Whitespace);
    let (lo, hi) = trim_window(&chars, lo, hi, Strip::Quotes);
    if lo < hi {
        Some(slice_text(display, lo, hi))
    } else {
        None
    }
}

/// Derives the lens from a lens-model field.
pub fn lens(field: &RawField) -> (text: Option<String>)
    ensures
        text.deep_view() == lens_of(field@),
{
    match &field.content {
        FieldContent::Ascii(entries) => lens_from_ascii(entries),
        _ => lens_from_text(field.display.as_str()),
    }
}

/// The rendered text of a field, unquoted, where the field is there.
fn display_of(field: &Option<RawField>) -> (text: Option<String>)
    ensures
        text.deep_view() == unquoted_display(field.deep_view()),
{
    match field {
        Some(f) => Some(strip_quotes(f.display.as_str())),
        None => None,
    }
}

/// Derives the metadata record from the seven decoded fields. Each field of
/// the record follows from its own field alone, and none can fail.
pub fn extract_metadata(fields: &ExifFields) -> (data: ExifData)
    ensures
        data@ == metadata_of(fields@),
{
    ExifData {
        shutter_speed: match &fields.exposure_time {
            Some(f) => shutter_speed(f),
            None => None,
        },
        aperture: match &fields.f_number {
            Some(f) => aperture(f),
            None => None,
        },
        iso: display_of(&fields.sensitivity),
        focal_length: match &fields.focal_length {
            Some(f) => focal_length(f),
            None => None,
        },
        date_time: display_of(&fields.date_time),
        model: display_of(&fields.model),
        lens: match &fields.lens_model {
            Some(f) => lens(f),
            None => None,
        },
    }
}

} // verus!
