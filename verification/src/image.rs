//! Image formats and sizes: their names, their dimensions in pixels, and how
//! they are read from the attributes of an image directive.

use vstd::prelude::*;
use crate::text::{
    all_digits, char_index, chars_eq_str, find_char, lemma_char_index, chars_lower_eq, chars_of, decimal, is_digit, lower_eq, push_chars, push_str,
    string_of, sub_chars, trim, trim_chars, usize_to_chars, lemma_trim_unchanged,
};
use crate::console::owned;

verus! {

/// The resolution that sizes are converted at, in dots per centimetre (close
/// to 150 dots per inch).
pub const BASE_DPCM: usize = 59;

/// The width of the content column of the site, in pixels. Wider images are
/// shown as thumbnails when a link to the full image is requested.
pub const CONTENT_WIDTH: usize = 650;

/// Which of the two dimensions of an image is its width.
#[derive(Clone, Copy, PartialEq, Eq, Structural, Debug)]
pub enum ImageFormat {
    /// The long side is the width.
    Landscape,
    /// The long side is the height.
    Portrait,
}

/// The error of reading an image format.
#[derive(Debug)]
pub enum ImageFormatParseError {
    UnknownValue(String),
}

impl ImageFormatParseError {
    /// The message of the error: `Unknown image format '<value>'`.
    pub fn to_string(&self) -> (r: String)
        ensures
            match self {
                ImageFormatParseError::UnknownValue(v) => r@ == "Unknown image format '"@ + v@
                    + "'"@,
            },
    {
        match self {
            ImageFormatParseError::UnknownValue(v) => {
                let mut out: Vec<char> = Vec::new();
                push_str(&mut out, "Unknown image format '");
                push_str(&mut out, v.as_str());
                push_str(&mut out, "'");
                string_of(&out)
            },
        }
    }
}

/// The format that `input` names, whatever the case of its letters: `l` or
/// `landscape`, `p` or `portrait`.
pub open spec fn format_named(input: Seq<char>) -> Option<ImageFormat> {
    if lower_eq(input, "l"@) || lower_eq(input, "landscape"@) {
        Some(ImageFormat::Landscape)
    } else if lower_eq(input, "p"@) || lower_eq(input, "portrait"@) {
        Some(ImageFormat::Portrait)
    } else {
        None
    }
}

/// The name of a format as it is written: `Landscape` or `Portrait`.
pub open spec fn format_name(f: ImageFormat) -> Seq<char> {
    match f {
        ImageFormat::Landscape => "Landscape"@,
        ImageFormat::Portrait => "Portrait"@,
    }
}

impl ImageFormat {
    /// Reads a format: `l`, `landscape`, `p` or `portrait`, in any case.
    pub fn from_str(input: &str) -> (r: Result<ImageFormat, ImageFormatParseError>)
        ensures
            match format_named(input@) {
                Some(f) => r == Ok::<ImageFormat, ImageFormatParseError>(f),
                None => r matches Err(ImageFormatParseError::UnknownValue(v)) && v@ == input@,
            },
    {
        let s = chars_of(input);
        if chars_lower_eq(&s, "l") || chars_lower_eq(&s, "landscape") {
            Ok(ImageFormat::Landscape)
        } else if chars_lower_eq(&s, "p") || chars_lower_eq(&s, "portrait") {
            Ok(ImageFormat::Portrait)
        } else {
            Err(ImageFormatParseError::UnknownValue(owned(input)))
        }
    }

    /// The name of the format: `Landscape` or `Portrait`.
    pub fn to_string(&self) -> (r: String)
        ensures
            r@ == format_name(*self),
    {
        match self {
            ImageFormat::Landscape => owned("Landscape"),
            ImageFormat::Portrait => owned("Portrait"),
        }
    }
}

/// The size an image is reduced to, keeping its aspect ratio. The paper sizes
/// A5 to A10 are taken at `BASE_DPCM` dots per centimetre.
#[derive(Clone, Copy, PartialEq, Eq, Structural, Debug)]
pub enum ImageSize {
    A5,
    A6,
    A7,
    A8,
    A9,
    A10,
    /// Two dimensions in pixels; the format decides which is the width.
    Custom(usize, usize),
}

/// `mm` millimetres in pixels at `BASE_DPCM` dots per centimetre, rounded to
/// the nearest pixel (halves rounded up).
pub open spec fn px_of_mm(mm: nat) -> nat {
    ((mm * BASE_DPCM + 5) / 10) as nat
}

/// The short side of a paper size, in millimetres.
pub open spec fn paper_short_mm(size: ImageSize) -> nat {
    match size {
        ImageSize::A5 => 148,
        ImageSize::A6 => 105,
        ImageSize::A7 => 74,
        ImageSize::A8 => 52,
        ImageSize::A9 => 37,
        ImageSize::A10 => 26,
        ImageSize::Custom(..) => 0,
    }
}

/// The long side of a paper size, in millimetres.
pub open spec fn paper_long_mm(size: ImageSize) -> nat {
    match size {
        ImageSize::A5 => 210,
        ImageSize::A6 => 148,
        ImageSize::A7 => 105,
        ImageSize::A8 => 74,
        ImageSize::A9 => 52,
        ImageSize::A10 => 37,
        ImageSize::Custom(..) => 0,
    }
}

/// The shorter dimension of a size, in pixels.
pub open spec fn short_side(size: ImageSize) -> nat {
    match size {
        ImageSize::Custom(x, y) => if x <= y {
            x as nat
        } else {
            y as nat
        },
        _ => px_of_mm(paper_short_mm(size)),
    }
}

/// The longer dimension of a size, in pixels.
pub open spec fn long_side(size: ImageSize) -> nat {
    match size {
        ImageSize::Custom(x, y) => if x >= y {
            x as nat
        } else {
            y as nat
        },
        _ => px_of_mm(paper_long_mm(size)),
    }
}

/// The width of a size in a format, in pixels.
pub open spec fn width_of(size: ImageSize, format: ImageFormat) -> nat {
    match format {
        ImageFormat::Landscape => long_side(size),
        ImageFormat::Portrait => short_side(size),
    }
}

/// The height of a size in a format, in pixels.
pub open spec fn height_of(size: ImageSize, format: ImageFormat) -> nat {
    match format {
        ImageFormat::Landscape => short_side(size),
        ImageFormat::Portrait => long_side(size),
    }
}

/// The size and format of the thumbnail of an image in `format`.
pub open spec fn thumbnail_of(format: ImageFormat) -> (ImageSize, ImageFormat) {
    match format {
        ImageFormat::Landscape => (ImageSize::A7, ImageFormat::Landscape),
        ImageFormat::Portrait => (ImageSize::A6, ImageFormat::Portrait),
    }
}

/// The name of a size as it is written: `A5` to `A10`, or `<x>px×<y>px`.
pub open spec fn size_name(size: ImageSize) -> Seq<char> {
    match size {
        ImageSize::A5 => "A5"@,
        ImageSize::A6 => "A6"@,
        ImageSize::A7 => "A7"@,
        ImageSize::A8 => "A8"@,
        ImageSize::A9 => "A9"@,
        ImageSize::A10 => "A10"@,
        ImageSize::Custom(x, y) => decimal(x as nat) + "px×"@ + decimal(y as nat) + "px"@,
    }
}

impl ImageSize {
    /// `mm` millimetres in pixels at `BASE_DPCM` dots per centimetre, rounded
    /// to the nearest pixel (halves up), in exact integer arithmetic.
    ///
    /// The same computation in `f32`, `(mm as f32 * 0.1 * 59.0).round()`,
    /// gives the same pixels for the paper sizes A5 to A10, the only values
    /// this is used with, but loses precision and may differ for very large
    /// inputs (from about 16,777,217 millimetres on).
    pub fn mm_to_px(mm: usize) -> (r: usize)
        requires
            mm * BASE_DPCM + 5 <= usize::MAX,
        ensures
            r == px_of_mm(mm as nat),
    {
        (mm * BASE_DPCM + 5) / 10
    }

    /// The shorter dimension, in pixels.
    pub fn short_dimension(&self) -> (r: usize)
        ensures
            r == short_side(*self),
    {
        match self {
            ImageSize::A5 => Self::mm_to_px(148),
            ImageSize::A6 => Self::mm_to_px(105),
            ImageSize::A7 => Self::mm_to_px(74),
            ImageSize::A8 => Self::mm_to_px(52),
            ImageSize::A9 => Self::mm_to_px(37),
            ImageSize::A10 => Self::mm_to_px(26),
            ImageSize::Custom(x, y) => if *x <= *y {
                *x
            } else {
                *y
            },
        }
    }

    /// The longer dimension, in pixels.
    pub fn long_dimension(&self) -> (r: usize)
        ensures
            r == long_side(*self),
    {
        match self {
            ImageSize::A5 => Self::mm_to_px(210),
            ImageSize::A6 => Self::mm_to_px(148),
            ImageSize::A7 => Self::mm_to_px(105),
            ImageSize::A8 => Self::mm_to_px(74),
            ImageSize::A9 => Self::mm_to_px(52),
            ImageSize::A10 => Self::mm_to_px(37),
            ImageSize::Custom(x, y) => if *x >= *y {
                *x
            } else {
                *y
            },
        }
    }

    /// The width in `format`, in pixels: the long side for landscape, the
    /// short side for portrait.
    pub fn width(&self, format: &ImageFormat) -> (r: usize)
        ensures
            r == width_of(*self, *format),
    {
        match format {
            ImageFormat::Landscape => self.long_dimension(),
            ImageFormat::Portrait => self.short_dimension(),
        }
    }

    /// The height in `format`, in pixels: the short side for landscape, the
    /// long side for portrait.
    pub fn height(&self, format: &ImageFormat) -> (r: usize)
        ensures
            r == height_of(*self, *format),
    {
        match format {
            ImageFormat::Landscape => self.short_dimension(),
            ImageFormat::Portrait => self.long_dimension(),
        }
    }

    /// The size and format of a thumbnail of an image in `format`: A7 in
    /// landscape, or A6 in portrait.
    pub fn thumbnail_size(&self, format: &ImageFormat) -> (r: (ImageSize, ImageFormat))
        ensures
            r == thumbnail_of(*format),
    {
        match format {
            ImageFormat::Landscape => (ImageSize::A7, ImageFormat::Landscape),
            ImageFormat::Portrait => (ImageSize::A6, ImageFormat::Portrait),
        }
    }

    /// The name of the size: `A5` to `A10`, or `<x>px×<y>px`.
    pub fn to_string(&self) -> (r: String)
        ensures
            r@ == size_name(*self),
    {
        match self {
            ImageSize::A5 => owned("A5"),
            ImageSize::A6 => owned("A6"),
            ImageSize::A7 => owned("A7"),
            ImageSize::A8 => owned("A8"),
            ImageSize::A9 => owned("A9"),
            ImageSize::A10 => owned("A10"),
            ImageSize::Custom(x, y) => {
                let mut out = usize_to_chars(*x);
                push_str(&mut out, "px×");
                let yd = usize_to_chars(*y);
                push_chars(&mut out, &yd);
                push_str(&mut out, "px");
                string_of(&out)
            },
        }
    }
}

// ---------------------------------------------------------------------------
// Reading a size
// ---------------------------------------------------------------------------

/// The unit of a measured dimension.
#[derive(Clone, Copy, PartialEq, Eq, Structural, Debug)]
pub enum Unit {
    Millimetre,
    Centimetre,
    Inch,
    Pixel,
}

/// A dimension as it is written: its whole digits, the digits after a decimal
/// point if there is one, and its unit. Converting it to pixels is left to the
/// caller.
#[derive(Debug)]
pub struct Measure {
    pub whole: String,
    pub fraction: Option<String>,
    pub unit: Unit,
}

/// What a measure holds.
pub struct MeasureView {
    pub whole: Seq<char>,
    pub fraction: Option<Seq<char>>,
    pub unit: Unit,
}

impl View for Measure {
    type V = MeasureView;

    open spec fn view(&self) -> MeasureView {
        MeasureView {
            whole: self.whole@,
            fraction: match self.fraction {
                Some(f) => Some(f@),
                None => None,
            },
            unit: self.unit,
        }
    }
}

/// A size as it is written: a paper size, or two measured dimensions.
#[derive(Debug)]
pub enum SizeSpec {
    Paper(ImageSize),
    Measured(Measure, Measure),
}

/// What a written size holds.
pub enum SizeSpecView {
    Paper(ImageSize),
    Measured(MeasureView, MeasureView),
}

impl View for SizeSpec {
    type V = SizeSpecView;

    open spec fn view(&self) -> SizeSpecView {
        match self {
            SizeSpec::Paper(p) => SizeSpecView::Paper(*p),
            SizeSpec::Measured(a, b) => SizeSpecView::Measured(a@, b@),
        }
    }
}

/// The error of reading a size.
#[derive(Debug)]
pub enum ImageSizeParseError {
    InvalidImageSize(String),
}

impl ImageSizeParseError {
    /// The message of the error: `Invalid value for image size '<value>'`.
    pub fn to_string(&self) -> (r: String)
        ensures
            match self {
                ImageSizeParseError::InvalidImageSize(v) => r@ == "Invalid value for image size '"@
                    + v@ + "'"@,
            },
    {
        match self {
            ImageSizeParseError::InvalidImageSize(v) => {
                let mut out: Vec<char> = Vec::new();
                push_str(&mut out, "Invalid value for image size '");
                push_str(&mut out, v.as_str());
                push_str(&mut out, "'");
                string_of(&out)
            },
        }
    }
}

/// The index of the first character of `s` at or after `i` that is not an
/// ASCII digit (or the length of `s`).
pub open spec fn digit_run(s: Seq<char>, i: int) -> int
    decreases s.len() - i,
{
    if i < 0 || i >= s.len() {
        if i < 0 { 0 } else { s.len() as int }
    } else if is_digit(s[i]) {
        digit_run(s, i + 1)
    } else {
        i
    }
}

/// The unit that `u` names, whatever the case of its letters: `mm`, `cm`,
/// `in` or `"`, and `px` or nothing for pixels.
pub open spec fn unit_named(u: Seq<char>) -> Option<Unit> {
    if lower_eq(u, "mm"@) {
        Some(Unit::Millimetre)
    } else if lower_eq(u, "cm"@) {
        Some(Unit::Centimetre)
    } else if lower_eq(u, "in"@) || lower_eq(u, "\""@) {
        Some(Unit::Inch)
    } else if lower_eq(u, "px"@) || u.len() == 0 {
        Some(Unit::Pixel)
    } else {
        None
    }
}

/// The measure that the term `t` writes: digits, optionally a point and more
/// digits, then a unit.
pub open spec fn measure_of(t: Seq<char>) -> Option<MeasureView> {
    if t.len() == 0 || !is_digit(t[0]) {
        None
    } else {
        let w = digit_run(t, 0);
        let (fraction, rest) = if w < t.len() && t[w] == '.' {
            let f = digit_run(t, w + 1);
            (Some(t.subrange(w + 1, f)), t.subrange(f, t.len() as int))
        } else {
            (None, t.subrange(w, t.len() as int))
        };
        match unit_named(rest) {
            Some(u) => Some(MeasureView { whole: t.subrange(0, w), fraction, unit: u }),
            None => None,
        }
    }
}

/// Whether `c` separates the two dimensions of a size: `x`, `X` or `×`.
pub open spec fn is_size_separator(c: char) -> bool {
    c == 'x' || c == 'X' || c == '×'
}

/// The index of the first size separator in `s` at or after `i`, if any.
pub open spec fn separator_at_or_after(s: Seq<char>, i: int) -> Option<int>
    decreases s.len() - i,
{
    if i < 0 || i >= s.len() {
        None
    } else if is_size_separator(s[i]) {
        Some(i)
    } else {
        separator_at_or_after(s, i + 1)
    }
}

/// The paper size that `input` names exactly: `A5` to `A10`.
pub open spec fn paper_named(input: Seq<char>) -> Option<ImageSize> {
    if input == "A5"@ {
        Some(ImageSize::A5)
    } else if input == "A6"@ {
        Some(ImageSize::A6)
    } else if input == "A7"@ {
        Some(ImageSize::A7)
    } else if input == "A8"@ {
        Some(ImageSize::A8)
    } else if input == "A9"@ {
        Some(ImageSize::A9)
    } else if input == "A10"@ {
        Some(ImageSize::A10)
    } else {
        None
    }
}

/// The size that `input` writes: a paper size by its name, or two measures
/// separated by `x`, `X` or `×`, each with white space around it allowed.
pub open spec fn size_written(input: Seq<char>) -> Option<SizeSpecView> {
    match paper_named(input) {
        Some(p) => Some(SizeSpecView::Paper(p)),
        None => match separator_at_or_after(input, 0) {
            None => None,
            Some(k) => match (
                measure_of(trim(input.subrange(0, k))),
                measure_of(trim(input.subrange(k + 1, input.len() as int))),
            ) {
                (Some(a), Some(b)) => Some(SizeSpecView::Measured(a, b)),
                _ => None,
            },
        },
    }
}

fn skip_digits(s: &Vec<char>, i: usize) -> (r: usize)
    requires
        i <= s@.len(),
    ensures
        r as int == digit_run(s@, i as int),
        i <= r <= s@.len(),
        all_digits(s@.subrange(i as int, r as int)),
{
    let mut k = i;
    while k < s.len() && '0' <= s[k] && s[k] <= '9'
        invariant
            i <= k <= s@.len(),
            digit_run(s@, i as int) == digit_run(s@, k as int),
            forall|j: int| i <= j < k ==> is_digit(#[trigger] s@[j]),
        decreases s@.len() - k,
    {
        k = k + 1;
    }
    assert forall|j: int| 0 <= j < k - i implies is_digit(#[trigger] s@.subrange(i as int, k as int)[j]) by {
        assert(s@.subrange(i as int, k as int)[j] == s@[i + j]);
    }
    k
}

fn unit_of(u: &Vec<char>) -> (r: Option<Unit>)
    ensures
        r == unit_named(u@),
{
    if chars_lower_eq(u, "mm") {
        Some(Unit::Millimetre)
    } else if chars_lower_eq(u, "cm") {
        Some(Unit::Centimetre)
    } else if chars_lower_eq(u, "in") || chars_lower_eq(u, "\"") {
        Some(Unit::Inch)
    } else if chars_lower_eq(u, "px") || u.len() == 0 {
        Some(Unit::Pixel)
    } else {
        None
    }
}

/// Reads one measured dimension from the term `t`.
pub fn parse_measure(t: &Vec<char>) -> (r: Option<Measure>)
    ensures
        match measure_of(t@) {
            Some(m) => r matches Some(x) && x@ == m,
            None => r is None,
        },
{
    if t.len() == 0 || !('0' <= t[0] && t[0] <= '9') {
        return None;
    }
    let w = skip_digits(t, 0);
    let whole = sub_chars(t, 0, w);
    let (fraction, rest) = if w < t.len() && t[w] == '.' {
        let f = skip_digits(t, w + 1);
        (Some(sub_chars(t, w + 1, f)), sub_chars(t, f, t.len()))
    } else {
        (None, sub_chars(t, w, t.len()))
    };
    match unit_of(&rest) {
        Some(u) => {
            let fraction = match fraction {
                Some(f) => Some(string_of(&f)),
                None => None,
            };
            Some(Measure { whole: string_of(&whole), fraction, unit: u })
        },
        None => None,
    }
}

fn find_separator(s: &Vec<char>) -> (r: Option<usize>)
    ensures
        match r {
            Some(k) => separator_at_or_after(s@, 0) == Some(k as int),
            None => separator_at_or_after(s@, 0) is None,
        },
        r matches Some(k) ==> k < s@.len(),
{
    let mut i: usize = 0;
    while i < s.len()
        invariant
            i <= s@.len(),
            separator_at_or_after(s@, 0) == separator_at_or_after(s@, i as int),
        decreases s@.len() - i,
    {
        if s[i] == 'x' || s[i] == 'X' || s[i] == '×' {
            return Some(i);
        }
        i = i + 1;
    }
    None
}

fn paper_of(input: &Vec<char>) -> (r: Option<ImageSize>)
    ensures
        r == paper_named(input@),
{
    let a5 = chars_of("A5");
    let a6 = chars_of("A6");
    let a7 = chars_of("A7");
    let a8 = chars_of("A8");
    let a9 = chars_of("A9");
    let a10 = chars_of("A10");
    if crate::text::chars_eq(input, &a5) {
        Some(ImageSize::A5)
    } else if crate::text::chars_eq(input, &a6) {
        Some(ImageSize::A6)
    } else if crate::text::chars_eq(input, &a7) {
        Some(ImageSize::A7)
    } else if crate::text::chars_eq(input, &a8) {
        Some(ImageSize::A8)
    } else if crate::text::chars_eq(input, &a9) {
        Some(ImageSize::A9)
    } else if crate::text::chars_eq(input, &a10) {
        Some(ImageSize::A10)
    } else {
        None
    }
}

impl ImageSize {
    /// Reads a size: `A5` to `A10`, or two measures (digits, an optional
    /// fraction, and a unit among `mm`, `cm`, `in`, `"`, `px` or none)
    /// separated by `x`, `X` or `×`.
    pub fn from_str(input: &str) -> (r: Result<SizeSpec, ImageSizeParseError>)
        ensures
            match size_written(input@) {
                Some(v) => r matches Ok(s) && s@ == v,
                None => r matches Err(ImageSizeParseError::InvalidImageSize(e)) && e@ == input@,
            },
    {
        let s = chars_of(input);
        match paper_of(&s) {
            Some(p) => {
                return Ok(SizeSpec::Paper(p));
            },
            None => {},
        }
        match find_separator(&s) {
            None => Err(ImageSizeParseError::InvalidImageSize(owned(input))),
            Some(k) => {
                let n = s.len();
                assert(k < n);
                let first = sub_chars(&s, 0, k);
                let second = sub_chars(&s, k + 1, n);
                let ta = trim_chars(&first);
                let tb = trim_chars(&second);
                assert(ta@ == trim(input@.subrange(0, k as int)));
                assert(tb@ == trim(input@.subrange(k + 1, input@.len() as int)));
                let a = parse_measure(&ta);
                let b = parse_measure(&tb);
                match a {
                    Some(a) => match b {
                        Some(b) => {
                            let r = SizeSpec::Measured(a, b);
                            assert(r@ == SizeSpecView::Measured(a@, b@));
                            assert(paper_named(input@) is None);
                            assert(separator_at_or_after(input@, 0) == Some(k as int));
                            assert(size_written(input@) == Some(SizeSpecView::Measured(a@, b@)));
                            Ok(r)
                        },
                        None => Err(ImageSizeParseError::InvalidImageSize(owned(input))),
                    },
                    None => Err(ImageSizeParseError::InvalidImageSize(owned(input))),
                }
            },
        }
    }
}

// ---------------------------------------------------------------------------
// The attributes of an image directive
// ---------------------------------------------------------------------------

/// The attributes of an image directive, once read.
#[derive(Debug)]
pub struct ImageArguments {
    /// The image file, relative to the drafts folder.
    pub filename: String,
    /// The alternative text of the image.
    pub alt: String,
    /// The size to reduce the image to, and its format, if any.
    pub size_format: Option<(SizeSpec, ImageFormat)>,
    /// Whether to watermark the image.
    pub watermark: bool,
    /// Whether to show a thumbnail linking to the full image.
    pub full_link: bool,
}

/// What the attributes of an image directive hold.
pub struct ImageArgumentsView {
    pub filename: Seq<char>,
    pub alt: Seq<char>,
    pub size_format: Option<(SizeSpecView, ImageFormat)>,
    pub watermark: bool,
    pub full_link: bool,
}

impl View for ImageArguments {
    type V = ImageArgumentsView;

    open spec fn view(&self) -> ImageArgumentsView {
        ImageArgumentsView {
            filename: self.filename@,
            alt: self.alt@,
            size_format: match self.size_format {
                Some((s, f)) => Some((s@, f)),
                None => None,
            },
            watermark: self.watermark,
            full_link: self.full_link,
        }
    }
}

/// The attributes read so far.
pub struct ArgumentsRead {
    pub filename: Option<Seq<char>>,
    pub size: Option<SizeSpecView>,
    pub format: Option<ImageFormat>,
    pub watermark: bool,
    pub full_link: bool,
}

/// Before any attribute: no file, no size, no format, a watermark and no link.
pub open spec fn no_arguments_read() -> ArgumentsRead {
    ArgumentsRead { filename: None, size: None, format: None, watermark: true, full_link: false }
}

/// How the image is named in error messages: its file if already read.
pub open spec fn image_label(st: ArgumentsRead) -> Seq<char> {
    match st.filename {
        Some(f) => f,
        None => "an image"@,
    }
}

/// The value that `bool::from_str` reads: exactly `true` or `false`.
pub open spec fn bool_named(v: Seq<char>) -> Option<bool> {
    if v == "true"@ {
        Some(true)
    } else if v == "false"@ {
        Some(false)
    } else {
        None
    }
}

/// The message of the error of `bool::from_str`.
pub open spec fn bool_error() -> Seq<char> {
    "provided string was not `true` or `false`"@
}

/// The message for an attribute whose value cannot be read.
pub open spec fn attribute_error(attr: Seq<char>, st: ArgumentsRead, reason: Seq<char>) -> Seq<
    char,
> {
    "error parsing "@ + attr + " attribute for "@ + image_label(st) + ": "@ + reason
}

/// The message for an attribute that is not known.
pub open spec fn unknown_attribute(text: Seq<char>) -> Seq<char> {
    "Found unknown attribute in a draft.image tag: "@ + text
}

/// Reads one attribute, `name=value` with white space around it allowed; an
/// empty one is ignored.
pub open spec fn read_attribute(st: ArgumentsRead, piece: Seq<char>) -> Result<
    ArgumentsRead,
    Seq<char>,
> {
    let a = trim(piece);
    let k = char_index(a, '=', 0);
    if k >= a.len() {
        if a.len() == 0 {
            Ok(st)
        } else {
            Err(unknown_attribute(a))
        }
    } else {
        let name = a.subrange(0, k);
        let value = a.subrange(k + 1, a.len() as int);
        if name == "source"@ {
            Ok(ArgumentsRead { filename: Some(value), ..st })
        } else if name == "size"@ {
            match size_written(value) {
                Some(sz) => Ok(ArgumentsRead { size: Some(sz), ..st }),
                None => Err(
                    attribute_error(
                        "size"@,
                        st,
                        "Invalid value for image size '"@ + value + "'"@,
                    ),
                ),
            }
        } else if name == "format"@ {
            match format_named(value) {
                Some(f) => Ok(ArgumentsRead { format: Some(f), ..st }),
                None => Err(
                    attribute_error("format"@, st, "Unknown image format '"@ + value + "'"@),
                ),
            }
        } else if name == "watermark"@ {
            match bool_named(value) {
                Some(b) => Ok(ArgumentsRead { watermark: b, ..st }),
                None => Err(attribute_error("watermark"@, st, bool_error())),
            }
        } else if name == "full-link"@ {
            match bool_named(value) {
                Some(b) => Ok(ArgumentsRead { full_link: b, ..st }),
                None => Err(attribute_error("full-link"@, st, bool_error())),
            }
        } else {
            Err(unknown_attribute(name + "="@ + value))
        }
    }
}

/// Reads the comma-separated attributes of `s` from index `i`, in order,
/// stopping at the first that cannot be read.
pub open spec fn read_attributes(st: ArgumentsRead, s: Seq<char>, i: int) -> Result<
    ArgumentsRead,
    Seq<char>,
>
    decreases s.len() - i,
{
    if i < 0 || i > s.len() {
        Ok(st)
    } else {
        let j = char_index(s, ',', i);
        proof {
            lemma_char_index(s, ',', i);
        }
        match read_attribute(st, s.subrange(i, j)) {
            Err(e) => Err(e),
            Ok(next) => if j >= s.len() {
                Ok(next)
            } else {
                read_attributes(next, s, j + 1)
            },
        }
    }
}

/// The arguments of an image directive with the attributes `attributes` and
/// the alternative text `alt`: the file is required, and a size and a format
/// are given together or not at all.
pub open spec fn image_arguments(attributes: Seq<char>, alt: Seq<char>) -> Result<
    ImageArgumentsView,
    Seq<char>,
> {
    match read_attributes(no_arguments_read(), attributes, 0) {
        Err(e) => Err(e),
        Ok(st) => match st.filename {
            None => Err("A draft.image tag was found without an image name."@),
            Some(f) => match (st.size, st.format) {
                (Some(_), None) => Err(
                    "A draft image specified a size attribute without a format."@,
                ),
                (None, Some(_)) => Err(
                    "A draft image specified a format attribute without a size."@,
                ),
                (Some(sz), Some(fm)) => Ok(
                    ImageArgumentsView {
                        filename: f,
                        alt,
                        size_format: Some((sz, fm)),
                        watermark: st.watermark,
                        full_link: st.full_link,
                    },
                ),
                (None, None) => Ok(
                    ImageArgumentsView {
                        filename: f,
                        alt,
                        size_format: None,
                        watermark: st.watermark,
                        full_link: st.full_link,
                    },
                ),
            },
        },
    }
}

/// The attributes read so far, as the reader holds them.
struct ArgumentsState {
    filename: Option<String>,
    size: Option<SizeSpec>,
    format: Option<ImageFormat>,
    watermark: bool,
    full_link: bool,
}

impl View for ArgumentsState {
    type V = ArgumentsRead;

    closed spec fn view(&self) -> ArgumentsRead {
        ArgumentsRead {
            filename: match self.filename {
                Some(f) => Some(f@),
                None => None,
            },
            size: match self.size {
                Some(s) => Some(s@),
                None => None,
            },
            format: self.format,
            watermark: self.watermark,
            full_link: self.full_link,
        }
    }
}

fn read_bool(v: &Vec<char>) -> (r: Option<bool>)
    ensures
        r == bool_named(v@),
{
    if chars_eq_str(v, "true") {
        Some(true)
    } else if chars_eq_str(v, "false") {
        Some(false)
    } else {
        None
    }
}

fn attribute_message(attr: &str, st: &ArgumentsState, reason: &Vec<char>) -> (r: String)
    ensures
        r@ == attribute_error(attr@, st@, reason@),
{
    let mut out: Vec<char> = Vec::new();
    push_str(&mut out, "error parsing ");
    push_str(&mut out, attr);
    push_str(&mut out, " attribute for ");
    match &st.filename {
        Some(f) => push_str(&mut out, f.as_str()),
        None => push_str(&mut out, "an image"),
    }
    push_str(&mut out, ": ");
    push_chars(&mut out, reason);
    string_of(&out)
}

fn unknown_message(text: &Vec<char>) -> (r: String)
    ensures
        r@ == unknown_attribute(text@),
{
    let mut out: Vec<char> = Vec::new();
    push_str(&mut out, "Found unknown attribute in a draft.image tag: ");
    push_chars(&mut out, text);
    string_of(&out)
}

fn apply_attribute(st: &mut ArgumentsState, piece: &Vec<char>) -> (r: Result<(), String>)
    ensures
        match read_attribute(old(st)@, piece@) {
            Ok(next) => r is Ok && final(st)@ == next,
            Err(e) => r matches Err(m) && m@ == e,
        },
{
    let a = trim_chars(piece);
    let k = find_char(&a, '=', 0);
    if k >= a.len() {
        if a.len() == 0 {
            return Ok(());
        } else {
            return Err(unknown_message(&a));
        }
    }
    let name = sub_chars(&a, 0, k);
    let value_chars = sub_chars(&a, k + 1, a.len());
    let value = string_of(&value_chars);
    if chars_eq_str(&name, "source") {
        st.filename = Some(value);
        Ok(())
    } else if chars_eq_str(&name, "size") {
        match ImageSize::from_str(value.as_str()) {
            Ok(sz) => {
                st.size = Some(sz);
                Ok(())
            },
            Err(e) => {
                let reason = chars_of(e.to_string().as_str());
                Err(attribute_message("size", st, &reason))
            },
        }
    } else if chars_eq_str(&name, "format") {
        match ImageFormat::from_str(value.as_str()) {
            Ok(f) => {
                st.format = Some(f);
                Ok(())
            },
            Err(e) => {
                let reason = chars_of(e.to_string().as_str());
                Err(attribute_message("format", st, &reason))
            },
        }
    } else if chars_eq_str(&name, "watermark") {
        match read_bool(&value_chars) {
            Some(b) => {
                st.watermark = b;
                Ok(())
            },
            None => {
                let reason = chars_of("provided string was not `true` or `false`");
                Err(attribute_message("watermark", st, &reason))
            },
        }
    } else if chars_eq_str(&name, "full-link") {
        match read_bool(&value_chars) {
            Some(b) => {
                st.full_link = b;
                Ok(())
            },
            None => {
                let reason = chars_of("provided string was not `true` or `false`");
                Err(attribute_message("full-link", st, &reason))
            },
        }
    } else {
        let mut text = name;
        push_str(&mut text, "=");
        push_chars(&mut text, &value_chars);
        Err(unknown_message(&text))
    }
}

impl ImageArguments {
    /// Reads the comma-separated attributes of an image directive (`source`,
    /// `size`, `format`, `watermark` and `full-link`, each as `name=value`)
    /// and keeps `alt` as the alternative text.
    pub fn parse(attributes: &str, alt: &str) -> (r: Result<ImageArguments, String>)
        ensures
            match image_arguments(attributes@, alt@) {
                Ok(v) => r matches Ok(a) && a@ == v,
                Err(e) => r matches Err(m) && m@ == e,
            },
    {
        let s = chars_of(attributes);
        let mut st = ArgumentsState {
            filename: None,
            size: None,
            format: None,
            watermark: true,
            full_link: false,
        };
        let mut i: usize = 0;
        loop
            invariant
                i <= s@.len(),
                s@ == attributes@,
                read_attributes(no_arguments_read(), s@, 0) == read_attributes(st@, s@, i as int),
            ensures
                read_attributes(no_arguments_read(), s@, 0) == Ok::<ArgumentsRead, Seq<char>>(st@),
            decreases s@.len() - i,
        {
            let j = find_char(&s, ',', i);
            let piece = sub_chars(&s, i, j);
            let ghost before = st@;
            match apply_attribute(&mut st, &piece) {
                Err(e) => {
                    return Err(e);
                },
                Ok(()) => {},
            }
            if j >= s.len() {
                break;
            }
            i = j + 1;
        }
        let filename = match st.filename {
            Some(f) => f,
            None => {
                return Err(owned("A draft.image tag was found without an image name."));
            },
        };
        let size_format = match (st.size, st.format) {
            (Some(_), None) => {
                return Err(owned("A draft image specified a size attribute without a format."));
            },
            (None, Some(_)) => {
                return Err(owned("A draft image specified a format attribute without a size."));
            },
            (Some(sz), Some(fm)) => Some((sz, fm)),
            (None, None) => None,
        };
        Ok(
            ImageArguments {
                filename,
                alt: owned(alt),
                size_format,
                watermark: st.watermark,
                full_link: st.full_link,
            },
        )
    }
}

/// The pixel counts of the paper sizes: A5 is 873 by 1239, A6 620 by 873, A7
/// 437 by 620, A8 307 by 437, A9 218 by 307 and A10 153 by 218.
pub proof fn lemma_paper_pixels()
    ensures
        short_side(ImageSize::A5) == 873 && long_side(ImageSize::A5) == 1239,
        short_side(ImageSize::A6) == 620 && long_side(ImageSize::A6) == 873,
        short_side(ImageSize::A7) == 437 && long_side(ImageSize::A7) == 620,
        short_side(ImageSize::A8) == 307 && long_side(ImageSize::A8) == 437,
        short_side(ImageSize::A9) == 218 && long_side(ImageSize::A9) == 307,
        short_side(ImageSize::A10) == 153 && long_side(ImageSize::A10) == 218,
{
}

/// Of every size, the short side is at most the long side, the width and
/// height in a format are the two sides, and a landscape image is at least as
/// wide as it is high while a portrait one is at least as high as it is wide.
pub proof fn lemma_orientation(size: ImageSize, format: ImageFormat)
    ensures
        short_side(size) <= long_side(size),
        format == ImageFormat::Landscape ==> width_of(size, format) >= height_of(size, format),
        format == ImageFormat::Portrait ==> height_of(size, format) >= width_of(size, format),
        width_of(size, format) + height_of(size, format) == short_side(size) + long_side(size),
{
    lemma_paper_pixels();
}

/// Each paper size's long side is the next larger size's short side: A6 is
/// half of A5, and so on down to A10.
pub proof fn lemma_paper_halving()
    ensures
        long_side(ImageSize::A6) == short_side(ImageSize::A5),
        long_side(ImageSize::A7) == short_side(ImageSize::A6),
        long_side(ImageSize::A8) == short_side(ImageSize::A7),
        long_side(ImageSize::A9) == short_side(ImageSize::A8),
        long_side(ImageSize::A10) == short_side(ImageSize::A9),
{
}

/// A thumbnail keeps the format of its image and always fits in the content
/// column.
pub proof fn lemma_thumbnail_fits(format: ImageFormat)
    ensures
        thumbnail_of(format).1 == format,
        width_of(thumbnail_of(format).0, thumbnail_of(format).1) <= CONTENT_WIDTH,
{
    lemma_paper_pixels();
}

/// Reading the written name of a format gives the format back.
pub proof fn lemma_format_name_round_trip(f: ImageFormat)
    ensures
        format_named(format_name(f)) == Some(f),
{
    reveal_strlit("Landscape");
    reveal_strlit("landscape");
    reveal_strlit("l");
    reveal_strlit("Portrait");
    reveal_strlit("portrait");
    reveal_strlit("p");
    match f {
        ImageFormat::Landscape => {
            assert(lower_eq("Landscape"@, "landscape"@));
        },
        ImageFormat::Portrait => {
            assert(!lower_eq("Portrait"@, "l"@));
            assert(!lower_eq("Portrait"@, "landscape"@));
            assert(lower_eq("Portrait"@, "portrait"@));
        },
    }
}

proof fn lemma_digit_run_to_end(s: Seq<char>, i: int)
    requires
        0 <= i <= s.len(),
        all_digits(s),
    ensures
        digit_run(s, i) == s.len(),
    decreases s.len() - i,
{
    if i < s.len() {
        lemma_digit_run_to_end(s, i + 1);
    }
}

proof fn lemma_separator_after_digits(s: Seq<char>, i: int, k: int)
    requires
        0 <= i <= k < s.len(),
        is_size_separator(s[k]),
        forall|j: int| i <= j < k ==> is_digit(#[trigger] s[j]),
    ensures
        separator_at_or_after(s, i) == Some(k),
    decreases k - i,
{
    if i < k {
        lemma_separator_after_digits(s, i + 1, k);
    }
}

/// A measure written as digits alone is that many pixels.
proof fn lemma_pixel_measure(a: Seq<char>)
    requires
        a.len() > 0,
        all_digits(a),
    ensures
        trim(a) == a,
        measure_of(a) == Some(MeasureView { whole: a, fraction: None, unit: Unit::Pixel }),
{
    lemma_trim_unchanged(a);
    lemma_digit_run_to_end(a, 0);
    assert(a.subrange(0, a.len() as int) =~= a);
    let rest = a.subrange(a.len() as int, a.len() as int);
    assert(rest.len() == 0);
    reveal_strlit("mm");
    reveal_strlit("cm");
    reveal_strlit("in");
    reveal_strlit("\"");
    reveal_strlit("px");
    assert(!lower_eq(rest, "mm"@));
    assert(!lower_eq(rest, "cm"@));
    assert(!lower_eq(rest, "in"@));
    assert(!lower_eq(rest, "\""@));
    assert(!lower_eq(rest, "px"@));
}

/// A size written as `<integer>x<integer>` is read as those two dimensions in
/// pixels.
pub proof fn lemma_pixel_size_written(a: Seq<char>, b: Seq<char>)
    requires
        a.len() > 0,
        all_digits(a),
        b.len() > 0,
        all_digits(b),
    ensures
        size_written(a + seq!['x'] + b) == Some(
            SizeSpecView::Measured(
                MeasureView { whole: a, fraction: None, unit: Unit::Pixel },
                MeasureView { whole: b, fraction: None, unit: Unit::Pixel },
            ),
        ),
{
    let s = a + seq!['x'] + b;
    reveal_strlit("A5");
    reveal_strlit("A6");
    reveal_strlit("A7");
    reveal_strlit("A8");
    reveal_strlit("A9");
    reveal_strlit("A10");
    assert(s[0] == a[0]);
    assert(is_digit(a[0]));
    assert(s != "A5"@ && s != "A6"@ && s != "A7"@ && s != "A8"@ && s != "A9"@ && s != "A10"@) by {
        assert("A5"@[0] == 'A');
        assert("A6"@[0] == 'A');
        assert("A7"@[0] == 'A');
        assert("A8"@[0] == 'A');
        assert("A9"@[0] == 'A');
        assert("A10"@[0] == 'A');
    }
    assert(paper_named(s) is None);
    assert forall|j: int| 0 <= j < a.len() implies is_digit(#[trigger] s[j]) by {
        assert(s[j] == a[j]);
    }
    assert(s[a.len() as int] == 'x');
    lemma_separator_after_digits(s, 0, a.len() as int);
    assert(s.subrange(0, a.len() as int) =~= a);
    assert(s.subrange(a.len() as int + 1, s.len() as int) =~= b);
    lemma_pixel_measure(a);
    lemma_pixel_measure(b);
}

} // verus!
