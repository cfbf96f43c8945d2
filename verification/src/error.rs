//! Errors: the categories every part of the toolkit reports in, and why
//! rendering or encoding a canvas can fail.

use vstd::prelude::*;

verus! {

/// An error of the toolkit, by category, with what went wrong.
#[derive(Debug)]
pub enum AsahiError {
    /// An invalid configuration.
    Config(String),
    /// A failure of the network.
    Network(String),
    /// A failure inside a background worker.
    Worker(String),
    /// A value that could not be parsed or converted.
    Parse(String),
    /// A failure of the database.
    Database(String),
    /// An error from outside that fits no other category.
    External(String),
    /// An error of unknown kind.
    Unknown,
}

/// What functions of the toolkit hand back.
pub type AsahiResult<T> = Result<T, AsahiError>;

/// What the message of an error begins with.
pub open spec fn category_prefix(error: AsahiError) -> Seq<char> {
    match error {
        AsahiError::Config(_) => "(Asahi) Configuration error: "@,
        AsahiError::Network(_) => "(Asahi) Network error: "@,
        AsahiError::Worker(_) => "(Asahi) Worker error: "@,
        AsahiError::Parse(_) => "(Asahi) Parsing error: "@,
        AsahiError::Database(_) => "(Asahi) Database error: "@,
        AsahiError::External(_) => "(Asahi) External error: "@,
        AsahiError::Unknown => "(Asahi) Unknown error"@,
    }
}

/// What went wrong, as the error holds it; nothing for an unknown error.
pub open spec fn error_detail(error: AsahiError) -> Seq<char> {
    match error {
        AsahiError::Config(detail) => detail@,
        AsahiError::Network(detail) => detail@,
        AsahiError::Worker(detail) => detail@,
        AsahiError::Parse(detail) => detail@,
        AsahiError::Database(detail) => detail@,
        AsahiError::External(detail) => detail@,
        AsahiError::Unknown => Seq::empty(),
    }
}

impl AsahiError {
    /// The message of the error: its category, then what went wrong.
    pub fn message(&self) -> (text: String)
        ensures
            text@ == category_prefix(*self) + error_detail(*self),
    {
        let (prefix, detail): (&str, &str) = match self {
            AsahiError::Config(d) => ("(Asahi) Configuration error: ", d.as_str()),
            AsahiError::Network(d) => ("(Asahi) Network error: ", d.as_str()),
            AsahiError::Worker(d) => ("(Asahi) Worker error: ", d.as_str()),
            AsahiError::Parse(d) => ("(Asahi) Parsing error: ", d.as_str()),
            AsahiError::Database(d) => ("(Asahi) Database error: ", d.as_str()),
            AsahiError::External(d) => ("(Asahi) External error: ", d.as_str()),
            AsahiError::Unknown => ("(Asahi) Unknown error", ""),
        };
        let mut text = String::from_str(prefix);
        text.append(detail);
        proof {
            if *self is Unknown {
                reveal_strlit("");
                assert(text@ =~= category_prefix(*self) + error_detail(*self));
            }
        }
        text
    }
}

/// What a background task reports when a round of its work fails: the
/// name of the task in brackets, then the message of the failure.
pub open spec fn worker_detail(task: Seq<char>, cause: AsahiError) -> Seq<char> {
    "["@ + task + "] "@ + category_prefix(cause) + error_detail(cause)
}

/// The error of a background task whose work failed.
pub fn worker_error(task: &str, cause: &AsahiError) -> (error: AsahiError)
    ensures
        error matches AsahiError::Worker(detail) && detail@ == worker_detail(task@, *cause),
{
    let mut detail = String::from_str("[");
    detail.append(task);
    detail.append("] ");
    detail.append(cause.message().as_str());
    proof {
        assert(detail@ =~= worker_detail(task@, *cause));
    }
    AsahiError::Worker(detail)
}

/// A failure of rendering or encoding.
#[derive(Debug)]
pub enum CanvasError {
    /// The canvas, or an image after resizing, needs more bytes than a
    /// buffer can have.
    TooLarge,
    /// A layer lies beyond what the rasterisers can address, a line is to
    /// be drawn on a buffer with a side beyond what its rasteriser takes,
    /// or a scale has no denominator.
    OutOfRange,
    /// A text layer names a font for which no data was registered.
    FontMissing,
    /// The data registered for a font is not a font file.
    FontInvalid,
    /// The codec refused the image.
    Encoding(image::ImageError),
}

/// `<image::ImageError as Display>::fmt`, through `to_string`: the codec's
/// own description of its error.
#[verifier::external_body]
fn codec_message(error: &image::ImageError) -> (text: String) {
    error.to_string()
}

/// What a canvas error says, for those that are not the codec's.
pub open spec fn canvas_error_text(error: CanvasError) -> Seq<char> {
    match error {
        CanvasError::TooLarge => "canvas: the image is too large for a buffer"@,
        CanvasError::OutOfRange => "canvas: a layer is out of the renderer's range"@,
        CanvasError::FontMissing => "canvas: no data for the font of a text layer"@,
        CanvasError::FontInvalid => "canvas: the data of a font is not a font file"@,
        CanvasError::Encoding(_) => Seq::empty(),
    }
}

impl CanvasError {
    /// The error in the categories of the toolkit: what the codec refused
    /// is an external error with the codec's message, everything else is
    /// an error of configuration.
    pub fn into_asahi(self) -> (error: AsahiError)
        ensures
            self is Encoding <==> error is External,
            !(self is Encoding) ==> error is Config && error_detail(error) == canvas_error_text(
                self,
            ),
    {
        match self {
            CanvasError::TooLarge => AsahiError::Config(
                String::from_str("canvas: the image is too large for a buffer"),
            ),
            CanvasError::OutOfRange => AsahiError::Config(
                String::from_str("canvas: a layer is out of the renderer's range"),
            ),
            CanvasError::FontMissing => AsahiError::Config(
                String::from_str("canvas: no data for the font of a text layer"),
            ),
            CanvasError::FontInvalid => AsahiError::Config(
                String::from_str("canvas: the data of a font is not a font file"),
            ),
            CanvasError::Encoding(e) => AsahiError::External(codec_message(&e)),
        }
    }
}

} // verus!
