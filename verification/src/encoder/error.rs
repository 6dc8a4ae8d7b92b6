//! Errors of the encoder.

use vstd::prelude::*;

use crate::capture::frame::PixelFormat;

verus! {

/// Errors that can occur during encoding.
#[derive(Debug, Clone, PartialEq, Eq)]
pub enum EncoderError {
    GstInit(String),
    PipelineCreation(String),
    ElementNotFound(String),
    StateChange,
    EncodingFailed(String),
    UnsupportedFormat(PixelFormat),
    Stopped,
}

/// The name of a pixel format.
pub open spec fn format_name(format: PixelFormat) -> Seq<char> {
    match format {
        PixelFormat::Bgra => "Bgra"@,
        PixelFormat::Rgba => "Rgba"@,
        PixelFormat::Bgrx => "Bgrx"@,
        PixelFormat::Rgbx => "Rgbx"@,
        PixelFormat::Unknown => "Unknown"@,
    }
}

impl EncoderError {
    /// What the error says.
    pub open spec fn text(&self) -> Seq<char> {
        match self {
            EncoderError::GstInit(cause) => "GStreamer initialization failed: "@ + cause@,
            EncoderError::PipelineCreation(cause) => "pipeline creation failed: "@ + cause@,
            EncoderError::ElementNotFound(cause) => "element not found: "@ + cause@,
            EncoderError::StateChange => "pipeline state change failed"@,
            EncoderError::EncodingFailed(cause) => "encoding failed: "@ + cause@,
            EncoderError::UnsupportedFormat(format) => "unsupported pixel format: "@
                + format_name(*format),
            EncoderError::Stopped => "encoder stopped"@,
        }
    }

    /// What the error says.
    pub fn message(&self) -> (text: String)
        ensures
            text@ == self.text(),
    {
        let mut text: String = String::new();
        match self {
            EncoderError::GstInit(cause) => {
                text.append("GStreamer initialization failed: ");
                text.append(cause);
            },
            EncoderError::PipelineCreation(cause) => {
                text.append("pipeline creation failed: ");
                text.append(cause);
            },
            EncoderError::ElementNotFound(cause) => {
                text.append("element not found: ");
                text.append(cause);
            },
            EncoderError::StateChange => text.append("pipeline state change failed"),
            EncoderError::EncodingFailed(cause) => {
                text.append("encoding failed: ");
                text.append(cause);
            },
            EncoderError::UnsupportedFormat(format) => {
                text.append("unsupported pixel format: ");
                text.append(
                    match format {
                        PixelFormat::Bgra => "Bgra",
                        PixelFormat::Rgba => "Rgba",
                        PixelFormat::Bgrx => "Bgrx",
                        PixelFormat::Rgbx => "Rgbx",
                        PixelFormat::Unknown => "Unknown",
                    },
                );
            },
            EncoderError::Stopped => text.append("encoder stopped"),
        }
        assert(text@ =~= self.text());
        text
    }
}

/// An error of the encoder says its cause.
pub proof fn encoder_errors_say_why(cause: String, format: PixelFormat)
    ensures
        EncoderError::GstInit(cause).text() == "GStreamer initialization failed: "@ + cause@,
        EncoderError::PipelineCreation(cause).text() == "pipeline creation failed: "@ + cause@,
        EncoderError::ElementNotFound(cause).text() == "element not found: "@ + cause@,
        EncoderError::EncodingFailed(cause).text() == "encoding failed: "@ + cause@,
        EncoderError::UnsupportedFormat(format).text() == "unsupported pixel format: "@
            + format_name(format),
{
}

} // verus!
