//! The library's error data: a kind, carrying the collaborating
//! subsystem's own message as plain text, and a context message.

use vstd::prelude::*;

verus! {

/// A failure of the record format layer.
pub enum DicomError {
    /// Opening or parsing a record failed.
    Read(String),
    /// Serializing a record to disk failed.
    Write(String),
    /// Decoding pixel data failed.
    PixelData(String),
}

/// What went wrong, by collaborating subsystem.
pub enum PulseErrorKind {
    IO(String),
    SystemTime(String),
    Dicom(DicomError),
    Threading(String),
    ThreadPoison(String),
    ImageError(String),
    CodecError(String),
    CSV(String),
    UnsupportedPixelData,
    UnsupportedComponent,
}

/// An error with its kind and a context message.
pub struct PulseError {
    pub kind: PulseErrorKind,
    pub message: String,
}

/// The rendered text of a record format failure.
pub open spec fn dicom_error_text(e: DicomError) -> Seq<char> {
    match e {
        DicomError::Read(s) => "Read: "@ + s@,
        DicomError::Write(s) => "Write: "@ + s@,
        DicomError::PixelData(s) => "Read: "@ + s@,
    }
}

/// The rendered text of an error kind.
pub open spec fn kind_text(k: PulseErrorKind) -> Seq<char> {
    match k {
        PulseErrorKind::IO(s) => "I/O Error: "@ + s@,
        PulseErrorKind::SystemTime(s) => "System Time error: "@ + s@,
        PulseErrorKind::Dicom(e) => "Dicom Error: "@ + dicom_error_text(e),
        PulseErrorKind::Threading(s) => "Threading Error: "@ + s@,
        PulseErrorKind::ThreadPoison(_) => "Thread Poisoned"@,
        PulseErrorKind::ImageError(s) => "Image Error: "@ + s@,
        PulseErrorKind::CodecError(s) => "Codec Error: "@ + s@,
        PulseErrorKind::CSV(s) => "CSV Error: "@ + s@,
        PulseErrorKind::UnsupportedPixelData => "Unsupported pixel data"@,
        PulseErrorKind::UnsupportedComponent => "Unsupported number of components"@,
    }
}

impl DicomError {
    /// Render the failure for display.
    pub fn describe(&self) -> (r: String)
        ensures
            r@ == dicom_error_text(*self),
    {
        let mut r = String::new();
        match self {
            DicomError::Read(s) => {
                r.append("Read: ");
                r.append(s.as_str());
            },
            DicomError::Write(s) => {
                r.append("Write: ");
                r.append(s.as_str());
            },
            DicomError::PixelData(s) => {
                r.append("Read: ");
                r.append(s.as_str());
            },
        }
        r
    }
}

impl PulseErrorKind {
    /// Render the kind for display.
    pub fn describe(&self) -> (r: String)
        ensures
            r@ == kind_text(*self),
    {
        let mut r = String::new();
        match self {
            PulseErrorKind::IO(s) => {
                r.append("I/O Error: ");
                r.append(s.as_str());
            },
            PulseErrorKind::SystemTime(s) => {
                r.append("System Time error: ");
                r.append(s.as_str());
            },
            PulseErrorKind::Dicom(e) => {
                r.append("Dicom Error: ");
                let inner = e.describe();
                r.append(inner.as_str());
            },
            PulseErrorKind::Threading(s) => {
                r.append("Threading Error: ");
                r.append(s.as_str());
            },
            PulseErrorKind::ThreadPoison(_) => {
                r.append("Thread Poisoned");
            },
            PulseErrorKind::ImageError(s) => {
                r.append("Image Error: ");
                r.append(s.as_str());
            },
            PulseErrorKind::CodecError(s) => {
                r.append("Codec Error: ");
                r.append(s.as_str());
            },
            PulseErrorKind::CSV(s) => {
                r.append("CSV Error: ");
                r.append(s.as_str());
            },
            PulseErrorKind::UnsupportedPixelData => {
                r.append("Unsupported pixel data");
            },
            PulseErrorKind::UnsupportedComponent => {
                r.append("Unsupported number of components");
            },
        }
        r
    }
}

impl PulseError {
    /// Build an error from its kind and a context message.
    pub fn new(kind: PulseErrorKind, message: String) -> (r: PulseError)
        ensures
            r.kind == kind,
            r.message == message,
    {
        PulseError { kind, message }
    }

    /// Render the error for display: the kind, then the context.
    pub fn describe(&self) -> (r: String)
        ensures
            r@ == kind_text(self.kind) + " : "@ + self.message@,
    {
        let mut r = self.kind.describe();
        r.append(" : ");
        r.append(self.message.as_str());
        r
    }
}

} // verus!
