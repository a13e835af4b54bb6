//! Errors of the library.
use vstd::prelude::*;
use vstd::string::StringExecFns;

verus! {

/// Why a print could not be composed.
#[derive(Debug, PartialEq, Eq)]
pub enum Error {
    /// A character with no code in the printer's code page
    CP437Error(String),
    /// The image bytes could not be decoded or encoded
    ImageError(String),
    /// No bulk endpoint could be found
    NoBulkEndpoint,
    /// No replacement string for this key of a text
    NoReplacementFound(String),
    /// Print data must be supplied for this instruction
    NoPrintData,
    /// The font is not in the printer profile
    UnsupportedFont,
    /// At least one font must be in the profile
    NoFontFound,
    /// No image mode was configured
    NoImageModeFound,
    /// A builder method was called on the wrong kind of connection
    UnsupportedForPrinterConnection,
    PrinterError(String),
    WrongMarkdown,
    /// The print data holds no table of this kind
    NoTables,
    /// No table of this name
    NoTableFound(String),
    /// No column width for the font
    NoWidth,
    /// No QR payload of this name
    NoQrContent(String),
    /// The print data holds no QR payloads
    NoQrContents,
    /// A character that the code page cannot encode
    Encoding,
    /// The payload does not fit in a QR code
    QrCodeError,
    /// A persisted image is not valid base64
    InvalidBase64,
}

/// The human-readable description of an error.
pub open spec fn message_of(e: Error) -> Seq<char> {
    match e {
                Error::CP437Error(d) => "CP437 error: "@ + d@,
                Error::ImageError(d) => "Image error: "@ + d@,
                Error::NoBulkEndpoint => "No bulk endpoint could be found"@,
                Error::NoReplacementFound(d) => "Could not find replacement for tag {"@ + d@ + "}"@,
                Error::NoPrintData => "Print data must be supplied for this instruction"@,
                Error::UnsupportedFont => "The specified font does not seem to be supported by the printer profile"@,
                Error::NoFontFound => "No Font was found in the profile"@,
                Error::NoImageModeFound => "Image mode was not found in the profile"@,
                Error::UnsupportedForPrinterConnection => "The called method does not work with the current printer connection"@,
                Error::PrinterError(d) => "An error occured while printing, "@ + d@,
                Error::WrongMarkdown => "Incorrect markdown structure"@,
                Error::NoTables => "Not a single table was found in the PrintData structure"@,
                Error::NoTableFound(d) => "No table was found for id {"@ + d@ + "}"@,
                Error::NoWidth => "No width was found for the selected font"@,
                Error::NoQrContent(d) => "Could not find qr code content for \""@ + d@ + "\""@,
                Error::NoQrContents => "Could not find qr contents"@,
                Error::Encoding => "An unsupported utf-8 character was found when passing to cp437"@,
                Error::QrCodeError => "The content does not fit in a QR code"@,
                Error::InvalidBase64 => "The persisted image is not valid base64"@,
    }
}

impl Error {
    /// A description of the error for people.
    pub fn message(&self) -> (r: String)
        ensures
            r@ == message_of(*self),
    {
        match self {
                Error::CP437Error(d) => {
                let mut s = "CP437 error: ".to_owned();
                s.append(d.as_str());
                s
            },
                Error::ImageError(d) => {
                let mut s = "Image error: ".to_owned();
                s.append(d.as_str());
                s
            },
                Error::NoBulkEndpoint => "No bulk endpoint could be found".to_owned(),
                Error::NoReplacementFound(d) => {
                let mut s = "Could not find replacement for tag {".to_owned();
                s.append(d.as_str());
                s.append("}");
                s
            },
                Error::NoPrintData => "Print data must be supplied for this instruction".to_owned(),
                Error::UnsupportedFont => "The specified font does not seem to be supported by the printer profile".to_owned(),
                Error::NoFontFound => "No Font was found in the profile".to_owned(),
                Error::NoImageModeFound => "Image mode was not found in the profile".to_owned(),
                Error::UnsupportedForPrinterConnection => "The called method does not work with the current printer connection".to_owned(),
                Error::PrinterError(d) => {
                let mut s = "An error occured while printing, ".to_owned();
                s.append(d.as_str());
                s
            },
                Error::WrongMarkdown => "Incorrect markdown structure".to_owned(),
                Error::NoTables => "Not a single table was found in the PrintData structure".to_owned(),
                Error::NoTableFound(d) => {
                let mut s = "No table was found for id {".to_owned();
                s.append(d.as_str());
                s.append("}");
                s
            },
                Error::NoWidth => "No width was found for the selected font".to_owned(),
                Error::NoQrContent(d) => {
                let mut s = "Could not find qr code content for \"".to_owned();
                s.append(d.as_str());
                s.append("\"");
                s
            },
                Error::NoQrContents => "Could not find qr contents".to_owned(),
                Error::Encoding => "An unsupported utf-8 character was found when passing to cp437".to_owned(),
                Error::QrCodeError => "The content does not fit in a QR code".to_owned(),
                Error::InvalidBase64 => "The persisted image is not valid base64".to_owned(),
        }
    }
}

} // verus!
