//! Raw ESC/POS commands and the byte sequences they encode to.
use vstd::prelude::*;

verus! {

/// International character sets, selected with `ESC R n`.
#[derive(Clone, Copy, Debug, PartialEq, Eq, Structural)]
pub enum Charset {
    USA,
    France,
    Germany,
    UK,
    Denmark1,
    Sweden,
    Italy,
    Spain1,
    Japan,
    Norway,
    Denmark2,
    Spain2,
    LatinAmerica,
    Korea,
    SloveniaCroatia,
    China,
    Vietnam,
    Arabia,
}

/// The selector byte of a character set.
pub open spec fn charset_code(c: Charset) -> u8 {
    match c {
        Charset::USA => 0x00,
        Charset::France => 0x01,
        Charset::Germany => 0x02,
        Charset::UK => 0x03,
        Charset::Denmark1 => 0x04,
        Charset::Sweden => 0x05,
        Charset::Italy => 0x06,
        Charset::Spain1 => 0x07,
        Charset::Japan => 0x08,
        Charset::Norway => 0x09,
        Charset::Denmark2 => 0x0a,
        Charset::Spain2 => 0x0b,
        Charset::LatinAmerica => 0x0c,
        Charset::Korea => 0x0d,
        Charset::SloveniaCroatia => 0x0e,
        Charset::China => 0x0f,
        Charset::Vietnam => 0x10,
        Charset::Arabia => 0x11,
    }
}

impl Charset {
    /// The byte that selects this character set.
    pub fn as_bytes(&self) -> (r: Vec<u8>)
        ensures
            r@ == seq![charset_code(*self)],
    {
        let b: u8 = match self {
            Charset::USA => 0x00,
            Charset::France => 0x01,
            Charset::Germany => 0x02,
            Charset::UK => 0x03,
            Charset::Denmark1 => 0x04,
            Charset::Sweden => 0x05,
            Charset::Italy => 0x06,
            Charset::Spain1 => 0x07,
            Charset::Japan => 0x08,
            Charset::Norway => 0x09,
            Charset::Denmark2 => 0x0a,
            Charset::Spain2 => 0x0b,
            Charset::LatinAmerica => 0x0c,
            Charset::Korea => 0x0d,
            Charset::SloveniaCroatia => 0x0e,
            Charset::China => 0x0f,
            Charset::Vietnam => 0x10,
            Charset::Arabia => 0x11,
        };
        vec![b]
    }
}

/// Code tables, selected with `ESC t n`.
#[derive(Clone, Copy, Debug, PartialEq, Eq, Structural)]
pub enum CodeTable {
    USA,
    Latin2,
}

pub open spec fn code_table_code(c: CodeTable) -> u8 {
    match c {
        CodeTable::USA => 0x00,
        CodeTable::Latin2 => 0x02,
    }
}

impl CodeTable {
    /// The byte that selects this code table.
    pub fn as_bytes(&self) -> (r: Vec<u8>)
        ensures
            r@ == seq![code_table_code(*self)],
    {
        match self {
            CodeTable::USA => vec![0x00],
            CodeTable::Latin2 => vec![0x02],
        }
    }
}

/// Fonts of thermal printers.
#[derive(Clone, Copy, Debug, PartialEq, Eq, Structural, Hash)]
pub enum Font {
    FontA,
    FontB,
    FontC,
    FontD,
    FontE,
}

pub open spec fn font_code(f: Font) -> u8 {
    match f {
        Font::FontA => 0x00,
        Font::FontB => 0x01,
        Font::FontC => 0x02,
        Font::FontD => 0x03,
        Font::FontE => 0x04,
    }
}

impl Font {
    /// The byte that selects this font.
    pub fn as_bytes(&self) -> (r: Vec<u8>)
        ensures
            r@ == seq![font_code(*self)],
    {
        match self {
            Font::FontA => vec![0x00],
            Font::FontB => vec![0x01],
            Font::FontC => vec![0x02],
            Font::FontD => vec![0x03],
            Font::FontE => vec![0x04],
        }
    }
}

/// Dot densities for raster images. Not every printer supports all of them.
#[derive(Clone, Copy, Debug, PartialEq, Eq, Structural, Hash)]
pub enum ImageMode {
    EightDotSingleDensity,
    EightDotDoubleDensity,
    TwentyfourDotSingleDensity,
    TwentyfourDotDoubleDensity,
}

pub open spec fn image_mode_code(m: ImageMode) -> u8 {
    match m {
        ImageMode::EightDotSingleDensity => 0x00,
        ImageMode::EightDotDoubleDensity => 0x01,
        ImageMode::TwentyfourDotSingleDensity => 0x20,
        ImageMode::TwentyfourDotDoubleDensity => 0x21,
    }
}

/// Modes that pack three 8-row groups per column.
pub open spec fn is_24_dot(m: ImageMode) -> bool {
    m == ImageMode::TwentyfourDotSingleDensity || m == ImageMode::TwentyfourDotDoubleDensity
}

impl ImageMode {
    /// The density selector byte.
    pub fn as_byte(&self) -> (r: u8)
        ensures
            r == image_mode_code(*self),
    {
        match self {
            ImageMode::EightDotSingleDensity => 0x00,
            ImageMode::EightDotDoubleDensity => 0x01,
            ImageMode::TwentyfourDotSingleDensity => 0x20,
            ImageMode::TwentyfourDotDoubleDensity => 0x21,
        }
    }
}

/// Printer directives with a fixed encoding.
#[derive(Clone, Copy, Debug, PartialEq, Eq, Structural)]
pub enum Command {
    /// Cuts the paper after 0x96 vertical spaces
    Cut,
    /// Resets the printer
    Reset,
    /// Print mode reset to the default fonts, `ESC ! 0`
    PrintModeDefault,
    /// Selects an international character set, `ESC R`
    SelectCharset { charset: Charset },
    /// Selects a code table, `ESC t`
    SelectCodeTable { code_table: CodeTable },
    /// Selects a font, `ESC M`
    SelectFont { font: Font },
    UnderlineOff,
    Underline1Dot,
    Underline2Dot,
    BoldOn,
    BoldOff,
    /// Raster bit image header, `ESC *`; the density selector follows it
    Bitmap,
    /// Line spacing set to zero
    NoLine,
    /// Default line spacing
    ResetLine,
}

/// The byte sequence of each command.
pub open spec fn command_bytes(c: Command) -> Seq<u8> {
    match c {
        Command::Cut => seq![0x1du8, 0x56u8, 0x41u8, 0x96u8],
        Command::Reset => seq![0x1du8, 0x40u8],
        Command::PrintModeDefault => seq![0x1bu8, 0x21u8, 0x00u8],
        Command::SelectCharset { charset } => seq![0x1bu8, 0x52u8, charset_code(charset)],
        Command::SelectCodeTable { code_table } => seq![0x1bu8, 0x74u8, code_table_code(code_table)],
        Command::SelectFont { font } => seq![0x1bu8, 0x4du8, font_code(font)],
        Command::UnderlineOff => seq![0x1bu8, 0x2du8, 0x00u8],
        Command::Underline1Dot => seq![0x1bu8, 0x2du8, 0x01u8],
        Command::Underline2Dot => seq![0x1bu8, 0x2du8, 0x02u8],
        Command::BoldOn => seq![0x1bu8, 0x45u8, 0x01u8],
        Command::BoldOff => seq![0x1bu8, 0x45u8, 0x00u8],
        Command::Bitmap => seq![0x1bu8, 0x2au8],
        Command::NoLine => seq![0x1bu8, 0x33u8, 0x00u8],
        Command::ResetLine => seq![0x1bu8, 0x32u8],
    }
}

impl Command {
    /// The bytes sent to the printer for this command.
    pub fn as_bytes(&self) -> (r: Vec<u8>)
        ensures
            r@ == command_bytes(*self),
    {
        match self {
            Command::Cut => vec![0x1d, 0x56, 0x41, 0x96],
            Command::Reset => vec![0x1d, 0x40],
            Command::PrintModeDefault => vec![0x1b, 0x21, 0x00],
            Command::SelectCharset { charset } => {
                let b = charset.as_bytes();
                vec![0x1b, 0x52, b[0]]
            },
            Command::SelectCodeTable { code_table } => {
                let b = code_table.as_bytes();
                vec![0x1b, 0x74, b[0]]
            },
            Command::SelectFont { font } => {
                let b = font.as_bytes();
                vec![0x1b, 0x4d, b[0]]
            },
            Command::UnderlineOff => vec![0x1b, 0x2d, 0x00],
            Command::Underline1Dot => vec![0x1b, 0x2d, 0x01],
            Command::Underline2Dot => vec![0x1b, 0x2d, 0x02],
            Command::BoldOn => vec![0x1b, 0x45, 0x01],
            Command::BoldOff => vec![0x1b, 0x45, 0x00],
            Command::Bitmap => vec![0x1b, 0x2a],
            Command::NoLine => vec![0x1b, 0x33, 0x00],
            Command::ResetLine => vec![0x1b, 0x32],
        }
    }
}

} // verus!
