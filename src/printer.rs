//! Printer profiles: connection data, columns per font and pixel width.
use vstd::prelude::*;
use crate::command::{Font, ImageMode};
use crate::error::Error;

verus! {

/// How the printer is reached. The timeout of bulk writes is in milliseconds.
#[derive(Clone, Debug)]
pub enum PrinterConnectionData {
    Usb { vendor_id: u16, product_id: u16, endpoint: Option<u8>, timeout: u64 },
    Network { _host: String, _port: u16 },
    Terminal,
}

/// The column width of a font: the last entry for it wins.
pub open spec fn font_width(cols: Seq<(Font, u8)>, f: Font) -> Option<u8>
    decreases cols.len(),
{
    if cols.len() == 0 {
        None
    } else if cols.last().0 == f {
        Some(cols.last().1)
    } else {
        font_width(cols.drop_last(), f)
    }
}

/// What the library must know of a printer to lay out text and images.
#[derive(Clone, Debug)]
pub struct PrinterProfile {
    pub(crate) printer_connection_data: PrinterConnectionData,
    pub(crate) columns_per_font: Vec<(Font, u8)>,
    pub(crate) width: u16,
    pub(crate) image_mode: Option<ImageMode>,
}

impl PrinterProfile {
    /// The density at which images are printed, if one is configured.
    pub closed spec fn spec_image_mode(&self) -> Option<ImageMode> {
        self.image_mode
    }

    pub fn image_mode(&self) -> (r: Option<ImageMode>)
        ensures
            r == self.spec_image_mode(),
    {
        self.image_mode
    }

    pub closed spec fn spec_connection(&self) -> PrinterConnectionData {
        self.printer_connection_data
    }

    pub closed spec fn spec_columns(&self) -> Seq<(Font, u8)> {
        self.columns_per_font@
    }

    /// The pixel width of the printer.
    pub closed spec fn spec_width(&self) -> u16 {
        self.width
    }

    pub fn new(printer_connection_data: PrinterConnectionData, columns_per_font: Vec<(Font, u8)>, width: u16) -> (r: PrinterProfile)
        ensures
            r.spec_connection() == printer_connection_data,
            r.spec_columns() == columns_per_font@,
            r.spec_width() == width,
            r.spec_image_mode() is None,
    {
        PrinterProfile { printer_connection_data, columns_per_font, width, image_mode: None }
    }

    /// A builder for a USB printer.
    pub fn usb_builder(vendor_id: u16, product_id: u16) -> (r: PrinterProfileBuilder)
        ensures
            r.spec_profile().spec_connection() == (PrinterConnectionData::Usb { vendor_id, product_id, endpoint: None, timeout: 2000 }),
            r.spec_profile().spec_columns() == seq![(Font::FontA, 32u8)],
            r.spec_profile().spec_width() == 384,
            r.spec_profile().spec_image_mode() == Some(ImageMode::EightDotSingleDensity),
    {
        PrinterProfileBuilder::new_usb(vendor_id, product_id)
    }

    /// A builder for a printer that prints to the terminal.
    pub fn terminal_builder() -> (r: PrinterProfileBuilder)
        ensures
            r.spec_profile().spec_connection() == PrinterConnectionData::Terminal,
            r.spec_profile().spec_columns() == seq![(Font::FontA, 32u8)],
            r.spec_profile().spec_width() == 384,
            r.spec_profile().spec_image_mode() == Some(ImageMode::EightDotSingleDensity),
    {
        PrinterProfileBuilder::new_terminal()
    }

    /// The number of columns of `font`, if known.
    pub fn columns_for(&self, font: Font) -> (r: Option<u8>)
        ensures
            r == font_width(self.spec_columns(), font),
    {
        let mut i: usize = self.columns_per_font.len();
        assert(self.columns_per_font@.subrange(0, i as int) =~= self.columns_per_font@);
        while i > 0
            invariant
                i <= self.columns_per_font.len(),
                font_width(self.spec_columns(), font) == font_width(self.columns_per_font@.subrange(0, i as int), font),
            decreases i,
        {
            assert(self.columns_per_font@.subrange(0, i as int).drop_last() =~= self.columns_per_font@.subrange(0, i - 1));
            if self.columns_per_font[i - 1].0 == font {
                return Some(self.columns_per_font[i - 1].1);
            }
            i = i - 1;
        }
        None
    }

    /// The pixel width of the printer.
    pub fn width(&self) -> (r: u16)
        ensures
            r == self.spec_width(),
    {
        self.width
    }

    pub fn connection(&self) -> (r: &PrinterConnectionData)
        ensures
            *r == self.spec_connection(),
    {
        &self.printer_connection_data
    }
}

/// Stages a [PrinterProfile].
pub struct PrinterProfileBuilder {
    profile: PrinterProfile,
}

impl PrinterProfileBuilder {
    pub closed spec fn spec_profile(&self) -> PrinterProfile {
        self.profile
    }

    /// A USB printer: no endpoint yet, a 2 s timeout, `FontA` of 32 columns, 384 dots.
    pub fn new_usb(vendor_id: u16, product_id: u16) -> (r: PrinterProfileBuilder)
        ensures
            r.spec_profile().spec_connection() == (PrinterConnectionData::Usb { vendor_id, product_id, endpoint: None, timeout: 2000 }),
            r.spec_profile().spec_columns() == seq![(Font::FontA, 32u8)],
            r.spec_profile().spec_width() == 384,
            r.spec_profile().spec_image_mode() == Some(ImageMode::EightDotSingleDensity),
    {
        let mut cols: Vec<(Font, u8)> = Vec::new();
        cols.push((Font::FontA, 32));
        assert(cols@ =~= seq![(Font::FontA, 32u8)]);
        PrinterProfileBuilder {
            profile: PrinterProfile {
                printer_connection_data: PrinterConnectionData::Usb { vendor_id, product_id, endpoint: None, timeout: 2000 },
                columns_per_font: cols,
                width: 384,
                image_mode: Some(ImageMode::EightDotSingleDensity),
            },
        }
    }

    /// A terminal printer: `FontA` of 32 columns, 384 dots.
    pub fn new_terminal() -> (r: PrinterProfileBuilder)
        ensures
            r.spec_profile().spec_connection() == PrinterConnectionData::Terminal,
            r.spec_profile().spec_columns() == seq![(Font::FontA, 32u8)],
            r.spec_profile().spec_width() == 384,
            r.spec_profile().spec_image_mode() == Some(ImageMode::EightDotSingleDensity),
    {
        let mut cols: Vec<(Font, u8)> = Vec::new();
        cols.push((Font::FontA, 32));
        assert(cols@ =~= seq![(Font::FontA, 32u8)]);
        PrinterProfileBuilder {
            profile: PrinterProfile {
                printer_connection_data: PrinterConnectionData::Terminal,
                columns_per_font: cols,
                width: 384,
                image_mode: Some(ImageMode::EightDotSingleDensity),
            },
        }
    }

    /// Sets the USB bulk endpoint; only a USB connection has one.
    pub fn with_endpoint(self, endpoint: u8) -> (r: Result<PrinterProfileBuilder, Error>)
        ensures
            self.spec_profile().spec_connection() is Usb <==> r is Ok,
            r is Err ==> r->Err_0 == Error::UnsupportedForPrinterConnection,
            r matches Ok(b) ==> b.spec_profile().spec_connection() == (PrinterConnectionData::Usb {
                vendor_id: self.spec_profile().spec_connection()->vendor_id,
                product_id: self.spec_profile().spec_connection()->product_id,
                endpoint: Some(endpoint),
                timeout: self.spec_profile().spec_connection()->Usb_timeout,
            }) && b.spec_profile().spec_columns() == self.spec_profile().spec_columns()
                && b.spec_profile().spec_width() == self.spec_profile().spec_width()
                && b.spec_profile().spec_image_mode() == self.spec_profile().spec_image_mode(),
    {
        let mut p = self.profile;
        match p.printer_connection_data {
            PrinterConnectionData::Usb { vendor_id, product_id, endpoint: _, timeout } => {
                p.printer_connection_data = PrinterConnectionData::Usb { vendor_id, product_id, endpoint: Some(endpoint), timeout };
                Ok(PrinterProfileBuilder { profile: p })
            },
            _ => Err(Error::UnsupportedForPrinterConnection),
        }
    }

    /// Sets the pixel width of the printer.
    pub fn with_width(self, width: u16) -> (r: PrinterProfileBuilder)
        ensures
            r.spec_profile().spec_width() == width,
            r.spec_profile().spec_connection() == self.spec_profile().spec_connection(),
            r.spec_profile().spec_columns() == self.spec_profile().spec_columns(),
            r.spec_profile().spec_image_mode() == self.spec_profile().spec_image_mode(),
    {
        let mut p = self.profile;
        p.width = width;
        PrinterProfileBuilder { profile: p }
    }

    /// Sets the number of columns of `font`.
    pub fn with_font_width(self, font: Font, width: u8) -> (r: PrinterProfileBuilder)
        ensures
            r.spec_profile().spec_columns() == self.spec_profile().spec_columns().push((font, width)),
            font_width(r.spec_profile().spec_columns(), font) == Some(width),
            r.spec_profile().spec_connection() == self.spec_profile().spec_connection(),
            r.spec_profile().spec_width() == self.spec_profile().spec_width(),
            r.spec_profile().spec_image_mode() == self.spec_profile().spec_image_mode(),
    {
        let mut p = self.profile;
        p.columns_per_font.push((font, width));
        PrinterProfileBuilder { profile: p }
    }

    /// Sets the bulk write timeout, in milliseconds; only a USB connection has one.
    pub fn with_timeout(self, timeout: u64) -> (r: Result<PrinterProfileBuilder, Error>)
        ensures
            self.spec_profile().spec_connection() is Usb <==> r is Ok,
            r is Err ==> r->Err_0 == Error::UnsupportedForPrinterConnection,
            r matches Ok(b) ==> b.spec_profile().spec_connection() == (PrinterConnectionData::Usb {
                vendor_id: self.spec_profile().spec_connection()->vendor_id,
                product_id: self.spec_profile().spec_connection()->product_id,
                endpoint: self.spec_profile().spec_connection()->endpoint,
                timeout,
            }) && b.spec_profile().spec_columns() == self.spec_profile().spec_columns()
                && b.spec_profile().spec_width() == self.spec_profile().spec_width()
                && b.spec_profile().spec_image_mode() == self.spec_profile().spec_image_mode(),
    {
        let mut p = self.profile;
        match p.printer_connection_data {
            PrinterConnectionData::Usb { vendor_id, product_id, endpoint, timeout: _ } => {
                p.printer_connection_data = PrinterConnectionData::Usb { vendor_id, product_id, endpoint, timeout };
                Ok(PrinterProfileBuilder { profile: p })
            },
            _ => Err(Error::UnsupportedForPrinterConnection),
        }
    }

    /// Sets the density at which images are printed.
    pub fn with_image_mode(self, image_mode: ImageMode) -> (r: PrinterProfileBuilder)
        ensures
            r.spec_profile().spec_image_mode() == Some(image_mode),
            r.spec_profile().spec_connection() == self.spec_profile().spec_connection(),
            r.spec_profile().spec_columns() == self.spec_profile().spec_columns(),
            r.spec_profile().spec_width() == self.spec_profile().spec_width(),
    {
        let mut p = self.profile;
        p.image_mode = Some(image_mode);
        PrinterProfileBuilder { profile: p }
    }

    /// The staged profile.
    pub fn build(self) -> (r: PrinterProfile)
        ensures
            r == self.spec_profile(),
    {
        self.profile
    }
}

/// Printers known to this library.
#[derive(Clone, Copy, Debug, PartialEq, Eq, Structural)]
pub enum PrinterModel {
    /// ZKTeco mini printer
    ZKTeco,
    /// Epson TM-T20
    TMT20,
    /// Epson TM-T88VI
    TMT88VI,
}

pub open spec fn model_ids(m: PrinterModel) -> (u16, u16, Option<u8>) {
    match m {
        PrinterModel::ZKTeco => (0x6868, 0x0200, Some(0x02u8)),
        PrinterModel::TMT20 => (0x04b8, 0x0e15, Some(0x01u8)),
        PrinterModel::TMT88VI => (0x04b8, 0x0202, Some(0x01u8)),
    }
}

pub open spec fn model_columns(m: PrinterModel) -> Seq<(Font, u8)> {
    match m {
        PrinterModel::ZKTeco => seq![(Font::FontA, 32u8), (Font::FontB, 42u8)],
        PrinterModel::TMT20 => seq![(Font::FontA, 48u8)],
        PrinterModel::TMT88VI => seq![(Font::FontA, 42u8), (Font::FontB, 56u8)],
    }
}

pub open spec fn model_width(m: PrinterModel) -> u16 {
    match m {
        PrinterModel::ZKTeco => 384,
        _ => 576,
    }
}

impl PrinterModel {
    /// Vendor id, product id and bulk endpoint of the model.
    pub fn vp_id(&self) -> (r: (u16, u16, Option<u8>))
        ensures
            r == model_ids(*self),
    {
        match self {
            PrinterModel::ZKTeco => (0x6868, 0x0200, Some(0x02)),
            PrinterModel::TMT20 => (0x04b8, 0x0e15, Some(0x01)),
            PrinterModel::TMT88VI => (0x04b8, 0x0202, Some(0x01)),
        }
    }

    /// The USB profile of the model, with a 2 s timeout.
    pub fn usb_profile(&self) -> (r: PrinterProfile)
        ensures
            r.spec_connection() == (PrinterConnectionData::Usb {
                vendor_id: model_ids(*self).0,
                product_id: model_ids(*self).1,
                endpoint: model_ids(*self).2,
                timeout: 2000,
            }),
            r.spec_columns() == model_columns(*self),
            r.spec_width() == model_width(*self),
            r.spec_image_mode() == Some(ImageMode::EightDotSingleDensity),
    {
        let (vendor_id, product_id, endpoint) = self.vp_id();
        let mut cols: Vec<(Font, u8)> = Vec::new();
        let width: u16 = match self {
            PrinterModel::ZKTeco => {
                cols.push((Font::FontA, 32));
                cols.push((Font::FontB, 42));
                384
            },
            PrinterModel::TMT20 => {
                cols.push((Font::FontA, 48));
                576
            },
            PrinterModel::TMT88VI => {
                cols.push((Font::FontA, 42));
                cols.push((Font::FontB, 56));
                576
            },
        };
        assert(cols@ =~= model_columns(*self));
        PrinterProfile {
            printer_connection_data: PrinterConnectionData::Usb { vendor_id, product_id, endpoint, timeout: 2000 },
            columns_per_font: cols,
            width,
            image_mode: Some(ImageMode::EightDotSingleDensity),
        }
    }
}

} // verus!
