//! Print templates and their serialization to printer bytes.
use vstd::prelude::*;
use crate::command::{Command, Font, command_bytes};
use crate::error::Error;
use crate::formatter::{
    Justification, Row3, words_of, packed_lines, duo_line, duo_rows, division_line,
    trio_line, trio_rows, trio_layout, duo_view, trio_view, split_words, pack_words, lines_view,
    push_duo_line, push_trio_line, trio_layout_exec, cells_view, division_chars,
};
use crate::image::{
    same_image, takes_image, taken_pixels, Bitmap, EscposImage, decode_bitmap as decode_bitmap_checked, raster_spec, raster_px, composed_px, scaled_size, compose,
    rasterize,
};
use crate::print_data::{PrintData, Quad, lookup_in, find_key};
use crate::printer::{PrinterProfile, font_width};
use crate::text::{chars_of, string_of, pad_left, pad_center, push_chars, push_pad_left, push_pad_center};

verus! {

broadcast use vstd::std_specs::vec::group_vec_axioms, vstd::seq::group_seq_axioms;

/// The code page 437 bytes of a text under `CP437_CONTROL`; `None` where a
/// character has no code.
pub uninterp spec fn cp437_of(s: Seq<char>) -> Option<Seq<u8>>;

/// The RGBA image (width, height, pixels) that qrcode renders for a payload;
/// `None` where the payload does not fit in a QR code.
pub uninterp spec fn qr_rendered(s: Seq<char>) -> Option<(int, int, Seq<u8>)>;

/// Relies on codepage_437's `IntoCp437` for `String` with the `CP437_CONTROL`
/// dialect, which keeps ASCII characters as they are.
#[verifier::external_body]
fn to_cp437(s: String) -> (r: Option<Vec<u8>>)
    ensures
        r is None <==> cp437_of(s@) is None,
        r matches Some(b) ==> cp437_of(s@) == Some(b@),
        r is None ==> exists|i: int| 0 <= i < s@.len() && !is_ascii_char(#[trigger] s@[i]),
        r matches Some(b) ==> (all_ascii(s@) ==> b@ == ascii_bytes(s@)),
{
    codepage_437::IntoCp437::into_cp437(s, &codepage_437::CP437_CONTROL).ok()
}

pub open spec fn is_ascii_char(c: char) -> bool {
    (c as u32) < 0x80
}

pub open spec fn all_ascii(s: Seq<char>) -> bool {
    forall|i: int| 0 <= i < s.len() ==> is_ascii_char(#[trigger] s[i])
}

/// The bytes of an ASCII text.
pub open spec fn ascii_bytes(s: Seq<char>) -> Seq<u8> {
    s.map_values(|c: char| c as u8)
}

/// Relies on qrcode's `QrCode::new` and `render::<image::Rgba<u8>>().build()`:
/// the rendered code as RGBA rows.
#[verifier::external_body]
fn qr_raw(content: &str) -> (r: Option<(u32, u32, Vec<u8>)>)
    ensures
        r is None <==> qr_rendered(content@) is None,
        r matches Some(t) ==> qr_rendered(content@) == Some((t.0 as int, t.1 as int, t.2@)) && t.2@.len() == 4 * (t.0 as int) * (t.1 as int),
{
    match qrcode::QrCode::new(content.as_bytes()) {
        Ok(code) => {
            let img = code.render::<::image::Rgba<u8>>().build();
            Some((img.width(), img.height(), img.into_raw()))
        },
        Err(_) => None,
    }
}

/// Whether a payload renders to a QR code whose scaled image is not empty.
pub open spec fn qr_fits(content: Seq<char>) -> bool {
    qr_rendered(content) matches Some((w, h, px)) && 0 < w
        && scaled_size(w, h, QR_SCALE as int).1 > 0
}

/// Scale of generated QR codes, out of 255.
pub const QR_SCALE: u8 = 128;

/// A print template.
#[derive(Debug)]
pub enum Instruction {
    /// Instructions executed in sequence
    Compound { instructions: Vec<Instruction> },
    /// A single command
    Command { command: Command },
    /// Blank lines
    VSpace { lines: u8 },
    /// Text, wrapped to the font's width; each key of `replacements` is
    /// replaced by its value in the print data
    Text { content: String, markdown: bool, font: Font, justification: Justification, replacements: Option<Vec<String>> },
    /// A two-column table filled from the print data
    DuoTable { name: String, header: (String, String), font: Font },
    /// A three-column table filled from the print data
    TrioTable { name: String, header: (String, String, String) },
    /// A three-column table with a label line above each row
    QuadTable { name: String, header: (String, String, String) },
    /// A fixed image
    Image { image: EscposImage },
    /// A QR code whose payload comes from the print data
    QRCode { name: String },
    /// Cuts the paper
    Cut,
}

/// `s` with every occurrence of the non-empty `k` replaced by `v`, left to right.
pub open spec fn replace_all(s: Seq<char>, k: Seq<char>, v: Seq<char>) -> Seq<char>
    decreases s.len(),
{
    if k.len() == 0 || s.len() < k.len() {
        s
    } else if s.subrange(0, k.len() as int) == k {
        v + replace_all(s.subrange(k.len() as int, s.len() as int), k, v)
    } else {
        seq![s[0]] + replace_all(s.subrange(1, s.len() as int), k, v)
    }
}

/// `s` with each key replaced in turn; the first key without a value is an error.
pub open spec fn apply_replacements(s: Seq<char>, keys: Seq<String>, d: PrintData) -> Result<Seq<char>, Error>
    decreases keys.len(),
{
    if keys.len() == 0 {
        Ok(s)
    } else {
        match apply_replacements(s, keys.drop_last(), d) {
            Err(e) => Err(e),
            Ok(t) => match lookup_in(d.spec_replacements(), keys.last()@) {
                None => Err(Error::NoReplacementFound(keys.last())),
                Some(v) => Ok(replace_all(t, keys.last()@, v@)),
            },
        }
    }
}

pub open spec fn justify(l: Seq<char>, w: int, j: Justification) -> Seq<char> {
    match j {
        Justification::Left => l,
        Justification::Right => pad_left(l, w),
        Justification::Center => pad_center(l, w),
    }
}

/// Each line justified and ended with a newline.
pub open spec fn text_lines(lines: Seq<Seq<char>>, w: int, j: Justification) -> Seq<char>
    decreases lines.len(),
{
    if lines.len() == 0 {
        Seq::empty()
    } else {
        text_lines(lines.drop_last(), w, j) + justify(lines.last(), w, j) + seq!['\n']
    }
}

pub open spec fn encoded(s: Seq<char>) -> Result<Seq<u8>, Error> {
    match cp437_of(s) {
        None => Err(Error::Encoding),
        Some(b) => Ok(b),
    }
}

#[verifier::opaque]
pub open spec fn text_spec(
    content: Seq<char>,
    markdown: bool,
    font: Font,
    j: Justification,
    keys: Option<Vec<String>>,
    p: PrinterProfile,
    d: PrintData,
) -> Result<Seq<u8>, Error> {
    match font_width(p.spec_columns(), font) {
        None => Err(Error::NoWidth),
        Some(w) => if markdown {
            Err(Error::WrongMarkdown)
        } else {
            let ks = match keys {
                Some(k) => k@,
                None => Seq::empty(),
            };
            match apply_replacements(content, ks, d) {
                Err(e) => Err(e),
                Ok(s) => match encoded(text_lines(packed_lines(words_of(s), w as int), w as int, j)) {
                    Err(e) => Err(e),
                    Ok(b) => Ok(command_bytes(Command::SelectFont { font }) + command_bytes(Command::Reset) + b),
                },
            }
        },
    }
}

pub open spec fn dash() -> Option<Seq<char>> {
    Some(seq!['-'])
}

#[verifier::opaque]
pub open spec fn duo_spec(name: String, header: (String, String), font: Font, p: PrinterProfile, d: PrintData) -> Result<Seq<u8>, Error> {
    match font_width(p.spec_columns(), font) {
        None => Err(Error::NoWidth),
        Some(w) => match d.spec_duo_tables() {
            None => Err(Error::NoTables),
            Some(_) => match lookup_in(d.spec_duo_tables(), name@) {
                None => Err(Error::NoTableFound(name)),
                Some(rows) => encoded(
                    duo_line(header.0@, header.1@, w as int, true) + division_line(dash(), w as int) + duo_rows(duo_view(rows@), w as int),
                ),
            },
        },
    }
}

#[verifier::opaque]
pub open spec fn trio_spec(name: String, header: (String, String, String), p: PrinterProfile, d: PrintData) -> Result<Seq<u8>, Error> {
    match d.spec_trio_tables() {
        None => Err(Error::NoTables),
        Some(_) => match lookup_in(d.spec_trio_tables(), name@) {
            None => Err(Error::NoTableFound(name)),
            Some(rows) => match font_width(p.spec_columns(), Font::FontA) {
                None => Err(Error::NoWidth),
                Some(w) => {
                    let h = (header.0@, header.1@, header.2@);
                    let (l, r) = trio_layout(h, trio_view(rows@), w as int);
                    encoded(trio_line(h.0, h.1, h.2, w as int, l, r) + division_line(dash(), w as int) + trio_rows(trio_view(rows@), w as int, l, r))
                },
            },
        },
    }
}

/// The three columns of each row of a quad table.
pub open spec fn quad_cols(rows: Seq<Quad>) -> Seq<Row3> {
    rows.map_values(|x: Quad| (x.1@, x.2@, x.3@))
}

/// The rows of a quad table: the label in `FontB`, then the columns in `FontA`.
pub open spec fn quad_rows(rows: Seq<Quad>, w: int, l: int, r: int) -> Result<Seq<u8>, Error>
    decreases rows.len(),
{
    if rows.len() == 0 {
        Ok(Seq::empty())
    } else {
        let x = rows.last();
        match quad_rows(rows.drop_last(), w, l, r) {
            Err(e) => Err(e),
            Ok(a) => match encoded(x.0@.push('\n')) {
                Err(e) => Err(e),
                Ok(label) => match encoded(trio_line(x.1@, x.2@, x.3@, w, l, r)) {
                    Err(e) => Err(e),
                    Ok(cols) => Ok(a + command_bytes(Command::SelectFont { font: Font::FontB }) + label
                        + command_bytes(Command::SelectFont { font: Font::FontA }) + cols),
                },
            },
        }
    }
}

#[verifier::opaque]
pub open spec fn quad_spec(name: String, header: (String, String, String), p: PrinterProfile, d: PrintData) -> Result<Seq<u8>, Error> {
    match d.spec_quad_tables() {
        None => Err(Error::NoTables),
        Some(_) => match lookup_in(d.spec_quad_tables(), name@) {
            None => Err(Error::NoTableFound(name)),
            Some(rows) => match font_width(p.spec_columns(), Font::FontA) {
                None => Err(Error::NoWidth),
                Some(w) => {
                    let h = (header.0@, header.1@, header.2@);
                    let (l, r) = trio_layout(h, quad_cols(rows@), w as int);
                    match encoded(trio_line(h.0, h.1, h.2, w as int, l, r) + division_line(dash(), w as int)) {
                        Err(e) => Err(e),
                        Ok(head) => match quad_rows(rows@, w as int, l, r) {
                            Err(e) => Err(e),
                            Ok(body) => Ok(head + body),
                        },
                    }
                },
            },
        },
    }
}

#[verifier::opaque]
pub open spec fn qr_spec(name: String, p: PrinterProfile, d: PrintData) -> Result<Seq<u8>, Error> {
    match d.spec_qr_contents() {
        None => Err(Error::NoQrContents),
        Some(_) => match lookup_in(d.spec_qr_contents(), name@) {
            None => Err(Error::NoQrContent(name)),
            Some(c) => match qr_rendered(c@) {
                None => Err(Error::QrCodeError),
                Some((w, h, px)) => match p.spec_image_mode() {
                    None => Err(Error::NoImageModeFound),
                    Some(m) => {
                        let sh = scaled_size(w, h, QR_SCALE as int).1;
                        Ok(raster_px(composed_px(px, w, h, QR_SCALE as int, Justification::Center), w, sh, m, p.spec_width() as int))
                    },
                },
            },
        },
    }
}

/// The bytes an instruction compiles to for a profile and print data, or the
/// first error met, depth first and left to right.
pub open spec fn ser(i: Instruction, p: PrinterProfile, d: PrintData) -> Result<Seq<u8>, Error>
    decreases i,
{
    match i {
        Instruction::Compound { instructions } => ser_seq(instructions@, p, d),
        Instruction::Command { command } => Ok(command_bytes(command)),
        Instruction::VSpace { lines } => Ok(Seq::new(lines as nat, |k: int| 10u8)),
        Instruction::Text { content, markdown, font, justification, replacements } =>
            text_spec(content@, markdown, font, justification, replacements, p, d),
        Instruction::DuoTable { name, header, font } => duo_spec(name, header, font, p, d),
        Instruction::TrioTable { name, header } => trio_spec(name, header, p, d),
        Instruction::QuadTable { name, header } => quad_spec(name, header, p, d),
        Instruction::Image { image } => match p.spec_image_mode() {
            None => Err(Error::NoImageModeFound),
            Some(m) => Ok(raster_spec(image.spec_bitmap(), m, p.spec_width() as int)),
        },
        Instruction::QRCode { name } => qr_spec(name, p, d),
        Instruction::Cut => Ok(command_bytes(Command::Cut)),
    }
}

pub open spec fn ser_seq(s: Seq<Instruction>, p: PrinterProfile, d: PrintData) -> Result<Seq<u8>, Error>
    decreases s,
{
    if s.len() == 0 {
        Ok(Seq::empty())
    } else {
        match ser_seq(s.subrange(0, s.len() - 1), p, d) {
            Err(e) => Err(e),
            Ok(a) => match ser(s[s.len() - 1], p, d) {
                Err(e) => Err(e),
                Ok(b) => Ok(a + b),
            },
        }
    }
}

pub open spec fn bytes_view(r: Result<Vec<u8>, Error>) -> Result<Seq<u8>, Error> {
    match r {
        Ok(b) => Ok(b@),
        Err(e) => Err(e),
    }
}

/// The children of a compound, or the instruction alone.
pub open spec fn parts(i: Instruction) -> Seq<Instruction> {
    match i {
        Instruction::Compound { instructions } => instructions@,
        _ => seq![i],
    }
}

/// Whether `k` occurs in `s` at position `i`.
fn matches_at(s: &Vec<char>, i: usize, k: &Vec<char>) -> (r: bool)
    requires
        i + k.len() <= s.len(),
    ensures
        r == (s@.subrange(i as int, i + k.len()) == k@),
{
    let mut j: usize = 0;
    while j < k.len()
        invariant
            i + k.len() <= s.len(),
            j <= k.len(),
            s@.subrange(i as int, i + j) == k@.subrange(0, j as int),
        decreases k.len() - j,
    {
        if s[i + j] != k[j] {
            assert(s@.subrange(i as int, i + k.len())[j as int] != k@[j as int]);
            return false;
        }
        j = j + 1;
        assert(s@.subrange(i as int, i + j) =~= s@.subrange(i as int, i + j - 1).push(s@[i + j - 1]));
        assert(k@.subrange(0, j as int) =~= k@.subrange(0, j - 1).push(k@[j - 1]));
    }
    assert(k@.subrange(0, k.len() as int) =~= k@);
    true
}

/// Every occurrence of `k` in `s` replaced by `v`.
pub fn replace_chars(s: &Vec<char>, k: &Vec<char>, v: &Vec<char>) -> (r: Vec<char>)
    ensures
        r@ == replace_all(s@, k@, v@),
{
    if k.len() == 0 {
        return s.clone();
    }
    let mut out: Vec<char> = Vec::new();
    let mut i: usize = 0;
    assert(s@.subrange(0, s.len() as int) =~= s@);
    while i < s.len()
        invariant
            i <= s.len(),
            k.len() > 0,
            replace_all(s@, k@, v@) == out@ + replace_all(s@.subrange(i as int, s.len() as int), k@, v@),
        decreases s.len() - i,
    {
        let ghost rest = s@.subrange(i as int, s.len() as int);
        if s.len() - i < k.len() {
            let ghost o = out@;
            let ghost i0 = i as int;
            while i < s.len()
                invariant
                    0 <= i0 <= i <= s.len(),
                    out@ == o + s@.subrange(i0, i as int),
                decreases s.len() - i,
            {
                out.push(s[i]);
                i = i + 1;
                assert(s@.subrange(i0, i as int) =~= s@.subrange(i0, i - 1).push(s@[i - 1]));
            }
            assert(s@.subrange(i0, s.len() as int) == rest);
            return out;
        }
        if matches_at(s, i, k) {
            assert(rest.subrange(0, k.len() as int) =~= s@.subrange(i as int, i + k.len()));
            assert(rest.subrange(k.len() as int, rest.len() as int) =~= s@.subrange(i + k.len(), s.len() as int));
            push_chars(&mut out, v);
            i = i + k.len();
        } else {
            assert(rest.subrange(0, k.len() as int) =~= s@.subrange(i as int, i + k.len()));
            assert(rest.subrange(1, rest.len() as int) =~= s@.subrange(i + 1, s.len() as int));
            out.push(s[i]);
            i = i + 1;
        }
    }
    assert(s@.subrange(s.len() as int, s.len() as int) =~= Seq::<char>::empty());
    out
}

/// The content with each key replaced by its value in the print data.
fn replace_keys(content: &Vec<char>, keys: &Vec<String>, d: &PrintData) -> (r: Result<Vec<char>, Error>)
    ensures
        match r {
            Ok(v) => apply_replacements(content@, keys@, *d) == Ok::<Seq<char>, Error>(v@),
            Err(e) => apply_replacements(content@, keys@, *d) == Err::<Seq<char>, Error>(e),
        },
{
    let mut cur = content.clone();
    let mut i: usize = 0;
    while i < keys.len()
        invariant
            i <= keys.len(),
            apply_replacements(content@, keys@.subrange(0, i as int), *d) == Ok::<Seq<char>, Error>(cur@),
        decreases keys.len() - i,
    {
        assert(keys@.subrange(0, i + 1).drop_last() =~= keys@.subrange(0, i as int));
        let found = match d.replacements() {
            Some(e) => find_key(e, &keys[i]),
            None => None,
        };
        match found {
            None => {
                proof {
                    lemma_apply_prefix_err(content@, keys@, *d, i as int + 1, Error::NoReplacementFound(keys@[i as int]));
                }
                return Err(Error::NoReplacementFound(keys[i].clone()));
            },
            Some(j) => {
                let e = match d.replacements() {
                    Some(e) => e,
                    None => { return Err(Error::NoPrintData); },
                };
                let v = chars_of(e[j].1.as_str());
                let k = chars_of(keys[i].as_str());
                cur = replace_chars(&cur, &k, &v);
            },
        }
        i = i + 1;
    }
    assert(keys@.subrange(0, keys.len() as int) =~= keys@);
    Ok(cur)
}

/// An error on a prefix of the keys is the error on all of them.
proof fn lemma_apply_prefix_err(s: Seq<char>, keys: Seq<String>, d: PrintData, n: int, e: Error)
    requires
        0 <= n <= keys.len(),
        apply_replacements(s, keys.subrange(0, n), d) == Err::<Seq<char>, Error>(e),
    ensures
        apply_replacements(s, keys, d) == Err::<Seq<char>, Error>(e),
    decreases keys.len() - n,
{
    if n == keys.len() {
        assert(keys.subrange(0, n) =~= keys);
    } else {
        assert(keys.subrange(0, n + 1).drop_last() =~= keys.subrange(0, n));
        lemma_apply_prefix_err(s, keys, d, n + 1, e);
    }
}

/// Appends `l` justified in `w` columns and a newline.
fn push_justified(out: &mut Vec<char>, l: &Vec<char>, w: usize, j: Justification)
    ensures
        final(out)@ == old(out)@ + justify(l@, w as int, j) + seq!['\n'],
{
    match j {
        Justification::Left => push_chars(out, l),
        Justification::Right => push_pad_left(out, l, w),
        Justification::Center => push_pad_center(out, l, w),
    }
    out.push('\n');
}

fn encode(s: &Vec<char>) -> (r: Result<Vec<u8>, Error>)
    ensures
        bytes_view(r) == encoded(s@),
        all_ascii(s@) ==> bytes_view(r) == Ok::<Seq<u8>, Error>(ascii_bytes(s@)),
{
    match to_cp437(string_of(s)) {
        Some(b) => Ok(b),
        None => Err(Error::Encoding),
    }
}

fn text_bytes(
    content: &String,
    markdown: bool,
    font: Font,
    justification: Justification,
    replacements: &Option<Vec<String>>,
    p: &PrinterProfile,
    d: &PrintData,
) -> (r: Result<Vec<u8>, Error>)
    ensures
        bytes_view(r) == text_spec(content@, markdown, font, justification, *replacements, *p, *d),
{
    proof {
        reveal(text_spec);
    }
    let w = match p.columns_for(font) {
        Some(w) => w as usize,
        None => { return Err(Error::NoWidth); },
    };
    if markdown {
        return Err(Error::WrongMarkdown);
    }
    let c = chars_of(content.as_str());
    let replaced = match replacements {
        Some(keys) => replace_keys(&c, keys, d)?,
        None => {
            assert(apply_replacements(c@, Seq::<String>::empty(), *d) == Ok::<Seq<char>, Error>(c@));
            c
        },
    };
    let words = split_words(&replaced);
    let lines = pack_words(&words, w);
    let mut body: Vec<char> = Vec::new();
    let mut i: usize = 0;
    while i < lines.len()
        invariant
            i <= lines.len(),
            body@ == text_lines(lines_view(lines@.subrange(0, i as int)), w as int, justification),
        decreases lines.len() - i,
    {
        assert(lines_view(lines@.subrange(0, i + 1)).drop_last() =~= lines_view(lines@.subrange(0, i as int)));
        push_justified(&mut body, &lines[i], w, justification);
        i = i + 1;
    }
    assert(lines@.subrange(0, lines.len() as int) =~= lines@);
    let enc = encode(&body)?;
    let mut out = Command::SelectFont { font }.as_bytes();
    let mut reset = Command::Reset.as_bytes();
    out.append(&mut reset);
    let mut enc = enc;
    out.append(&mut enc);
    Ok(out)
}

/// Text transcoded to code page 437.
pub fn encode_cp437(s: &str) -> (r: Result<Vec<u8>, Error>)
    ensures
        bytes_view(r) == encoded(s@),
        all_ascii(s@) ==> bytes_view(r) == Ok::<Seq<u8>, Error>(ascii_bytes(s@)),
{
    encode(&chars_of(s))
}

fn dash_line(w: usize) -> (r: Vec<char>)
    ensures
        r@ == division_line(dash(), w as int),
{
    let mut d: Vec<char> = Vec::new();
    d.push('-');
    assert(d@ =~= seq!['-']);
    division_chars(&d, w)
}

fn duo_bytes(name: &String, header: &(String, String), font: Font, p: &PrinterProfile, d: &PrintData) -> (r: Result<Vec<u8>, Error>)
    ensures
        bytes_view(r) == duo_spec(*name, *header, font, *p, *d),
{
    proof {
        reveal(duo_spec);
    }
    let w = match p.columns_for(font) {
        Some(w) => w as usize,
        None => { return Err(Error::NoWidth); },
    };
    let tables = match d.duo_tables() {
        Some(t) => t,
        None => { return Err(Error::NoTables); },
    };
    let rows = match find_key(tables, name) {
        Some(j) => &tables[j].1,
        None => { return Err(Error::NoTableFound(name.clone())); },
    };
    let mut out: Vec<char> = Vec::new();
    push_duo_line(&mut out, &chars_of(header.0.as_str()), &chars_of(header.1.as_str()), w, true);
    push_chars(&mut out, &dash_line(w));
    let ghost start = out@;
    let mut i: usize = 0;
    while i < rows.len()
        invariant
            i <= rows.len(),
            out@ == start + duo_rows(duo_view(rows@.subrange(0, i as int)), w as int),
        decreases rows.len() - i,
    {
        let a = chars_of(rows[i].0.as_str());
        let b = chars_of(rows[i].1.as_str());
        push_duo_line(&mut out, &a, &b, w, false);
        i = i + 1;
        assert(duo_view(rows@.subrange(0, i as int)).drop_last() =~= duo_view(rows@.subrange(0, i - 1)));
    }
    assert(rows@.subrange(0, rows.len() as int) =~= rows@);
    encode(&out)
}

fn header_cells(header: &(String, String, String)) -> (r: (Vec<char>, Vec<char>, Vec<char>))
    ensures
        (r.0@, r.1@, r.2@) == (header.0@, header.1@, header.2@),
{
    (chars_of(header.0.as_str()), chars_of(header.1.as_str()), chars_of(header.2.as_str()))
}

fn trio_bytes(name: &String, header: &(String, String, String), p: &PrinterProfile, d: &PrintData) -> (r: Result<Vec<u8>, Error>)
    ensures
        bytes_view(r) == trio_spec(*name, *header, *p, *d),
{
    proof {
        reveal(trio_spec);
    }
    let tables = match d.trio_tables() {
        Some(t) => t,
        None => { return Err(Error::NoTables); },
    };
    let rows = match find_key(tables, name) {
        Some(j) => &tables[j].1,
        None => { return Err(Error::NoTableFound(name.clone())); },
    };
    let w = match p.columns_for(Font::FontA) {
        Some(w) => w as usize,
        None => { return Err(Error::NoWidth); },
    };
    let mut cells: Vec<(Vec<char>, Vec<char>, Vec<char>)> = Vec::new();
    let mut i: usize = 0;
    while i < rows.len()
        invariant
            i <= rows.len(),
            cells@.len() == i,
            forall|j: int| 0 <= j < i ==> (#[trigger] cells@[j]).0@ == rows@[j].0@ && cells@[j].1@ == rows@[j].1@ && cells@[j].2@ == rows@[j].2@,
        decreases rows.len() - i,
    {
        cells.push((chars_of(rows[i].0.as_str()), chars_of(rows[i].1.as_str()), chars_of(rows[i].2.as_str())));
        i = i + 1;
    }
    assert(cells_view(cells@) =~= trio_view(rows@));
    let h = header_cells(header);
    let mut out: Vec<char> = Vec::new();
    crate::formatter::push_trio_table(&mut out, &h, &cells, &dash_line(w), w);
    encode(&out)
}

fn quad_bytes(name: &String, header: &(String, String, String), p: &PrinterProfile, d: &PrintData) -> (r: Result<Vec<u8>, Error>)
    ensures
        bytes_view(r) == quad_spec(*name, *header, *p, *d),
{
    proof {
        reveal(quad_spec);
    }
    let tables = match d.quad_tables() {
        Some(t) => t,
        None => { return Err(Error::NoTables); },
    };
    let rows = match find_key(tables, name) {
        Some(j) => &tables[j].1,
        None => { return Err(Error::NoTableFound(name.clone())); },
    };
    let w = match p.columns_for(Font::FontA) {
        Some(w) => w as usize,
        None => { return Err(Error::NoWidth); },
    };
    let mut cells: Vec<(Vec<char>, Vec<char>, Vec<char>)> = Vec::new();
    let mut i: usize = 0;
    while i < rows.len()
        invariant
            i <= rows.len(),
            cells@.len() == i,
            forall|j: int| 0 <= j < i ==> (#[trigger] cells@[j]).0@ == rows@[j].1@ && cells@[j].1@ == rows@[j].2@ && cells@[j].2@ == rows@[j].3@,
        decreases rows.len() - i,
    {
        cells.push((chars_of(rows[i].1.as_str()), chars_of(rows[i].2.as_str()), chars_of(rows[i].3.as_str())));
        i = i + 1;
    }
    assert(cells_view(cells@) =~= quad_cols(rows@));
    let h = header_cells(header);
    let (l, r) = trio_layout_exec(&h, &cells, w);
    let mut head: Vec<char> = Vec::new();
    push_trio_line(&mut head, &h.0, &h.1, &h.2, w, l, r);
    push_chars(&mut head, &dash_line(w));
    let mut out = encode(&head)?;
    let ghost start = out@;
    assert(rows@.subrange(0, 0) =~= Seq::<Quad>::empty());
    assert(out@.subrange(start.len() as int, out@.len() as int) =~= Seq::<u8>::empty());
    assert(out@.subrange(0, start.len() as int) =~= start);
    let mut i: usize = 0;
    while i < rows.len()
        invariant
            i <= rows.len(),
            l + r <= w,
            cells@.len() == rows@.len(),
            cells_view(cells@) == quad_cols(rows@),
            quad_spec(*name, *header, *p, *d) == (match quad_rows(rows@, w as int, l as int, r as int) {
                Err(e) => Err(e),
                Ok(body) => Ok::<Seq<u8>, Error>(start + body),
            }),
            quad_rows(rows@.subrange(0, i as int), w as int, l as int, r as int) == Ok::<Seq<u8>, Error>(out@.subrange(start.len() as int, out@.len() as int)),
            out@.subrange(0, start.len() as int) == start,
            start.len() <= out@.len(),
        decreases rows.len() - i,
    {
        assert(rows@.subrange(0, i + 1).drop_last() =~= rows@.subrange(0, i as int));
        assert(rows@.subrange(0, i + 1).last() == rows@[i as int]);
        assert(cells_view(cells@)[i as int] == quad_cols(rows@)[i as int]);
        let ghost before = out@;
        let mut label = chars_of(rows[i].0.as_str());
        label.push('\n');
        let mut lb = match encode(&label) {
            Ok(b) => b,
            Err(e) => {
                proof { lemma_quad_prefix_err(rows@, w as int, l as int, r as int, i as int + 1, e); }
                return Err(e);
            },
        };
        let mut cols: Vec<char> = Vec::new();
        push_trio_line(&mut cols, &cells[i].0, &cells[i].1, &cells[i].2, w, l, r);
        let mut cb = match encode(&cols) {
            Ok(b) => b,
            Err(e) => {
                proof { lemma_quad_prefix_err(rows@, w as int, l as int, r as int, i as int + 1, e); }
                return Err(e);
            },
        };
        let mut fb = Command::SelectFont { font: Font::FontB }.as_bytes();
        let mut fa = Command::SelectFont { font: Font::FontA }.as_bytes();
        out.append(&mut fb);
        out.append(&mut lb);
        out.append(&mut fa);
        out.append(&mut cb);
        i = i + 1;
        assert(out@.subrange(start.len() as int, out@.len() as int) =~= before.subrange(start.len() as int, before.len() as int)
            + command_bytes(Command::SelectFont { font: Font::FontB }) + encoded(rows@[i - 1].0@.push('\n'))->Ok_0
            + command_bytes(Command::SelectFont { font: Font::FontA }) + encoded(trio_line(rows@[i - 1].1@, rows@[i - 1].2@, rows@[i - 1].3@, w as int, l as int, r as int))->Ok_0);
        assert(out@.subrange(0, start.len() as int) =~= before.subrange(0, start.len() as int));
    }
    assert(rows@.subrange(0, rows.len() as int) =~= rows@);
    assert(out@ =~= start + out@.subrange(start.len() as int, out@.len() as int));
    Ok(out)
}

proof fn lemma_quad_prefix_err(rows: Seq<Quad>, w: int, l: int, r: int, n: int, e: Error)
    requires
        0 <= n <= rows.len(),
        quad_rows(rows.subrange(0, n), w, l, r) == Err::<Seq<u8>, Error>(e),
    ensures
        quad_rows(rows, w, l, r) == Err::<Seq<u8>, Error>(e),
    decreases rows.len() - n,
{
    if n == rows.len() {
        assert(rows.subrange(0, n) =~= rows);
    } else {
        assert(rows.subrange(0, n + 1).drop_last() =~= rows.subrange(0, n));
        lemma_quad_prefix_err(rows, w, l, r, n + 1, e);
    }
}

fn qr_bytes(name: &String, p: &PrinterProfile, d: &PrintData) -> (r: Result<Vec<u8>, Error>)
    ensures
        bytes_view(r) == qr_spec(*name, *p, *d),
{
    proof {
        reveal(qr_spec);
    }
    let contents = match d.qr_contents() {
        Some(t) => t,
        None => { return Err(Error::NoQrContents); },
    };
    let content = match find_key(contents, name) {
        Some(j) => &contents[j].1,
        None => { return Err(Error::NoQrContent(name.clone())); },
    };
    let (w, h, px) = match qr_raw(content.as_str()) {
        Some(t) => t,
        None => { return Err(Error::QrCodeError); },
    };
    let mode = match p.image_mode() {
        Some(m) => m,
        None => { return Err(Error::NoImageModeFound); },
    };
    let bitmap = Bitmap { width: w, height: h, pixels: px };
    let shown = compose(bitmap, QR_SCALE, Justification::Center);
    Ok(rasterize(&shown, mode, p.width()))
}

proof fn lemma_ser_seq_prefix_err(s: Seq<Instruction>, p: PrinterProfile, d: PrintData, n: int, e: Error)
    requires
        0 <= n <= s.len(),
        ser_seq(s.subrange(0, n), p, d) == Err::<Seq<u8>, Error>(e),
    ensures
        ser_seq(s, p, d) == Err::<Seq<u8>, Error>(e),
    decreases s.len() - n,
{
    if n == s.len() {
        assert(s.subrange(0, n) =~= s);
    } else {
        assert(s.subrange(0, n + 1).subrange(0, n) =~= s.subrange(0, n));
        lemma_ser_seq_prefix_err(s, p, d, n + 1, e);
    }
}

impl Instruction {
    /// Whether the instruction is a compound.
    pub fn is_compound(&self) -> (r: bool)
        ensures
            r == (*self is Compound),
    {
        match self {
            Instruction::Compound { .. } => true,
            _ => false,
        }
    }

    /// Whether the instruction is text.
    pub fn is_text(&self) -> (r: bool)
        ensures
            r == (*self is Text),
    {
        match self {
            Instruction::Text { .. } => true,
            _ => false,
        }
    }

    /// The sequence of `self` then `rhs`; compounds are flattened one level.
    pub fn add(self, rhs: Instruction) -> (r: Instruction)
        ensures
            r is Compound,
            parts(r) == parts(self) + parts(rhs),
    {
        let ghost ps = parts(self);
        let ghost pr = parts(rhs);
        let mut left: Vec<Instruction> = match self {
            Instruction::Compound { instructions } => instructions,
            other => {
                let mut v: Vec<Instruction> = Vec::new();
                v.push(other);
                assert(v@ =~= seq![other]);
                v
            },
        };
        let mut right: Vec<Instruction> = match rhs {
            Instruction::Compound { instructions } => instructions,
            other => {
                let mut v: Vec<Instruction> = Vec::new();
                v.push(other);
                assert(v@ =~= seq![other]);
                v
            },
        };
        assert(left@ == ps && right@ == pr);
        left.append(&mut right);
        Instruction::Compound { instructions: left }
    }

    /// Appends `other` to `self`, making `self` a compound.
    pub fn add_assign(&mut self, other: Instruction)
        ensures
            *final(self) is Compound,
            parts(*final(self)) == parts(*old(self)) + parts(other),
    {
        let mut current = Instruction::Cut;
        std::mem::swap(&mut current, self);
        *self = current.add(other);
    }

    /// Text in `font`, justified and wrapped to the font's width; each key of
    /// `replacements` is replaced at print time.
    pub fn text(content: &str, font: Font, justification: Justification, replacements: Option<Vec<String>>) -> (r: Instruction)
        ensures
            r == (Instruction::Text { content: r->Text_content, markdown: false, font, justification, replacements }),
            r->Text_content@ == content@,
    {
        Instruction::Text { content: content.to_owned(), markdown: false, font, justification, replacements }
    }

    /// Markdown text; rendering markdown is not supported, so it serializes to an error.
    pub fn markdown(content: String, font: Font, justification: Justification, replacements: Option<Vec<String>>) -> (r: Instruction)
        ensures
            r == (Instruction::Text { content, markdown: true, font, justification, replacements }),
    {
        Instruction::Text { content, markdown: true, font, justification, replacements }
    }

    /// An image decoded from an image file, scaled to `scale / 255` of its width.
    pub fn image(source: Vec<u8>, scale: u8, justification: Justification) -> (r: Result<Instruction, Error>)
        ensures
            r is Ok <==> takes_image(source@, scale as int),
            r matches Ok(i) ==> i is Image && i->image.spec_cache().len() == 0
                && i->image.spec_bitmap().pixels@ == taken_pixels(source@, scale as int, justification),
            r matches Err(e) ==> e is ImageError,
    {
        let bitmap = match decode_bitmap_checked(&source) {
            Ok(b) => b,
            Err(e) => {
                return Err(e);
            },
        };
        match EscposImage::new(bitmap, scale, justification) {
            Ok(img) => Ok(Instruction::Image { image: img }),
            Err(e) => Err(e),
        }
    }

    /// A fixed QR code of `content`, at half width and centred.
    pub fn qr_code(content: &str) -> (r: Result<Instruction, Error>)
        ensures
            r is Ok <==> qr_fits(content@),
            r matches Ok(i) ==> i is Image && i->image.spec_cache().len() == 0 && ({
                let (w, h, px) = qr_rendered(content@)->Some_0;
                i->image.spec_bitmap().pixels@ == composed_px(px, w, h, QR_SCALE as int, Justification::Center)
            }),
            r matches Err(e) ==> e is QrCodeError || e is ImageError,
    {
        let (w, h, px) = match qr_raw(content) {
            Some(t) => t,
            None => { return Err(Error::QrCodeError); },
        };
        match EscposImage::new(Bitmap { width: w, height: h, pixels: px }, QR_SCALE, Justification::Center) {
            Ok(img) => Ok(Instruction::Image { image: img }),
            Err(e) => Err(e),
        }
    }

    /// A QR code whose payload is looked up by `name` at print time.
    pub fn dynamic_qr_code(name: &str) -> (r: Instruction)
        ensures
            r is QRCode && r->QRCode_name@ == name@,
    {
        Instruction::QRCode { name: name.to_owned() }
    }

    /// A raw command.
    pub fn command(command: Command) -> (r: Instruction)
        ensures
            r == (Instruction::Command { command }),
    {
        Instruction::Command { command }
    }

    /// A two-column table filled from the print data table `name`.
    pub fn duo_table(name: String, header: (String, String), font: Font) -> (r: Instruction)
        ensures
            r == (Instruction::DuoTable { name, header, font }),
    {
        Instruction::DuoTable { name, header, font }
    }

    /// A three-column table filled from the print data table `name`.
    pub fn trio_table(name: String, header: (String, String, String)) -> (r: Instruction)
        ensures
            r == (Instruction::TrioTable { name, header }),
    {
        Instruction::TrioTable { name, header }
    }

    /// A three-column table with a label line per row, from the print data table `name`.
    pub fn quad_table(name: String, header: (String, String, String)) -> (r: Instruction)
        ensures
            r == (Instruction::QuadTable { name, header }),
    {
        Instruction::QuadTable { name, header }
    }

    pub fn cut() -> (r: Instruction)
        ensures
            r == Instruction::Cut,
    {
        Instruction::Cut
    }

    /// Feeds `lines` blank lines.
    pub fn vspace(lines: u8) -> (r: Instruction)
        ensures
            r == (Instruction::VSpace { lines }),
    {
        Instruction::VSpace { lines }
    }

    /// Compiles the instruction into printer bytes, or the first error met.
    pub fn to_vec(&self, printer_profile: &PrinterProfile, print_data: &PrintData) -> (r: Result<Vec<u8>, Error>)
        ensures
            bytes_view(r) == ser(*self, *printer_profile, *print_data),
        decreases self,
    {
        let p = printer_profile;
        let d = print_data;
        match self {
            Instruction::Compound { instructions } => {
                let mut out: Vec<u8> = Vec::new();
                let mut failed: Option<Error> = None;
                let mut k: usize = 0;
                assert(instructions@.subrange(0, 0) =~= Seq::<Instruction>::empty());
                while k < instructions.len() && failed.is_none()
                    invariant
                        k <= instructions.len(),
                        *self == (Instruction::Compound { instructions: *instructions }),
                        failed is None ==> ser_seq(instructions@.subrange(0, k as int), *p, *d) == Ok::<Seq<u8>, Error>(out@),
                        failed matches Some(e) ==> ser_seq(instructions@, *p, *d) == Err::<Seq<u8>, Error>(e),
                    decreases instructions.len() - k + if failed is None { 1int } else { 0int },
                {
                    proof {
                        assert(instructions@.subrange(0, k + 1).subrange(0, k as int) =~= instructions@.subrange(0, k as int));
                        assert(instructions@.subrange(0, k + 1)[k as int] == instructions@[k as int]);
                        assert(decreases_to!(*self => self->instructions));
                        assert(decreases_to!(self->instructions => self->instructions@));
                        assert(decreases_to!(self->instructions@ => self->instructions@[k as int]));
                        assert(decreases_to!(*self => instructions@[k as int]));
                    }
                    match instructions[k].to_vec(p, d) {
                        Ok(mut b) => {
                            out.append(&mut b);
                            k = k + 1;
                        },
                        Err(e) => {
                            proof {
                                lemma_ser_seq_prefix_err(instructions@, *p, *d, k + 1, e);
                            }
                            failed = Some(e);
                        },
                    }
                }
                match failed {
                    Some(e) => Err(e),
                    None => {
                        assert(instructions@.subrange(0, instructions.len() as int) =~= instructions@);
                        Ok(out)
                    },
                }
            },
            Instruction::Command { command } => Ok(command.as_bytes()),
            Instruction::VSpace { lines } => {
                let mut out: Vec<u8> = Vec::new();
                let mut k: u8 = 0;
                while k < *lines
                    invariant
                        k <= *lines,
                        out@ == Seq::new(k as nat, |i: int| 10u8),
                    decreases *lines - k,
                {
                    out.push(10u8);
                    k = k + 1;
                    assert(out@ =~= Seq::new(k as nat, |i: int| 10u8));
                }
                Ok(out)
            },
            Instruction::Text { content, markdown, font, justification, replacements } =>
                text_bytes(content, *markdown, *font, *justification, replacements, p, d),
            Instruction::DuoTable { name, header, font } => duo_bytes(name, header, *font, p, d),
            Instruction::TrioTable { name, header } => trio_bytes(name, header, p, d),
            Instruction::QuadTable { name, header } => quad_bytes(name, header, p, d),
            Instruction::Image { image } => match p.image_mode() {
                Some(m) => Ok(image.feed(m, p.width())),
                None => Err(Error::NoImageModeFound),
            },
            Instruction::QRCode { name } => qr_bytes(name, p, d),
            Instruction::Cut => Ok(Command::Cut.as_bytes()),
        }
    }
}

/// Two instructions with the same contents.
pub open spec fn same(a: Instruction, b: Instruction) -> bool
    decreases a,
{
    match a {
        Instruction::Compound { instructions } => b is Compound && same_seq(instructions@, b->instructions@),
        Instruction::Text { content, markdown, font, justification, replacements } => match b {
            Instruction::Text { content: c2, markdown: m2, font: f2, justification: j2, replacements: r2 } =>
                content@ == c2@ && markdown == m2 && font == f2 && justification == j2 && keys_view(replacements) == keys_view(r2),
            _ => false,
        },
        Instruction::Image { image } => b is Image && same_image(image, b->image),
        _ => a == b,
    }
}

pub open spec fn same_seq(s: Seq<Instruction>, t: Seq<Instruction>) -> bool
    decreases s,
{
    s.len() == t.len() && (s.len() == 0 || (same_seq(s.subrange(0, s.len() - 1), t.subrange(0, t.len() - 1))
        && same(s[s.len() - 1], t[t.len() - 1])))
}

pub open spec fn keys_view(k: Option<Vec<String>>) -> Option<Seq<String>> {
    match k {
        Some(v) => Some(v@),
        None => None,
    }
}

fn clone_keys(k: &Option<Vec<String>>) -> (r: Option<Vec<String>>)
    ensures
        keys_view(r) == keys_view(*k),
{
    match k {
        None => None,
        Some(v) => {
            let mut out: Vec<String> = Vec::new();
            let mut i: usize = 0;
            while i < v.len()
                invariant
                    i <= v.len(),
                    out@ == v@.subrange(0, i as int),
                decreases v.len() - i,
            {
                out.push(v[i].clone());
                i = i + 1;
                assert(v@.subrange(0, i as int) =~= v@.subrange(0, i - 1).push(v@[i - 1]));
            }
            assert(v@.subrange(0, v.len() as int) =~= v@);
            Some(out)
        },
    }
}

impl Clone for Instruction {
    fn clone(&self) -> (r: Instruction)
        ensures
            same(r, *self),
        decreases self,
    {
        match self {
            Instruction::Compound { instructions } => {
                let mut v: Vec<Instruction> = Vec::new();
                let mut k: usize = 0;
                assert(instructions@.subrange(0, 0) =~= Seq::<Instruction>::empty());
                while k < instructions.len()
                    invariant
                        k <= instructions.len(),
                        *self == (Instruction::Compound { instructions: *instructions }),
                        same_seq(v@, instructions@.subrange(0, k as int)),
                    decreases instructions.len() - k,
                {
                    proof {
                        assert(decreases_to!(*self => self->instructions));
                        assert(decreases_to!(self->instructions => self->instructions@));
                        assert(decreases_to!(self->instructions@ => self->instructions@[k as int]));
                    }
                    let ghost before = v@;
                    v.push(instructions[k].clone());
                    k = k + 1;
                    assert(v@.subrange(0, v@.len() - 1) =~= before);
                    assert(instructions@.subrange(0, k as int).subrange(0, k - 1) =~= instructions@.subrange(0, k - 1));
                }
                assert(instructions@.subrange(0, instructions.len() as int) =~= instructions@);
                Instruction::Compound { instructions: v }
            },
            Instruction::Command { command } => Instruction::Command { command: *command },
            Instruction::VSpace { lines } => Instruction::VSpace { lines: *lines },
            Instruction::Text { content, markdown, font, justification, replacements } => Instruction::Text {
                content: content.clone(),
                markdown: *markdown,
                font: *font,
                justification: *justification,
                replacements: clone_keys(replacements),
            },
            Instruction::DuoTable { name, header, font } => Instruction::DuoTable {
                name: name.clone(),
                header: (header.0.clone(), header.1.clone()),
                font: *font,
            },
            Instruction::TrioTable { name, header } => Instruction::TrioTable {
                name: name.clone(),
                header: (header.0.clone(), header.1.clone(), header.2.clone()),
            },
            Instruction::QuadTable { name, header } => Instruction::QuadTable {
                name: name.clone(),
                header: (header.0.clone(), header.1.clone(), header.2.clone()),
            },
            Instruction::Image { image } => Instruction::Image { image: image.clone() },
            Instruction::QRCode { name } => Instruction::QRCode { name: name.clone() },
            Instruction::Cut => Instruction::Cut,
        }
    }
}

impl std::ops::Add for Instruction {
    type Output = Instruction;

    /// `a + b` is [Instruction::add].
    fn add(self, rhs: Instruction) -> Instruction {
        Instruction::add(self, rhs)
    }
}

impl vstd::std_specs::ops::AddSpecImpl for Instruction {
    /// The operator carries no contract of its own: what `+` returns is
    /// stated by [Instruction::add].
    open spec fn obeys_add_spec() -> bool {
        false
    }

    open spec fn add_req(self, rhs: Instruction) -> bool {
        true
    }

    open spec fn add_spec(self, rhs: Instruction) -> Instruction {
        vstd::pervasive::arbitrary()
    }
}

impl std::ops::AddAssign for Instruction {
    /// `a += b` is [Instruction::add_assign].
    fn add_assign(&mut self, other: Instruction) {
        Instruction::add_assign(self, other)
    }
}

/// Adding flattens compounds: two plain instructions make a compound of
/// both, and a compound plus a plain instruction gains it at the end.
pub proof fn lemma_add_flattens(a: Instruction, b: Instruction, c: Instruction, ab: Instruction, abc: Instruction)
    requires
        !(a is Compound),
        !(b is Compound),
        !(c is Compound),
        ab is Compound && parts(ab) == parts(a) + parts(b),
        abc is Compound && parts(abc) == parts(ab) + parts(c),
    ensures
        ab->instructions@ == seq![a, b],
        abc->instructions@ == seq![a, b, c],
{
    assert(parts(a) + parts(b) =~= seq![a, b]);
    assert(seq![a, b] + seq![c] =~= seq![a, b, c]);
}

/// Adding is associative: the flattened sequence does not depend on grouping.
pub proof fn lemma_add_associative(a: Instruction, b: Instruction, c: Instruction, ab: Instruction, bc: Instruction, ab_c: Instruction, a_bc: Instruction)
    requires
        ab is Compound && parts(ab) == parts(a) + parts(b),
        bc is Compound && parts(bc) == parts(b) + parts(c),
        ab_c is Compound && parts(ab_c) == parts(ab) + parts(c),
        a_bc is Compound && parts(a_bc) == parts(a) + parts(bc),
    ensures
        parts(ab_c) == parts(a_bc),
{
    assert(parts(a) + parts(b) + parts(c) =~= parts(a) + (parts(b) + parts(c)));
}

/// A two-column table against print data without tables fails with
/// `NoTables`; a text whose replacement key has no value fails naming that key.
pub proof fn lemma_missing_data_errors(
    name: String,
    header: (String, String),
    font: Font,
    content: String,
    justification: Justification,
    key: String,
    keys: Vec<String>,
    p: PrinterProfile,
    d: PrintData,
)
    requires
        keys@ == seq![key],
        font_width(p.spec_columns(), font) is Some,
    ensures
        d.spec_duo_tables() is None ==> ser(Instruction::DuoTable { name, header, font }, p, d) == Err::<Seq<u8>, Error>(Error::NoTables),
        lookup_in(d.spec_replacements(), key@) is None ==> ser(
            Instruction::Text { content, markdown: false, font, justification, replacements: Some(keys) },
            p,
            d,
        ) == Err::<Seq<u8>, Error>(Error::NoReplacementFound(key)),
{
    reveal(duo_spec);
    reveal(text_spec);
    assert(keys@.drop_last() =~= Seq::<String>::empty());
    assert(apply_replacements(content@, keys@.drop_last(), d) == Ok::<Seq<char>, Error>(content@));
}

} // verus!
