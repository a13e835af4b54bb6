//! Width-aware word wrapping and fixed-width table layout.
use vstd::prelude::*;
use crate::text::{
    chars_of, string_of, pad_left, pad_right, pad_center, fit, sub0, push_chars,
    push_pad_left, push_pad_right, push_pad_center, fit_chars, lemma_fit_len,
};

verus! {

/// Horizontal alignment of text within the line width.
#[derive(Clone, Copy, Debug, PartialEq, Eq, Structural)]
pub enum Justification {
    Left,
    Center,
    Right,
}

/// Whitespace that separates words: the Unicode `White_Space` characters.
pub open spec fn is_space(c: char) -> bool {
    let u = c as u32;
    (0x09 <= u && u <= 0x0d) || u == 0x20 || u == 0x85 || u == 0xa0 || u == 0x1680
        || (0x2000 <= u && u <= 0x200a) || u == 0x2028 || u == 0x2029 || u == 0x202f
        || u == 0x205f || u == 0x3000
}

/// Whether `c` separates words.
pub fn is_space_char(c: char) -> (r: bool)
    ensures
        r == is_space(c),
{
    let u = c as u32;
    (0x09 <= u && u <= 0x0d) || u == 0x20 || u == 0x85 || u == 0xa0 || u == 0x1680
        || (0x2000 <= u && u <= 0x200a) || u == 0x2028 || u == 0x2029 || u == 0x202f
        || u == 0x205f || u == 0x3000
}

/// Words found so far, and the word being read, after reading `s`.
pub open spec fn word_state(s: Seq<char>) -> (Seq<Seq<char>>, Seq<char>)
    decreases s.len(),
{
    if s.len() == 0 {
        (Seq::empty(), Seq::empty())
    } else {
        let (done, cur) = word_state(s.drop_last());
        if is_space(s.last()) {
            if cur.len() > 0 {
                (done.push(cur), Seq::empty())
            } else {
                (done, cur)
            }
        } else {
            (done, cur.push(s.last()))
        }
    }
}

/// The maximal runs of non-whitespace characters of `s`, in order.
pub open spec fn words_of(s: Seq<char>) -> Seq<Seq<char>> {
    let (done, cur) = word_state(s);
    if cur.len() > 0 {
        done.push(cur)
    } else {
        done
    }
}

/// `w` cut into pieces of `width` characters (the last one may be shorter).
pub open spec fn chunks(w: Seq<char>, width: int) -> Seq<Seq<char>>
    decreases w.len(),
{
    if width <= 0 || w.len() <= width {
        seq![w]
    } else {
        seq![w.subrange(0, width)] + chunks(w.subrange(width, w.len() as int), width)
    }
}

/// One step of greedy packing: add word `w` to the finished lines and the open line.
pub open spec fn pack_step(
    done: Seq<Seq<char>>,
    cur: Seq<char>,
    w: Seq<char>,
    width: int,
) -> (Seq<Seq<char>>, Seq<char>) {
    if cur.len() + w.len() + 1 < width {
        (done, if cur.len() == 0 { w } else { cur + seq![' '] + w })
    } else {
        let done2 = if cur.len() > 0 { done.push(cur) } else { done };
        if w.len() < width {
            (done2, w)
        } else {
            (done2 + chunks(w, width), Seq::empty())
        }
    }
}

pub open spec fn pack_state(words: Seq<Seq<char>>, width: int) -> (Seq<Seq<char>>, Seq<char>)
    decreases words.len(),
{
    if words.len() == 0 {
        (Seq::empty(), Seq::empty())
    } else {
        let (done, cur) = pack_state(words.drop_last(), width);
        pack_step(done, cur, words.last(), width)
    }
}

/// The lines that greedy packing of `words` into `width` columns produces.
pub open spec fn packed_lines(words: Seq<Seq<char>>, width: int) -> Seq<Seq<char>> {
    let (done, cur) = pack_state(words, width);
    if cur.len() > 0 {
        done.push(cur)
    } else {
        done
    }
}

/// The lines joined with newlines.
pub open spec fn join_lines(lines: Seq<Seq<char>>) -> Seq<char>
    decreases lines.len(),
{
    if lines.len() == 0 {
        Seq::empty()
    } else if lines.len() == 1 {
        lines[0]
    } else {
        join_lines(lines.drop_last()) + seq!['\n'] + lines.last()
    }
}

pub open spec fn ends_with_newline(s: Seq<char>) -> bool {
    s.len() > 0 && s.last() == '\n'
}

/// Word-wrapped text: the words of `s` packed into `width` columns, one line
/// per row, with a final newline exactly where `s` ends with one.
pub open spec fn space_split_spec(s: Seq<char>, width: int) -> Seq<char> {
    join_lines(packed_lines(words_of(s), width)) + if ends_with_newline(s) {
        seq!['\n']
    } else {
        Seq::empty()
    }
}

/// A table header or row of two columns: `b` right-aligned to the edge and at
/// least one space between; where they do not fit, `b` is cut first to
/// `width - 4` characters, then `a` to what remains.
pub open spec fn duo_line(a: Seq<char>, b: Seq<char>, width: int, marker: bool) -> Seq<char> {
    if a.len() + b.len() < width {
        a + seq![' '] + pad_left(b, width - a.len() - 1) + seq!['\n']
    } else {
        let b2 = fit(b, sub0(width, 4), marker);
        let a2 = fit(a, sub0(width - b2.len(), 1), marker);
        a2 + seq![' '] + pad_left(b2, width - a2.len() - 1) + seq!['\n']
    }
}

/// The separator between a table header and its rows.
pub open spec fn division_line(pattern: Option<Seq<char>>, width: int) -> Seq<char> {
    match pattern {
        None => Seq::empty(),
        Some(p) => if p.len() == 0 {
            seq!['\n']
        } else {
            Seq::new(width as nat, |i: int| p[i % (p.len() as int)]).push('\n')
        },
    }
}

pub open spec fn duo_rows(rows: Seq<(Seq<char>, Seq<char>)>, width: int) -> Seq<char>
    decreases rows.len(),
{
    if rows.len() == 0 {
        Seq::empty()
    } else {
        duo_rows(rows.drop_last(), width) + duo_line(rows.last().0, rows.last().1, width, false)
    }
}

/// Widths of the left and right columns of a three-column table, from the
/// widest cell of each column: natural widths where they fit, else the left
/// column gives way while the other two fit in `width - 4`, else equal thirds.
pub open spec fn trio_limits(l: int, m: int, r: int, width: int) -> (int, int) {
    if l + m + r + 2 <= width {
        (l, r)
    } else if m + r + 4 <= width {
        (width - m - r - 2, r)
    } else {
        (width / 3, width / 3)
    }
}

/// A three-column line: left-aligned, centred (with a space on each side), right-aligned.
pub open spec fn trio_line(a: Seq<char>, b: Seq<char>, c: Seq<char>, width: int, l: int, r: int) -> Seq<char> {
    let mid = sub0(width, l + r);
    pad_right(fit(a, l, true), l) + pad_center(fit(b, sub0(mid, 2), true), mid) + pad_left(
        fit(c, r, true),
        r,
    ) + seq!['\n']
}

pub type Row3 = (Seq<char>, Seq<char>, Seq<char>);

pub open spec fn max_len(a: int, b: int) -> int {
    if a >= b { a } else { b }
}

/// The widest cell of each column over `rows`, starting from `init`.
pub open spec fn col_max(rows: Seq<Row3>, init: (int, int, int)) -> (int, int, int)
    decreases rows.len(),
{
    if rows.len() == 0 {
        init
    } else {
        let (l, m, r) = col_max(rows.drop_last(), init);
        let x = rows.last();
        (max_len(l, x.0.len() as int), max_len(m, x.1.len() as int), max_len(r, x.2.len() as int))
    }
}

/// Left and right column widths for a header and rows.
pub open spec fn trio_layout(header: Row3, rows: Seq<Row3>, width: int) -> (int, int) {
    let (l, m, r) = col_max(rows, (header.0.len() as int, header.1.len() as int, header.2.len() as int));
    trio_limits(l, m, r, width)
}

pub open spec fn trio_rows(rows: Seq<Row3>, width: int, l: int, r: int) -> Seq<char>
    decreases rows.len(),
{
    if rows.len() == 0 {
        Seq::empty()
    } else {
        trio_rows(rows.drop_last(), width, l, r) + trio_line(rows.last().0, rows.last().1, rows.last().2, width, l, r)
    }
}

/// Options to print tables.
#[derive(Clone, Debug)]
pub struct TableOptions {
    /// The pattern repeated between the header and the rows
    pub header_division_pattern: Option<String>,
    /// A pattern to bridge columns with
    pub join_columns_pattern: Option<String>,
}

pub open spec fn opt_view(o: Option<String>) -> Option<Seq<char>> {
    match o {
        Some(s) => Some(s@),
        None => None,
    }
}

pub open spec fn duo_view(rows: Seq<(String, String)>) -> Seq<(Seq<char>, Seq<char>)> {
    rows.map_values(|x: (String, String)| (x.0@, x.1@))
}

pub open spec fn trio_view(rows: Seq<(String, String, String)>) -> Seq<Row3> {
    rows.map_values(|x: (String, String, String)| (x.0@, x.1@, x.2@))
}

/// Lays out text and tables within a fixed number of columns.
pub struct Formatter {
    table_options: TableOptions,
    width: u8,
}

impl Formatter {
    pub closed spec fn spec_width(&self) -> int {
        self.width as int
    }

    pub closed spec fn spec_options(&self) -> TableOptions {
        self.table_options
    }

    /// A formatter for `width` columns, with `-` as the header division pattern.
    pub fn new(width: u8) -> (r: Formatter)
        ensures
            r.spec_width() == width,
            opt_view(r.spec_options().header_division_pattern) == Some(seq!['-']),
            r.spec_options().join_columns_pattern is None,
    {
        proof {
            reveal_strlit("-");
        }
        Formatter {
            table_options: TableOptions {
                header_division_pattern: Some("-".to_owned()),
                join_columns_pattern: None,
            },
            width,
        }
    }

    pub fn set_table_options(&mut self, table_options: TableOptions)
        ensures
            final(self).spec_options() == table_options,
            final(self).spec_width() == old(self).spec_width(),
    {
        self.table_options = table_options;
    }

    pub fn get_table_options(&self) -> (r: &TableOptions)
        ensures
            *r == self.spec_options(),
    {
        &self.table_options
    }

    /// Replaces the table options with what `modifier` makes of them.
    pub fn modify_table_options<F: FnOnce(TableOptions) -> TableOptions>(&mut self, modifier: F)
        requires
            call_requires(modifier, (old(self).spec_options(),)),
        ensures
            call_ensures(modifier, (old(self).spec_options(),), final(self).spec_options()),
            final(self).spec_width() == old(self).spec_width(),
    {
        let mut current = TableOptions { header_division_pattern: None, join_columns_pattern: None };
        std::mem::swap(&mut current, &mut self.table_options);
        self.table_options = modifier(current);
    }

    /// Wraps `source` at whitespace so that lines stay within the width.
    pub fn space_split(&self, source: &str) -> (r: String)
        ensures
            r@ == space_split_spec(source@, self.spec_width()),
    {
        let s = chars_of(source);
        let words = split_words(&s);
        let lines = pack_words(&words, self.width as usize);
        let mut out = join_chars(&lines);
        if s.len() > 0 && s[s.len() - 1] == '\n' {
            out.push('\n');
        }
        string_of(&out)
    }

    /// The header division line, if a pattern is set.
    pub fn print_header_division_pattern(&self) -> (r: Option<String>)
        ensures
            r is Some <==> self.spec_options().header_division_pattern is Some,
            r matches Some(x) ==> x@ == division_line(opt_view(self.spec_options().header_division_pattern), self.spec_width()),
    {
        match &self.table_options.header_division_pattern {
            None => None,
            Some(p) => {
                let pc = chars_of(p.as_str());
                let out = division_chars(&pc, self.width as usize);
                Some(string_of(&out))
            },
        }
    }

    /// A two-column table: the header (cut with a `.` marker where needed),
    /// the division line, then each row (cut without a marker).
    pub fn duo_table(&self, header: (String, String), rows: Vec<(String, String)>) -> (r: String)
        ensures
            r@ == duo_line(header.0@, header.1@, self.spec_width(), true)
                + division_line(opt_view(self.spec_options().header_division_pattern), self.spec_width())
                + duo_rows(duo_view(rows@), self.spec_width()),
    {
        let w = self.width as usize;
        let mut out: Vec<char> = Vec::new();
        push_duo_line(&mut out, &chars_of(header.0.as_str()), &chars_of(header.1.as_str()), w, true);
        let div = self.print_header_division_pattern();
        match &div {
            Some(d) => push_chars(&mut out, &chars_of(d.as_str())),
            None => {},
        }
        let ghost start = out@;
        let mut i: usize = 0;
        while i < rows.len()
            invariant
                i <= rows.len(),
                out@ == start + duo_rows(duo_view(rows@.subrange(0, i as int)), w as int),
            decreases rows.len() - i,
        {
            let a = chars_of(rows[i].0.as_str());
            let b = chars_of(rows[i].1.as_str());
            push_duo_line(&mut out, &a, &b, w, false);
            i = i + 1;
            assert(duo_view(rows@.subrange(0, i as int)).drop_last() =~= duo_view(rows@.subrange(0, i - 1)));
        }
        assert(rows@.subrange(0, rows.len() as int) =~= rows@);
        string_of(&out)
    }

    /// A three-column table: column widths from the widest cells, the header,
    /// the division line, then each row.
    pub fn trio_table(&self, header: (String, String, String), rows: Vec<(String, String, String)>) -> (r: String)
        ensures
            ({
                let h = (header.0@, header.1@, header.2@);
                let (l, rt) = trio_layout(h, trio_view(rows@), self.spec_width());
                r@ == trio_line(h.0, h.1, h.2, self.spec_width(), l, rt)
                    + division_line(opt_view(self.spec_options().header_division_pattern), self.spec_width())
                    + trio_rows(trio_view(rows@), self.spec_width(), l, rt)
            }),
    {
        let h = (chars_of(header.0.as_str()), chars_of(header.1.as_str()), chars_of(header.2.as_str()));
        let mut cells: Vec<(Vec<char>, Vec<char>, Vec<char>)> = Vec::new();
        let mut i: usize = 0;
        while i < rows.len()
            invariant
                i <= rows.len(),
                cells@.len() == i,
                forall|j: int| 0 <= j < i ==> (#[trigger] cells@[j]).0@ == rows@[j].0@ && cells@[j].1@ == rows@[j].1@ && cells@[j].2@ == rows@[j].2@,
            decreases rows.len() - i,
        {
            cells.push((chars_of(rows[i].0.as_str()), chars_of(rows[i].1.as_str()), chars_of(rows[i].2.as_str())));
            i = i + 1;
        }
        assert(cells_view(cells@) =~= trio_view(rows@));
        let mut out: Vec<char> = Vec::new();
        let div = self.print_header_division_pattern();
        let dc = match &div {
            Some(d) => chars_of(d.as_str()),
            None => Vec::new(),
        };
        push_trio_table(&mut out, &h, &cells, &dc, self.width as usize);
        string_of(&out)
    }
}

pub open spec fn cells_view(rows: Seq<(Vec<char>, Vec<char>, Vec<char>)>) -> Seq<Row3> {
    rows.map_values(|x: (Vec<char>, Vec<char>, Vec<char>)| (x.0@, x.1@, x.2@))
}

pub open spec fn lines_view(v: Seq<Vec<char>>) -> Seq<Seq<char>> {
    v.map_values(|x: Vec<char>| x@)
}

/// The words of `s`.
pub fn split_words(s: &Vec<char>) -> (r: Vec<Vec<char>>)
    ensures
        lines_view(r@) == words_of(s@),
{
    let mut done: Vec<Vec<char>> = Vec::new();
    let mut cur: Vec<char> = Vec::new();
    let mut i: usize = 0;
    while i < s.len()
        invariant
            i <= s.len(),
            (lines_view(done@), cur@) == word_state(s@.subrange(0, i as int)),
        decreases s.len() - i,
    {
        let c = s[i];
        assert(s@.subrange(0, i + 1).drop_last() =~= s@.subrange(0, i as int));
        if is_space_char(c) {
            if cur.len() > 0 {
                let ghost d0 = done@;
                done.push(cur);
                assert(lines_view(done@) =~= lines_view(d0).push(cur@));
                cur = Vec::new();
            }
        } else {
            cur.push(c);
        }
        i = i + 1;
    }
    assert(s@.subrange(0, s.len() as int) =~= s@);
    if cur.len() > 0 {
        let ghost d0 = done@;
        done.push(cur);
        assert(lines_view(done@) =~= lines_view(d0).push(cur@));
    }
    done
}

/// Appends the pieces of `w` cut every `width` characters.
fn push_chunks(done: &mut Vec<Vec<char>>, w: &Vec<char>, width: usize)
    requires
        width > 0,
    ensures
        lines_view(final(done)@) == lines_view(old(done)@) + chunks(w@, width as int),
{
    let mut start: usize = 0;
    let ghost d0 = lines_view(done@);
    assert(w@.subrange(0, w.len() as int) =~= w@);
    while w.len() - start > width
        invariant
            start <= w.len(),
            width > 0,
            d0 + chunks(w@, width as int) == lines_view(done@) + chunks(w@.subrange(start as int, w.len() as int), width as int),
        decreases w.len() - start,
    {
        let ghost rest = w@.subrange(start as int, w.len() as int);
        let mut piece: Vec<char> = Vec::new();
        let mut j: usize = start;
        while j < start + width
            invariant
                start <= j <= start + width,
                start + width < w.len(),
                piece@ == w@.subrange(start as int, j as int),
            decreases start + width - j,
        {
            piece.push(w[j]);
            j = j + 1;
            assert(w@.subrange(start as int, j as int) =~= w@.subrange(start as int, j - 1).push(w@[j - 1]));
        }
        let ghost dv = lines_view(done@);
        done.push(piece);
        assert(lines_view(done@) =~= dv.push(piece@));
        assert(rest.subrange(0, width as int) =~= piece@);
        assert(rest.subrange(width as int, rest.len() as int) =~= w@.subrange(start + width, w.len() as int));
        assert(chunks(rest, width as int) == seq![piece@] + chunks(w@.subrange(start + width, w.len() as int), width as int));
        assert(dv + chunks(rest, width as int) =~= dv.push(piece@) + chunks(w@.subrange(start + width, w.len() as int), width as int));
        start = start + width;
    }
    let mut last: Vec<char> = Vec::new();
    let mut j: usize = start;
    while j < w.len()
        invariant
            start <= j <= w.len(),
            last@ == w@.subrange(start as int, j as int),
        decreases w.len() - j,
    {
        last.push(w[j]);
        j = j + 1;
        assert(w@.subrange(start as int, j as int) =~= w@.subrange(start as int, j - 1).push(w@[j - 1]));
    }
    let ghost dv = lines_view(done@);
    done.push(last);
    assert(lines_view(done@) =~= dv.push(last@));
    assert(chunks(last@, width as int) == seq![last@]);
    assert(dv + seq![last@] =~= dv.push(last@));
}

/// Greedy packing of `words` into lines of `width` columns.
pub fn pack_words(words: &Vec<Vec<char>>, width: usize) -> (r: Vec<Vec<char>>)
    ensures
        lines_view(r@) == packed_lines(lines_view(words@), width as int),
{
    let mut done: Vec<Vec<char>> = Vec::new();
    let mut cur: Vec<char> = Vec::new();
    let mut i: usize = 0;
    while i < words.len()
        invariant
            i <= words.len(),
            (lines_view(done@), cur@) == pack_state(lines_view(words@.subrange(0, i as int)), width as int),
        decreases words.len() - i,
    {
        let w = &words[i];
        assert(lines_view(words@.subrange(0, i + 1)).drop_last() =~= lines_view(words@.subrange(0, i as int)));
        if cur.len() < width && w.len() < width - cur.len() && cur.len() + w.len() + 1 < width {
            if cur.len() == 0 {
                cur = w.clone();
            } else {
                cur.push(' ');
                push_chars(&mut cur, w);
            }
        } else {
            if cur.len() > 0 {
                let ghost d0 = done@;
                done.push(cur);
                assert(lines_view(done@) =~= lines_view(d0).push(cur@));
            }
            if width == 0 {
                let ghost d0 = done@;
                done.push(w.clone());
                assert(lines_view(done@) =~= lines_view(d0) + chunks(w@, width as int));
                cur = Vec::new();
            } else if w.len() < width {
                cur = w.clone();
            } else {
                push_chunks(&mut done, w, width);
                cur = Vec::new();
            }
        }
        i = i + 1;
    }
    assert(words@.subrange(0, words.len() as int) =~= words@);
    if cur.len() > 0 {
        let ghost d0 = done@;
        done.push(cur);
        assert(lines_view(done@) =~= lines_view(d0).push(cur@));
    }
    done
}

/// The lines joined with newlines.
pub fn join_chars(lines: &Vec<Vec<char>>) -> (r: Vec<char>)
    ensures
        r@ == join_lines(lines_view(lines@)),
{
    let mut out: Vec<char> = Vec::new();
    let mut i: usize = 0;
    while i < lines.len()
        invariant
            i <= lines.len(),
            out@ == join_lines(lines_view(lines@.subrange(0, i as int))),
        decreases lines.len() - i,
    {
        assert(lines_view(lines@.subrange(0, i + 1)).drop_last() =~= lines_view(lines@.subrange(0, i as int)));
        if i > 0 {
            out.push('\n');
        }
        push_chars(&mut out, &lines[i]);
        i = i + 1;
        assert(lines_view(lines@.subrange(0, i as int)).last() == lines@[i - 1]@);
        if i == 1 {
            assert(lines_view(lines@.subrange(0, 1))[0] == lines@[0]@);
        }
    }
    assert(lines@.subrange(0, lines.len() as int) =~= lines@);
    out
}

/// The pattern repeated and cut to `width` characters, then a newline.
pub fn division_chars(p: &Vec<char>, width: usize) -> (r: Vec<char>)
    ensures
        r@ == division_line(Some(p@), width as int),
{
    let mut out: Vec<char> = Vec::new();
    if p.len() > 0 {
        let mut i: usize = 0;
        while i < width
            invariant
                i <= width,
                p.len() > 0,
                out@ == Seq::new(i as nat, |k: int| p@[k % (p.len() as int)]),
            decreases width - i,
        {
            out.push(p[i % p.len()]);
            i = i + 1;
            assert(out@ =~= Seq::new(i as nat, |k: int| p@[k % (p.len() as int)]));
        }
    }
    out.push('\n');
    out
}

/// Appends `a`, a space, and `b` right-aligned to the edge.
fn push_duo_parts(out: &mut Vec<char>, a: &Vec<char>, b: &Vec<char>, width: usize)
    ensures
        final(out)@ == old(out)@ + a@ + seq![' '] + pad_left(b@, width - a@.len() - 1) + seq!['\n'],
{
    let ghost o = out@;
    push_chars(out, a);
    out.push(' ');
    let pad: usize = if a.len() < width { width - a.len() - 1 } else { 0 };
    push_pad_left(out, b, pad);
    out.push('\n');
    assert(pad_left(b@, pad as int) =~= pad_left(b@, width - a@.len() - 1));
    assert(out@ =~= o + a@ + seq![' '] + pad_left(b@, width - a@.len() - 1) + seq!['\n']);
}

/// Appends one two-column line.
pub fn push_duo_line(out: &mut Vec<char>, a: &Vec<char>, b: &Vec<char>, width: usize, marker: bool)
    ensures
        final(out)@ == old(out)@ + duo_line(a@, b@, width as int, marker),
{
    if a.len() < width && b.len() < width - a.len() {
        push_duo_parts(out, a, b, width);
    } else {
        let b2 = fit_chars(b, if width >= 4 { width - 4 } else { 0 }, marker);
        proof { lemma_fit_len(b@, sub0(width as int, 4), marker); }
        let rem: usize = width - b2.len();
        let a2 = fit_chars(a, if rem >= 1 { rem - 1 } else { 0 }, marker);
        assert(sub0(width - b2@.len(), 1) == (if rem >= 1 { rem - 1 } else { 0 }) as int);
        push_duo_parts(out, &a2, &b2, width);
    }
}

/// Column widths of a three-column table.
pub fn trio_limits_exec(l: usize, m: usize, r: usize, width: usize) -> (res: (usize, usize))
    requires
        width <= 255,
    ensures
        (res.0 as int, res.1 as int) == trio_limits(l as int, m as int, r as int, width as int),
        res.0 + res.1 <= width,
{
    if l <= width && m <= width && r <= width && l + m + r + 2 <= width {
        (l, r)
    } else if m <= width && r <= width && m + r + 4 <= width {
        (width - m - r - 2, r)
    } else {
        (width / 3, width / 3)
    }
}

/// Appends one three-column line.
pub fn push_trio_line(out: &mut Vec<char>, a: &Vec<char>, b: &Vec<char>, c: &Vec<char>, width: usize, l: usize, r: usize)
    requires
        l + r <= width,
    ensures
        final(out)@ == old(out)@ + trio_line(a@, b@, c@, width as int, l as int, r as int),
{
    let ghost o = out@;
    let mid: usize = width - (l + r);
    let a2 = fit_chars(a, l, true);
    let b2 = fit_chars(b, if mid >= 2 { mid - 2 } else { 0 }, true);
    let c2 = fit_chars(c, r, true);
    push_pad_right(out, &a2, l);
    push_pad_center(out, &b2, mid);
    push_pad_left(out, &c2, r);
    out.push('\n');
    assert(out@ =~= o + trio_line(a@, b@, c@, width as int, l as int, r as int));
}

/// Left and right column widths of a three-column table.
pub fn trio_layout_exec(h: &(Vec<char>, Vec<char>, Vec<char>), cells: &Vec<(Vec<char>, Vec<char>, Vec<char>)>, width: usize) -> (res: (usize, usize))
    requires
        width <= 255,
    ensures
        (res.0 as int, res.1 as int) == trio_layout((h.0@, h.1@, h.2@), cells_view(cells@), width as int),
        res.0 + res.1 <= width,
{
    let ghost hv = (h.0@, h.1@, h.2@);
    let ghost init = (h.0@.len() as int, h.1@.len() as int, h.2@.len() as int);
    let mut ml: usize = h.0.len();
    let mut mm: usize = h.1.len();
    let mut mr: usize = h.2.len();
    let mut i: usize = 0;
    while i < cells.len()
        invariant
            i <= cells.len(),
            (ml as int, mm as int, mr as int) == col_max(cells_view(cells@.subrange(0, i as int)), init),
        decreases cells.len() - i,
    {
        assert(cells_view(cells@.subrange(0, i + 1)).drop_last() =~= cells_view(cells@.subrange(0, i as int)));
        if cells[i].0.len() > ml {
            ml = cells[i].0.len();
        }
        if cells[i].1.len() > mm {
            mm = cells[i].1.len();
        }
        if cells[i].2.len() > mr {
            mr = cells[i].2.len();
        }
        i = i + 1;
    }
    assert(cells@.subrange(0, cells.len() as int) =~= cells@);
    trio_limits_exec(ml, mm, mr, width)
}

/// Appends a three-column table whose division line is `div`.
pub fn push_trio_table(
    out: &mut Vec<char>,
    h: &(Vec<char>, Vec<char>, Vec<char>),
    cells: &Vec<(Vec<char>, Vec<char>, Vec<char>)>,
    div: &Vec<char>,
    width: usize,
)
    requires
        width <= 255,
    ensures
        ({
            let hv = (h.0@, h.1@, h.2@);
            let (l, r) = trio_layout(hv, cells_view(cells@), width as int);
            final(out)@ == old(out)@ + trio_line(hv.0, hv.1, hv.2, width as int, l, r) + div@
                + trio_rows(cells_view(cells@), width as int, l, r)
        }),
{
    let (l, r) = trio_layout_exec(h, cells, width);
    push_trio_line(out, &h.0, &h.1, &h.2, width, l, r);
    push_chars(out, div);
    let ghost start = out@;
    let mut i: usize = 0;
    while i < cells.len()
        invariant
            i <= cells.len(),
            l + r <= width,
            out@ == start + trio_rows(cells_view(cells@.subrange(0, i as int)), width as int, l as int, r as int),
        decreases cells.len() - i,
    {
        assert(cells_view(cells@.subrange(0, i + 1)).drop_last() =~= cells_view(cells@.subrange(0, i as int)));
        push_trio_line(out, &cells[i].0, &cells[i].1, &cells[i].2, width, l, r);
        i = i + 1;
    }
    assert(cells@.subrange(0, cells.len() as int) =~= cells@);
}

/// A word: non-empty, without whitespace.
pub open spec fn good_word(w: Seq<char>) -> bool {
    w.len() > 0 && forall|j: int| 0 <= j < w.len() ==> !is_space(#[trigger] w[j])
}

/// A line: non-empty, without newlines.
pub open spec fn good_line(l: Seq<char>) -> bool {
    l.len() > 0 && forall|j: int| 0 <= j < l.len() ==> #[trigger] l[j] != '\n'
}

proof fn lemma_word_state(s: Seq<char>)
    ensures
        forall|i: int| 0 <= i < word_state(s).0.len() ==> good_word(#[trigger] word_state(s).0[i]),
        forall|j: int| 0 <= j < word_state(s).1.len() ==> !is_space(#[trigger] word_state(s).1[j]),
    decreases s.len(),
{
    if s.len() > 0 {
        lemma_word_state(s.drop_last());
        let (done, cur) = word_state(s.drop_last());
        if !is_space(s.last()) {
            assert forall|j: int| 0 <= j < cur.push(s.last()).len() implies !is_space(#[trigger] cur.push(s.last())[j]) by {
                if j < cur.len() {
                    assert(cur.push(s.last())[j] == cur[j]);
                }
            }
        } else if cur.len() > 0 {
            assert forall|i: int| 0 <= i < done.push(cur).len() implies good_word(#[trigger] done.push(cur)[i]) by {
                if i < done.len() {
                    assert(done.push(cur)[i] == done[i]);
                }
            }
        }
    }
}

proof fn lemma_words_good(s: Seq<char>)
    ensures
        forall|i: int| 0 <= i < words_of(s).len() ==> good_word(#[trigger] words_of(s)[i]),
{
    lemma_word_state(s);
    let (done, cur) = word_state(s);
    if cur.len() > 0 {
        assert forall|i: int| 0 <= i < done.push(cur).len() implies good_word(#[trigger] done.push(cur)[i]) by {
            if i < done.len() {
                assert(done.push(cur)[i] == done[i]);
            }
        }
    }
}

proof fn lemma_pack(words: Seq<Seq<char>>, width: int)
    requires
        width >= 0,
        forall|i: int| 0 <= i < words.len() ==> good_word(#[trigger] words[i]) && words[i].len() <= width,
    ensures
        forall|i: int| 0 <= i < pack_state(words, width).0.len() ==> good_line(#[trigger] pack_state(words, width).0[i])
            && pack_state(words, width).0[i].len() <= width,
        pack_state(words, width).1.len() <= width,
        pack_state(words, width).1.len() > 0 ==> good_line(pack_state(words, width).1),
    decreases words.len(),
{
    if words.len() > 0 {
        let prev = words.drop_last();
        assert forall|i: int| 0 <= i < prev.len() implies good_word(#[trigger] prev[i]) && prev[i].len() <= width by {
            assert(prev[i] == words[i]);
        }
        lemma_pack(prev, width);
        let (done, cur) = pack_state(prev, width);
        let w = words.last();
        assert(good_word(words[words.len() - 1]));
        assert(good_line(w));
        let done2 = if cur.len() > 0 { done.push(cur) } else { done };
        assert forall|i: int| 0 <= i < done2.len() implies good_line(#[trigger] done2[i]) && done2[i].len() <= width by {
            if i < done.len() {
                assert(done2[i] == done[i]);
            }
        }
        if cur.len() + w.len() + 1 < width {
            if cur.len() > 0 {
                let nl = cur + seq![' '] + w;
                assert forall|j: int| 0 <= j < nl.len() implies #[trigger] nl[j] != '\n' by {
                    if j < cur.len() {
                        assert(nl[j] == cur[j]);
                    } else if j > cur.len() {
                        assert(nl[j] == w[j - cur.len() - 1]);
                    }
                }
            }
        } else if w.len() >= width {
            assert(chunks(w, width) == seq![w]);
            assert forall|i: int| 0 <= i < (done2 + chunks(w, width)).len() implies good_line(#[trigger] (done2 + chunks(w, width))[i])
                && (done2 + chunks(w, width))[i].len() <= width by {
                if i < done2.len() {
                    assert((done2 + chunks(w, width))[i] == done2[i]);
                }
            }
        }
    }
}

/// Word wrapping keeps lines within the width whenever every word fits, and
/// the output ends with a newline exactly when the input does.
pub proof fn lemma_word_wrap(s: Seq<char>, width: int)
    requires
        width >= 0,
        forall|i: int| 0 <= i < words_of(s).len() ==> (#[trigger] words_of(s)[i]).len() <= width,
    ensures
        forall|i: int| 0 <= i < packed_lines(words_of(s), width).len() ==> (#[trigger] packed_lines(words_of(s), width)[i]).len() <= width,
        space_split_spec(s, width) == join_lines(packed_lines(words_of(s), width)) + if ends_with_newline(s) {
            seq!['\n']
        } else {
            Seq::<char>::empty()
        },
        ends_with_newline(space_split_spec(s, width)) == ends_with_newline(s),
{
    let words = words_of(s);
    lemma_words_good(s);
    lemma_pack(words, width);
    let (done, cur) = pack_state(words, width);
    let lines = packed_lines(words, width);
    assert forall|i: int| 0 <= i < lines.len() implies good_line(#[trigger] lines[i]) && lines[i].len() <= width by {
        if i < done.len() {
            assert(lines[i] == done[i]);
        }
    }
    let j = join_lines(lines);
    if lines.len() > 0 {
        assert(good_line(lines[lines.len() - 1]));
        if lines.len() == 1 {
            assert(j == lines[0]);
        } else {
            assert(j == join_lines(lines.drop_last()) + seq!['\n'] + lines.last());
        }
        assert(j.len() > 0 && j.last() == lines.last().last());
        assert(lines.last()[lines.last().len() - 1] != '\n');
    } else {
        assert(j.len() == 0);
    }
    if ends_with_newline(s) {
        assert((j + seq!['\n']).last() == '\n');
    } else {
        assert(j + Seq::<char>::empty() =~= j);
    }
}

} // verus!
