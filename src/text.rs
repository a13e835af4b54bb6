//! Character-level building blocks for fixed-width layout.
use vstd::prelude::*;
use vstd::std_specs::iter::IteratorSpec;

verus! {

broadcast use vstd::string::axiom_spec_iter, vstd::string::next_postcondition;

/// The characters of the string, in order.
pub(crate) fn chars_of(s: &str) -> (r: Vec<char>)
    ensures
        r@ == s@,
{
    let mut it = s.chars();
    let mut out: Vec<char> = Vec::new();
    loop
        invariant
            it.obeys_prophetic_iter_laws(),
            it.decrease() is Some,
            out@ + it.remaining() == s@,
        ensures
            out@ == s@,
        decreases it.decrease()->0,
    {
        let ghost before = it.remaining();
        match it.next() {
            Some(c) => {
                out.push(c);
                assert(out@ + it.remaining() =~= s@) by {
                    assert(before =~= seq![c] + it.remaining());
                }
            },
            None => {
                assert(out@ =~= s@);
                break;
            },
        }
    }
    out
}

/// Relies on `FromIterator<char>` for `String`: the string of exactly these characters.
#[verifier::external_body]
pub(crate) fn string_of(v: &Vec<char>) -> (r: String)
    ensures
        r@ == v@,
{
    v.iter().collect()
}

/// `n` space characters.
pub open spec fn spaces(n: int) -> Seq<char> {
    Seq::new(if n > 0 { n as nat } else { 0 }, |i: int| ' ')
}

/// `s` right-aligned in a field of `w` characters.
pub open spec fn pad_left(s: Seq<char>, w: int) -> Seq<char> {
    spaces(w - s.len()) + s
}

/// `s` left-aligned in a field of `w` characters.
pub open spec fn pad_right(s: Seq<char>, w: int) -> Seq<char> {
    s + spaces(w - s.len())
}

/// `s` centred in a field of `w` characters; an odd spare space goes to the right.
pub open spec fn pad_center(s: Seq<char>, w: int) -> Seq<char> {
    let spare = if w > s.len() { w - s.len() } else { 0 };
    spaces(spare / 2) + s + spaces(spare - spare / 2)
}

/// `s` cut to at most `c` characters; with `marker`, a cut string ends in `.`.
#[verifier::opaque]
pub open spec fn fit(s: Seq<char>, c: int, marker: bool) -> Seq<char> {
    if s.len() <= c {
        s
    } else if c <= 0 {
        Seq::empty()
    } else if marker {
        s.subrange(0, c - 1).push('.')
    } else {
        s.subrange(0, c)
    }
}

/// `x - y`, or zero where `y` exceeds `x`.
pub open spec fn sub0(x: int, y: int) -> int {
    if x >= y { x - y } else { 0 }
}

pub proof fn lemma_fit_len(s: Seq<char>, c: int, marker: bool)
    ensures
        fit(s, c, marker).len() <= s.len(),
        c >= 0 ==> fit(s, c, marker).len() <= c,
        s.len() > c >= 0 ==> fit(s, c, marker).len() == c,
{
    reveal(fit);
}

/// Appends the characters of `s`.
pub fn push_chars(out: &mut Vec<char>, s: &Vec<char>)
    ensures
        final(out)@ == old(out)@ + s@,
{
    let mut i: usize = 0;
    while i < s.len()
        invariant
            i <= s.len(),
            out@ == old(out)@ + s@.subrange(0, i as int),
        decreases s.len() - i,
    {
        out.push(s[i]);
        i = i + 1;
        assert(s@.subrange(0, i as int) =~= s@.subrange(0, i - 1).push(s@[i - 1]));
    }
    assert(s@.subrange(0, s.len() as int) =~= s@);
}

/// Appends `n` spaces.
pub fn push_spaces(out: &mut Vec<char>, n: usize)
    ensures
        final(out)@ == old(out)@ + spaces(n as int),
{
    let mut i: usize = 0;
    while i < n
        invariant
            i <= n,
            out@ == old(out)@ + spaces(i as int),
        decreases n - i,
    {
        out.push(' ');
        i = i + 1;
        assert(spaces(i as int) =~= spaces(i - 1).push(' '));
    }
}

/// The first `c` characters of `s`, or all of them.
pub fn fit_chars(s: &Vec<char>, c: usize, marker: bool) -> (r: Vec<char>)
    ensures
        r@ == fit(s@, c as int, marker),
{
    proof {
        reveal(fit);
    }
    if s.len() <= c {
        return s.clone();
    }
    if c == 0 {
        return Vec::new();
    }
    let keep: usize = if marker { c - 1 } else { c };
    let mut r: Vec<char> = Vec::new();
    let mut i: usize = 0;
    while i < keep
        invariant
            keep <= c < s.len(),
            i <= keep,
            r@ == s@.subrange(0, i as int),
        decreases keep - i,
    {
        r.push(s[i]);
        i = i + 1;
        assert(s@.subrange(0, i as int) =~= s@.subrange(0, i - 1).push(s@[i - 1]));
    }
    if marker {
        r.push('.');
    }
    r
}

/// Appends `s` right-aligned in `w` characters.
pub fn push_pad_left(out: &mut Vec<char>, s: &Vec<char>, w: usize)
    ensures
        final(out)@ == old(out)@ + pad_left(s@, w as int),
{
    if w > s.len() {
        push_spaces(out, w - s.len());
    } else {
        push_spaces(out, 0);
    }
    push_chars(out, s);
    assert(final(out)@ =~= old(out)@ + pad_left(s@, w as int));
}

/// Appends `s` left-aligned in `w` characters.
pub fn push_pad_right(out: &mut Vec<char>, s: &Vec<char>, w: usize)
    ensures
        final(out)@ == old(out)@ + pad_right(s@, w as int),
{
    push_chars(out, s);
    if w > s.len() {
        push_spaces(out, w - s.len());
    } else {
        push_spaces(out, 0);
    }
    assert(final(out)@ =~= old(out)@ + pad_right(s@, w as int));
}

/// Appends `s` centred in `w` characters.
pub fn push_pad_center(out: &mut Vec<char>, s: &Vec<char>, w: usize)
    ensures
        final(out)@ == old(out)@ + pad_center(s@, w as int),
{
    let spare: usize = if w > s.len() { w - s.len() } else { 0 };
    push_spaces(out, spare / 2);
    push_chars(out, s);
    push_spaces(out, spare - spare / 2);
    assert(final(out)@ =~= old(out)@ + pad_center(s@, w as int));
}

} // verus!
