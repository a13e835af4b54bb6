//! Per-print data: replacement strings, named tables and QR payloads.
use vstd::prelude::*;

verus! {

/// The value bound to `k`: the last entry with that key wins.
pub open spec fn lookup<V>(entries: Seq<(String, V)>, k: Seq<char>) -> Option<V>
    decreases entries.len(),
{
    if entries.len() == 0 {
        None
    } else if entries.last().0@ == k {
        Some(entries.last().1)
    } else {
        lookup(entries.drop_last(), k)
    }
}

/// The entries of an optional category.
pub open spec fn entries_of<V>(o: Option<Vec<(String, V)>>) -> Seq<(String, V)> {
    match o {
        Some(v) => v@,
        None => Seq::empty(),
    }
}

/// What a key is bound to in an optional category.
pub open spec fn lookup_in<V>(o: Option<Vec<(String, V)>>, k: Seq<char>) -> Option<V> {
    lookup(entries_of(o), k)
}

/// Later entries take precedence over earlier ones.
pub proof fn lemma_lookup_concat<V>(a: Seq<(String, V)>, b: Seq<(String, V)>, k: Seq<char>)
    ensures
        lookup(a + b, k) == (if lookup(b, k) is Some { lookup(b, k) } else { lookup(a, k) }),
    decreases b.len(),
{
    if b.len() == 0 {
        assert(a + b =~= a);
    } else {
        assert((a + b).drop_last() =~= a + b.drop_last());
        assert((a + b).last() == b.last());
        lemma_lookup_concat(a, b.drop_last(), k);
    }
}

/// The index of the entry bound to `k`.
pub fn find_key<V>(entries: &Vec<(String, V)>, k: &String) -> (r: Option<usize>)
    ensures
        r is None <==> lookup(entries@, k@) is None,
        r matches Some(i) ==> i < entries@.len() && lookup(entries@, k@) == Some(entries@[i as int].1),
{
    let mut i: usize = entries.len();
    assert(entries@.subrange(0, i as int) =~= entries@);
    while i > 0
        invariant
            i <= entries.len(),
            lookup(entries@, k@) == lookup(entries@.subrange(0, i as int), k@),
        decreases i,
    {
        assert(entries@.subrange(0, i as int).drop_last() =~= entries@.subrange(0, i - 1));
        if entries[i - 1].0 == *k {
            return Some(i - 1);
        }
        i = i - 1;
    }
    None
}

/// Appends an entry to an optional category, creating it where absent.
fn insert_entry<V>(o: Option<Vec<(String, V)>>, k: String, v: V) -> (r: Option<Vec<(String, V)>>)
    ensures
        r is Some,
        entries_of(r) == entries_of(o).push((k, v)),
{
    match o {
        Some(mut e) => {
            e.push((k, v));
            Some(e)
        },
        None => {
            let mut e: Vec<(String, V)> = Vec::new();
            e.push((k, v));
            assert(e@ =~= Seq::<(String, V)>::empty().push((k, v)));
            Some(e)
        },
    }
}

/// Joins two optional categories, `main` taking precedence; an empty result is absent.
fn merge_entries<V>(main: Option<Vec<(String, V)>>, other: Option<Vec<(String, V)>>) -> (r: Option<Vec<(String, V)>>)
    ensures
        entries_of(r) == entries_of(other) + entries_of(main),
        r is None <==> entries_of(r).len() == 0,
{
    let mut all: Vec<(String, V)> = match other {
        Some(v) => v,
        None => Vec::new(),
    };
    let mut rest: Vec<(String, V)> = match main {
        Some(v) => v,
        None => Vec::new(),
    };
    all.append(&mut rest);
    if all.len() == 0 {
        assert(entries_of(other) + entries_of(main) =~= Seq::<(String, V)>::empty());
        None
    } else {
        Some(all)
    }
}

pub type Duo = (String, String);
pub type Trio = (String, String, String);
pub type Quad = (String, String, String, String);

/// Custom data for one print.
#[derive(Clone, Debug)]
pub struct PrintData {
    pub(crate) replacements: Option<Vec<(String, String)>>,
    pub(crate) duo_tables: Option<Vec<(String, Vec<Duo>)>>,
    pub(crate) trio_tables: Option<Vec<(String, Vec<Trio>)>>,
    pub(crate) quad_tables: Option<Vec<(String, Vec<Quad>)>>,
    pub(crate) qr_contents: Option<Vec<(String, String)>>,
}

impl PrintData {
    pub closed spec fn spec_replacements(&self) -> Option<Vec<(String, String)>> {
        self.replacements
    }

    pub closed spec fn spec_duo_tables(&self) -> Option<Vec<(String, Vec<Duo>)>> {
        self.duo_tables
    }

    pub closed spec fn spec_trio_tables(&self) -> Option<Vec<(String, Vec<Trio>)>> {
        self.trio_tables
    }

    pub closed spec fn spec_quad_tables(&self) -> Option<Vec<(String, Vec<Quad>)>> {
        self.quad_tables
    }

    pub closed spec fn spec_qr_contents(&self) -> Option<Vec<(String, String)>> {
        self.qr_contents
    }

    pub fn replacements(&self) -> (r: &Option<Vec<(String, String)>>)
        ensures
            *r == self.spec_replacements(),
    {
        &self.replacements
    }

    pub fn duo_tables(&self) -> (r: &Option<Vec<(String, Vec<Duo>)>>)
        ensures
            *r == self.spec_duo_tables(),
    {
        &self.duo_tables
    }

    pub fn trio_tables(&self) -> (r: &Option<Vec<(String, Vec<Trio>)>>)
        ensures
            *r == self.spec_trio_tables(),
    {
        &self.trio_tables
    }

    pub fn quad_tables(&self) -> (r: &Option<Vec<(String, Vec<Quad>)>>)
        ensures
            *r == self.spec_quad_tables(),
    {
        &self.quad_tables
    }

    pub fn qr_contents(&self) -> (r: &Option<Vec<(String, String)>>)
        ensures
            *r == self.spec_qr_contents(),
    {
        &self.qr_contents
    }

    /// A builder with nothing in it.
    pub fn builder() -> (r: PrintDataBuilder)
        ensures
            r.spec_data().spec_replacements() is None,
            r.spec_data().spec_duo_tables() is None,
            r.spec_data().spec_trio_tables() is None,
            r.spec_data().spec_quad_tables() is None,
            r.spec_data().spec_qr_contents() is None,
    {
        PrintDataBuilder::new()
    }

    /// Joins two sets of print data; on a key present in both, `self` wins.
    /// A category left empty is absent.
    pub fn merge(self, rhs: PrintData) -> (r: PrintData)
        ensures
            entries_of(r.spec_replacements()) == entries_of(rhs.spec_replacements()) + entries_of(self.spec_replacements()),
            entries_of(r.spec_duo_tables()) == entries_of(rhs.spec_duo_tables()) + entries_of(self.spec_duo_tables()),
            entries_of(r.spec_trio_tables()) == entries_of(rhs.spec_trio_tables()) + entries_of(self.spec_trio_tables()),
            entries_of(r.spec_quad_tables()) == entries_of(rhs.spec_quad_tables()) + entries_of(self.spec_quad_tables()),
            entries_of(r.spec_qr_contents()) == entries_of(rhs.spec_qr_contents()) + entries_of(self.spec_qr_contents()),
            r.spec_replacements() is None <==> entries_of(r.spec_replacements()).len() == 0,
            r.spec_duo_tables() is None <==> entries_of(r.spec_duo_tables()).len() == 0,
            r.spec_trio_tables() is None <==> entries_of(r.spec_trio_tables()).len() == 0,
            r.spec_quad_tables() is None <==> entries_of(r.spec_quad_tables()).len() == 0,
            r.spec_qr_contents() is None <==> entries_of(r.spec_qr_contents()).len() == 0,
    {
        PrintData {
            replacements: merge_entries(self.replacements, rhs.replacements),
            duo_tables: merge_entries(self.duo_tables, rhs.duo_tables),
            trio_tables: merge_entries(self.trio_tables, rhs.trio_tables),
            quad_tables: merge_entries(self.quad_tables, rhs.quad_tables),
            qr_contents: merge_entries(self.qr_contents, rhs.qr_contents),
        }
    }
}

/// A merge is left-biased: a key bound in the left data keeps its value,
/// any other key keeps the value of the right data.
pub proof fn lemma_merge_left_biased<V>(left: Option<Vec<(String, V)>>, right: Option<Vec<(String, V)>>, merged: Option<Vec<(String, V)>>, k: Seq<char>)
    requires
        entries_of(merged) == entries_of(right) + entries_of(left),
    ensures
        lookup_in(merged, k) == (if lookup_in(left, k) is Some { lookup_in(left, k) } else { lookup_in(right, k) }),
{
    lemma_lookup_concat(entries_of(right), entries_of(left), k);
}

/// Stages the contents of a [PrintData].
pub struct PrintDataBuilder {
    data: PrintData,
}

impl PrintDataBuilder {
    pub closed spec fn spec_data(&self) -> PrintData {
        self.data
    }

    /// A builder with nothing in it.
    pub fn new() -> (r: PrintDataBuilder)
        ensures
            r.spec_data().spec_replacements() is None,
            r.spec_data().spec_duo_tables() is None,
            r.spec_data().spec_trio_tables() is None,
            r.spec_data().spec_quad_tables() is None,
            r.spec_data().spec_qr_contents() is None,
    {
        PrintDataBuilder {
            data: PrintData {
                replacements: None,
                duo_tables: None,
                trio_tables: None,
                quad_tables: None,
                qr_contents: None,
            },
        }
    }

    /// Every occurrence of `target` in a text is to be replaced by `replacement`.
    pub fn replacement(self, target: &str, replacement: &str) -> (r: Self)
        ensures
            r.spec_data().spec_replacements() is Some,
            entries_of(r.spec_data().spec_replacements()).drop_last() == entries_of(self.spec_data().spec_replacements()),
            entries_of(r.spec_data().spec_replacements()).len() > 0,
            entries_of(r.spec_data().spec_replacements()).last().0@ == target@,
            ({ let v = entries_of(r.spec_data().spec_replacements()).last().1; v@ == replacement@ }),
            lookup_in(r.spec_data().spec_replacements(), target@) matches Some(v) && v@ == replacement@,
            r.spec_data().spec_duo_tables() == self.spec_data().spec_duo_tables(),
            r.spec_data().spec_trio_tables() == self.spec_data().spec_trio_tables(),
            r.spec_data().spec_quad_tables() == self.spec_data().spec_quad_tables(),
            r.spec_data().spec_qr_contents() == self.spec_data().spec_qr_contents(),
    {
        let mut d = self.data;
        d.replacements = insert_entry(d.replacements, target.to_owned(), replacement.to_owned());
        PrintDataBuilder { data: d }
    }

    /// Adds a two-column table under `name`.
    pub fn add_duo_table(self, name: &str, rows: Vec<Duo>) -> (r: Self)
        ensures
            lookup_in(r.spec_data().spec_duo_tables(), name@) == Some(rows),
            r.spec_data().spec_duo_tables() is Some,
            entries_of(r.spec_data().spec_duo_tables()).drop_last() == entries_of(self.spec_data().spec_duo_tables()),
            entries_of(r.spec_data().spec_duo_tables()).len() > 0,
            entries_of(r.spec_data().spec_duo_tables()).last().0@ == name@,
            ({ let v = entries_of(r.spec_data().spec_duo_tables()).last().1; v == rows }),
            r.spec_data().spec_replacements() == self.spec_data().spec_replacements(),
            r.spec_data().spec_trio_tables() == self.spec_data().spec_trio_tables(),
            r.spec_data().spec_quad_tables() == self.spec_data().spec_quad_tables(),
            r.spec_data().spec_qr_contents() == self.spec_data().spec_qr_contents(),
    {
        let mut d = self.data;
        d.duo_tables = insert_entry(d.duo_tables, name.to_owned(), rows);
        PrintDataBuilder { data: d }
    }

    /// Adds a three-column table under `name`.
    pub fn add_trio_table(self, name: &str, rows: Vec<Trio>) -> (r: Self)
        ensures
            lookup_in(r.spec_data().spec_trio_tables(), name@) == Some(rows),
            r.spec_data().spec_trio_tables() is Some,
            entries_of(r.spec_data().spec_trio_tables()).drop_last() == entries_of(self.spec_data().spec_trio_tables()),
            entries_of(r.spec_data().spec_trio_tables()).len() > 0,
            entries_of(r.spec_data().spec_trio_tables()).last().0@ == name@,
            ({ let v = entries_of(r.spec_data().spec_trio_tables()).last().1; v == rows }),
            r.spec_data().spec_replacements() == self.spec_data().spec_replacements(),
            r.spec_data().spec_duo_tables() == self.spec_data().spec_duo_tables(),
            r.spec_data().spec_quad_tables() == self.spec_data().spec_quad_tables(),
            r.spec_data().spec_qr_contents() == self.spec_data().spec_qr_contents(),
    {
        let mut d = self.data;
        d.trio_tables = insert_entry(d.trio_tables, name.to_owned(), rows);
        PrintDataBuilder { data: d }
    }

    /// Adds a table of a label and three columns under `name`.
    pub fn add_quad_table(self, name: &str, rows: Vec<Quad>) -> (r: Self)
        ensures
            lookup_in(r.spec_data().spec_quad_tables(), name@) == Some(rows),
            r.spec_data().spec_quad_tables() is Some,
            entries_of(r.spec_data().spec_quad_tables()).drop_last() == entries_of(self.spec_data().spec_quad_tables()),
            entries_of(r.spec_data().spec_quad_tables()).len() > 0,
            entries_of(r.spec_data().spec_quad_tables()).last().0@ == name@,
            ({ let v = entries_of(r.spec_data().spec_quad_tables()).last().1; v == rows }),
            r.spec_data().spec_replacements() == self.spec_data().spec_replacements(),
            r.spec_data().spec_duo_tables() == self.spec_data().spec_duo_tables(),
            r.spec_data().spec_trio_tables() == self.spec_data().spec_trio_tables(),
            r.spec_data().spec_qr_contents() == self.spec_data().spec_qr_contents(),
    {
        let mut d = self.data;
        d.quad_tables = insert_entry(d.quad_tables, name.to_owned(), rows);
        PrintDataBuilder { data: d }
    }

    /// Adds the payload of the QR code `name`.
    pub fn add_qr_code(self, name: &str, content: &str) -> (r: Self)
        ensures
            lookup_in(r.spec_data().spec_qr_contents(), name@) matches Some(v) && v@ == content@,
            r.spec_data().spec_qr_contents() is Some,
            entries_of(r.spec_data().spec_qr_contents()).drop_last() == entries_of(self.spec_data().spec_qr_contents()),
            entries_of(r.spec_data().spec_qr_contents()).len() > 0,
            entries_of(r.spec_data().spec_qr_contents()).last().0@ == name@,
            ({ let v = entries_of(r.spec_data().spec_qr_contents()).last().1; v@ == content@ }),
            r.spec_data().spec_replacements() == self.spec_data().spec_replacements(),
            r.spec_data().spec_duo_tables() == self.spec_data().spec_duo_tables(),
            r.spec_data().spec_trio_tables() == self.spec_data().spec_trio_tables(),
            r.spec_data().spec_quad_tables() == self.spec_data().spec_quad_tables(),
    {
        let mut d = self.data;
        d.qr_contents = insert_entry(d.qr_contents, name.to_owned(), content.to_owned());
        PrintDataBuilder { data: d }
    }

    /// The staged data.
    pub fn build(self) -> (r: PrintData)
        ensures
            r == self.spec_data(),
    {
        self.data
    }
}

} // verus!
