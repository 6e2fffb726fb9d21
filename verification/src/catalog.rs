//! The tables a query can read, each a data frame under its name.

use vstd::prelude::*;

use crate::dataframe::{DataFrame, PlanView};

verus! {

/// A map from table names to the data frames that read them.
pub struct TableCatalog {
    tables: Vec<(String, DataFrame)>,
}

/// The map that a list of entries describes: a later entry for a name
/// replaces an earlier one.
pub closed spec fn entries_map(s: Seq<(String, DataFrame)>) -> Map<Seq<char>, PlanView>
    decreases s.len(),
{
    if s.len() == 0 {
        Map::empty()
    } else {
        entries_map(s.drop_last()).insert(s.last().0@, s.last().1@)
    }
}

impl View for TableCatalog {
    type V = Map<Seq<char>, PlanView>;

    closed spec fn view(&self) -> Map<Seq<char>, PlanView> {
        entries_map(self.tables@)
    }
}

/// The plan of the data frame registered under `name`, if any: what
/// [`TableCatalog::get`] finds.
pub open spec fn lookup(c: TableCatalog, name: Seq<char>) -> Option<PlanView> {
    if c@.contains_key(name) {
        Some(c@[name])
    } else {
        None
    }
}

/// Whether `after` is `before` with `df` registered under `name`: what
/// [`TableCatalog::insert`] makes of a catalog.
pub open spec fn registered(before: TableCatalog, after: TableCatalog, name: Seq<char>, df: PlanView) -> bool {
    after@ == before@.insert(name, df)
}

/// When no entry from position `j` on has the name `k`, the map of the
/// first `j` entries agrees with the map of all of them on `k`.
proof fn lemma_entries_suffix_free(s: Seq<(String, DataFrame)>, k: Seq<char>, j: int)
    requires
        0 <= j <= s.len(),
        forall|m: int| j <= m < s.len() ==> (#[trigger] s[m]).0@ != k,
    ensures
        entries_map(s).contains_key(k) == entries_map(s.take(j)).contains_key(k),
        entries_map(s).contains_key(k) ==> entries_map(s)[k] == entries_map(s.take(j))[k],
    decreases s.len() - j,
{
    if j < s.len() {
        assert(s.take(j + 1).drop_last() =~= s.take(j));
        assert(s.take(j + 1).last() == s[j]);
        lemma_entries_suffix_free(s, k, j + 1);
    } else {
        assert(s.take(j) =~= s);
    }
}

impl TableCatalog {
    /// An empty catalog.
    pub fn new() -> (r: Self)
        ensures
            r@ == Map::<Seq<char>, PlanView>::empty(),
    {
        TableCatalog { tables: Vec::new() }
    }

    /// The data frame registered under `name`, if any.
    pub fn get(&self, name: &String) -> (r: Option<&DataFrame>)
        ensures
            match r {
                Some(df) => lookup(*self, name@) == Some(df@),
                None => lookup(*self, name@) is None,
            },
    {
        let mut j: usize = self.tables.len();
        while j > 0
            invariant
                j <= self.tables@.len(),
                forall|m: int| j <= m < self.tables@.len() ==> (#[trigger] self.tables@[m]).0@ != name@,
            decreases j,
        {
            if self.tables[j - 1].0 == *name {
                proof {
                    lemma_entries_suffix_free(self.tables@, name@, j as int);
                    assert(self.tables@.take(j as int).drop_last() =~= self.tables@.take(j - 1));
                    assert(self.tables@.take(j as int).last() == self.tables@[j - 1]);
                }
                return Some(&self.tables[j - 1].1);
            }
            j = j - 1;
        }
        proof {
            lemma_entries_suffix_free(self.tables@, name@, 0);
            assert(self.tables@.take(0) =~= Seq::<(String, DataFrame)>::empty());
        }
        None
    }

    /// Registers `df` under `name`, and gives back the data frame that was
    /// registered under it before, if any.
    pub fn insert(&mut self, name: String, df: DataFrame) -> (r: Option<DataFrame>)
        ensures
            registered(*old(self), *final(self), name@, df@),
            match r {
                Some(prev) => lookup(*old(self), name@) == Some(prev@),
                None => lookup(*old(self), name@) is None,
            },
    {
        let prev = match self.get(&name) {
            Some(d) => Some(d.clone()),
            None => None,
        };
        let ghost before = self.tables@;
        self.tables.push((name, df));
        proof {
            assert(self.tables@.drop_last() =~= before);
        }
        prev
    }
}

/// Reading a catalog after registering `df` under `name` finds `df` under
/// that name, and under every other name what was there before.
pub proof fn law_catalog_read_after_write(
    before: TableCatalog,
    after: TableCatalog,
    name: Seq<char>,
    df: PlanView,
    other: Seq<char>,
)
    requires
        registered(before, after, name, df),
    ensures
        lookup(after, name) == Some(df),
        other != name ==> lookup(after, other) == lookup(before, other),
{
}

} // verus!
