//! Sources of column-oriented data that a scan reads.

use std::rc::Rc;

use vstd::prelude::*;

use crate::datatypes::DataType;
use crate::error::strings_view;
use crate::schema::{FieldView, Schema};

verus! {

/// A marker for any source whose data can be read column by column in
/// batches against a schema. The sources today are CSV files.
pub trait DataSource {}

impl DataSource for Csv {}

/// A CSV file read in batches of `batch_size` records, of which the columns
/// at `col_indices` are kept.
#[derive(Debug)]
pub struct Csv {
    batch_size: u32,
    pub path: String,
    schema: Rc<Schema>,
    col_indices: Vec<usize>,
}

/// The value of a [`Csv`] source.
pub struct CsvView {
    pub batch_size: u32,
    pub path: Seq<char>,
    pub schema: Seq<FieldView>,
    pub col_indices: Seq<usize>,
}

impl View for Csv {
    type V = CsvView;

    closed spec fn view(&self) -> CsvView {
        CsvView {
            batch_size: self.batch_size,
            path: self.path@,
            schema: self.schema@,
            col_indices: self.col_indices@,
        }
    }
}

/// The positions, in increasing order, among the first `n` headers, of the
/// headers that one of the projections names.
pub open spec fn selected_columns(headers: Seq<Seq<char>>, projections: Seq<Seq<char>>, n: nat) -> Seq<usize>
    decreases n,
{
    if n == 0 {
        Seq::empty()
    } else if projections.contains(headers[n - 1]) {
        selected_columns(headers, projections, (n - 1) as nat).push((n - 1) as usize)
    } else {
        selected_columns(headers, projections, (n - 1) as nat)
    }
}

/// A list of string slices, each taken by its view.
pub open spec fn strs_view(s: Seq<&str>) -> Seq<Seq<char>> {
    s.map_values(|p: &str| p@)
}

/// The values of one column of a batch, with the type they are to be read as.
#[derive(Debug)]
pub struct ColumnBatch {
    pub values: Vec<String>,
    pub datatype: DataType,
}

/// The entries at position `idx` of each record.
pub open spec fn column_of(records: Seq<Vec<String>>, idx: usize) -> Seq<Seq<char>> {
    records.map_values(|r: Vec<String>| r@[idx as int]@)
}

/// Whether every kept column has a field in the schema and an entry in
/// every record.
pub open spec fn batch_readable(csv: CsvView, records: Seq<Vec<String>>) -> bool {
    forall|k: int|
        0 <= k < csv.col_indices.len() ==> {
            &&& #[trigger] csv.col_indices[k] < csv.schema.len()
            &&& forall|j: int| 0 <= j < records.len() ==> csv.col_indices[k] < #[trigger] records[j]@.len()
        }
}

fn names_one_of(projections: &[&str], header: &String) -> (r: bool)
    ensures
        r == strs_view(projections@).contains(header@),
{
    let mut j: usize = 0;
    while j < projections.len()
        invariant
            j <= projections@.len(),
            forall|m: int| 0 <= m < j ==> strs_view(projections@)[m] != header@,
        decreases projections@.len() - j,
    {
        let p: String = projections[j].to_owned();
        if p == *header {
            proof {
                assert(strs_view(projections@)[j as int] == header@);
            }
            return true;
        }
        j = j + 1;
    }
    false
}

impl Csv {
    /// A CSV source over the file at `path`, whose header record is
    /// `headers`: of each record it keeps, in file order, the columns whose
    /// header one of `projections` names; `schema` describes all columns of
    /// the file.
    pub fn new(
        path: &String,
        projections: &[&str],
        batch_size: u32,
        schema: Rc<Schema>,
        headers: &Vec<String>,
    ) -> (r: Csv)
        ensures
            r@.batch_size == batch_size,
            r@.path == path@,
            r@.schema == schema@,
            r@.col_indices == selected_columns(
                strings_view(headers@),
                strs_view(projections@),
                headers@.len(),
            ),
    {
        let mut col_indices: Vec<usize> = Vec::new();
        let mut i: usize = 0;
        while i < headers.len()
            invariant
                i <= headers@.len(),
                col_indices@ == selected_columns(
                    strings_view(headers@),
                    strs_view(projections@),
                    i as nat,
                ),
            decreases headers@.len() - i,
        {
            if names_one_of(projections, &headers[i]) {
                col_indices.push(i);
            }
            i = i + 1;
        }
        Csv { batch_size, path: path.clone(), schema, col_indices }
    }

    /// The path of the file.
    pub fn path(&self) -> (r: &String)
        ensures
            r@ == self@.path,
    {
        &self.path
    }

    /// The number of records a batch holds at most.
    pub fn batch_size(&self) -> (r: u32)
        ensures
            r == self@.batch_size,
    {
        self.batch_size
    }

    /// The schema of all columns of the file.
    pub fn schema(&self) -> (r: &Rc<Schema>)
        ensures
            r@ == self@.schema,
    {
        &self.schema
    }

    /// The positions of the columns kept.
    pub fn col_indices(&self) -> (r: &Vec<usize>)
        ensures
            r@ == self@.col_indices,
    {
        &self.col_indices
    }

    /// Whether every kept column has a field in the schema and an entry in
    /// every one of `records`.
    pub fn can_batch(&self, records: &Vec<Vec<String>>) -> (r: bool)
        ensures
            r == batch_readable(self@, records@),
    {
        let mut k: usize = 0;
        while k < self.col_indices.len()
            invariant
                k <= self.col_indices@.len(),
                forall|m: int|
                    0 <= m < k ==> {
                        &&& #[trigger] self@.col_indices[m] < self@.schema.len()
                        &&& forall|j: int|
                            0 <= j < records@.len() ==> self@.col_indices[m]
                                < #[trigger] records@[j]@.len()
                    },
            decreases self.col_indices@.len() - k,
        {
            let idx = self.col_indices[k];
            if idx >= self.schema.fields.len() {
                proof {
                    assert(self@.col_indices[k as int] >= self@.schema.len());
                }
                return false;
            }
            let mut j: usize = 0;
            while j < records.len()
                invariant
                    j <= records@.len(),
                    k < self@.col_indices.len(),
                    idx == self@.col_indices[k as int],
                    forall|m: int| 0 <= m < j ==> idx < #[trigger] records@[m]@.len(),
                decreases records@.len() - j,
            {
                if idx >= records[j].len() {
                    proof {
                        assert(!(self@.col_indices[k as int] < records@[j as int]@.len()));
                    }
                    return false;
                }
                j = j + 1;
            }
            k = k + 1;
        }
        true
    }

    /// The kept columns of a batch of records: for each kept position, in
    /// order, the entries at that position of each record, with the type its
    /// field in the schema gives.
    pub fn batch_columns(&self, records: &Vec<Vec<String>>) -> (r: Vec<ColumnBatch>)
        requires
            batch_readable(self@, records@),
        ensures
            r@.len() == self@.col_indices.len(),
            forall|k: int|
                0 <= k < r@.len() ==> {
                    &&& (#[trigger] r@[k]).datatype@ == self@.schema[self@.col_indices[k] as int].1
                    &&& strings_view(r@[k].values@) == column_of(records@, self@.col_indices[k])
                },
    {
        let mut out: Vec<ColumnBatch> = Vec::new();
        let mut k: usize = 0;
        while k < self.col_indices.len()
            invariant
                k <= self.col_indices@.len(),
                batch_readable(self@, records@),
                out@.len() == k,
                forall|m: int|
                    0 <= m < k ==> {
                        &&& (#[trigger] out@[m]).datatype@ == self@.schema[self@.col_indices[m] as int].1
                        &&& strings_view(out@[m].values@) == column_of(records@, self@.col_indices[m])
                    },
            decreases self.col_indices@.len() - k,
        {
            let idx = self.col_indices[k];
            assert(self@.col_indices[k as int] == idx);
            assert(idx < self@.schema.len());
            assert forall|m: int| 0 <= m < records@.len() implies idx < #[trigger] records@[m]@.len() by {
                assert(self@.col_indices[k as int] < records@[m]@.len());
            }
            let mut values: Vec<String> = Vec::new();
            let mut j: usize = 0;
            while j < records.len()
                invariant
                    j <= records@.len(),
                    idx == self@.col_indices[k as int],
                    forall|m: int| 0 <= m < records@.len() ==> idx < #[trigger] records@[m]@.len(),
                    strings_view(values@) =~= column_of(records@, idx).take(j as int),
                decreases records@.len() - j,
            {
                let ghost before = values@;
                values.push(records[j][idx].clone());
                proof {
                    assert(strings_view(values@) =~= strings_view(before).push(records@[j as int]@[idx as int]@));
                    assert(column_of(records@, idx).take(j + 1) =~= column_of(records@, idx).take(
                        j as int,
                    ).push(records@[j as int]@[idx as int]@));
                }
                j = j + 1;
            }
            proof {
                assert(column_of(records@, idx).take(records@.len() as int) =~= column_of(records@, idx));
            }
            let datatype = self.schema.fields[idx].datatype.clone();
            out.push(ColumnBatch { values, datatype });
            k = k + 1;
        }
        out
    }
}

/// A CSV source keeps, in file order and each once, exactly the columns
/// whose header one of the projections names.
pub proof fn law_selected_columns(headers: Seq<Seq<char>>, projections: Seq<Seq<char>>)
    requires
        headers.len() <= usize::MAX,
    ensures
        ({
            let sel = selected_columns(headers, projections, headers.len());
            &&& forall|i: int, j: int| 0 <= i < j < sel.len() ==> sel[i] < sel[j]
            &&& forall|i: int| 0 <= i < sel.len() ==> (#[trigger] sel[i]) < headers.len() && projections.contains(headers[sel[i] as int])
            &&& forall|h: int| 0 <= h < headers.len() && projections.contains(#[trigger] headers[h]) ==> sel.contains(h as usize)
        }),
{
    lemma_selected_columns(headers, projections, headers.len());
}

proof fn lemma_selected_columns(headers: Seq<Seq<char>>, projections: Seq<Seq<char>>, n: nat)
    requires
        n <= headers.len(),
        headers.len() <= usize::MAX,
    ensures
        ({
            let sel = selected_columns(headers, projections, n);
            &&& forall|i: int, j: int| 0 <= i < j < sel.len() ==> sel[i] < sel[j]
            &&& forall|i: int| 0 <= i < sel.len() ==> (#[trigger] sel[i]) < n && projections.contains(headers[sel[i] as int])
            &&& forall|h: int| 0 <= h < n && projections.contains(#[trigger] headers[h]) ==> sel.contains(h as usize)
        }),
    decreases n,
{
    if n > 0 {
        lemma_selected_columns(headers, projections, (n - 1) as nat);
        let prev = selected_columns(headers, projections, (n - 1) as nat);
        let sel = selected_columns(headers, projections, n);
        if projections.contains(headers[n - 1]) {
            assert(sel == prev.push((n - 1) as usize));
            assert forall|h: int| 0 <= h < n && projections.contains(#[trigger] headers[h]) implies sel.contains(h as usize) by {
                if h < n - 1 {
                    let k = choose|k: int| 0 <= k < prev.len() && prev[k] == h as usize;
                    assert(sel[k] == h as usize);
                } else {
                    assert(sel[prev.len() as int] == h as usize);
                }
            }
        }
    }
}

} // verus!
