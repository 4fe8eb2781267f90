//! Record extraction: from raw sheet rows to validated domain records.
//!
//! A roster row yields a student id and a name; a registry row yields
//! a student id and a membership flag. Rows whose id cell holds no
//! integer in the seven-digit identifier range are skipped silently,
//! as are roster rows without a non-empty name and registry rows
//! without a readable boolean flag. Row order is preserved.

use vstd::prelude::*;
use crate::cell::Cell;
use crate::cell::Sheet;
use crate::error::DataError;

verus! {

/// Valid student identifiers are exactly the seven-digit ones.
pub open spec fn spec_id_in_range(v: i64) -> bool {
    1_000_000 <= v <= 9_999_999
}

/// Whether `v` is a valid seven-digit student identifier.
pub fn id_in_range(v: i64) -> (r: bool)
    ensures
        r == spec_id_in_range(v),
{
    1_000_000 <= v && v <= 9_999_999
}

/// One student of a circle's roster: identifier, name, and, once a
/// rate computation has resolved it, the membership flag.
#[derive(Debug, Clone)]
pub struct Student {
    pub id: i64,
    pub name: String,
    pub is_gakuyukai: Option<bool>,
}

/// An ordered roster of students.
#[derive(Debug, Clone)]
pub struct Students {
    pub students: Vec<Student>,
}

impl Students {
    /// Whether this roster carries exactly the extracted records
    /// `model`, in order, each membership flag resolved against the
    /// member identifiers `members`.
    pub open spec fn matches_resolved(self, model: Seq<(i64, Seq<char>)>, members: Seq<i64>) -> bool {
        &&& self.students@.len() == model.len()
        &&& forall|i: int|
            0 <= i < model.len() ==> {
                &&& (#[trigger] self.students@[i]).id == model[i].0
                &&& self.students@[i].name@ == model[i].1
                &&& self.students@[i].is_gakuyukai == Some(members.contains(model[i].0))
            }
    }

    /// Whether this roster carries exactly the extracted records
    /// `model`, in order, with no membership flag resolved yet.
    pub open spec fn matches_roster(self, model: Seq<(i64, Seq<char>)>) -> bool {
        &&& self.students@.len() == model.len()
        &&& forall|i: int|
            0 <= i < model.len() ==> {
                &&& (#[trigger] self.students@[i]).id == model[i].0
                &&& self.students@[i].name@ == model[i].1
                &&& self.students@[i].is_gakuyukai is None
            }
    }
}

/// The roster record a row yields, if any: the id cell must hold an
/// in-range integer and the name cell non-empty text.
pub open spec fn spec_roster_entry(row: Seq<Cell>, id_col: int, name_col: int) -> Option<
    (i64, Seq<char>),
> {
    match row[id_col].spec_as_int() {
        Some(v) => if spec_id_in_range(v) && row[name_col].spec_is_nonempty_text() {
            Some((v, row[name_col].spec_text()))
        } else {
            None
        },
        None => None,
    }
}

/// All roster records of `rows`, in row order.
pub open spec fn spec_roster(rows: Seq<Vec<Cell>>, id_col: int, name_col: int) -> Seq<
    (i64, Seq<char>),
>
    decreases rows.len(),
{
    if rows.len() == 0 {
        Seq::empty()
    } else {
        spec_roster(rows.drop_last(), id_col, name_col) + match spec_roster_entry(
            rows.last()@,
            id_col,
            name_col,
        ) {
            Some(e) => seq![e],
            None => Seq::empty(),
        }
    }
}

proof fn lemma_roster_step(rows: Seq<Vec<Cell>>, i: int, id_col: int, name_col: int)
    requires
        0 <= i < rows.len(),
    ensures
        spec_roster(rows.subrange(0, i + 1), id_col, name_col) == spec_roster(
            rows.subrange(0, i),
            id_col,
            name_col,
        ) + match spec_roster_entry(rows[i]@, id_col, name_col) {
            Some(e) => seq![e],
            None => Seq::empty(),
        },
{
    assert(rows.subrange(0, i + 1).drop_last() =~= rows.subrange(0, i));
    assert(rows.subrange(0, i + 1).last() == rows[i]);
}

/// The registry record a row yields, if any: the id cell must hold
/// an in-range integer and the flag cell a boolean.
pub open spec fn spec_registry_entry(row: Seq<Cell>, id_col: int, is_col: int) -> Option<
    (i64, bool),
> {
    match row[id_col].spec_as_int() {
        Some(v) => if spec_id_in_range(v) {
            match row[is_col].spec_as_bool() {
                Some(b) => Some((v, b)),
                None => None,
            }
        } else {
            None
        },
        None => None,
    }
}

/// All registry records of `rows`, in row order.
pub open spec fn spec_registry_records(rows: Seq<Vec<Cell>>, id_col: int, is_col: int) -> Seq<
    (i64, bool),
>
    decreases rows.len(),
{
    if rows.len() == 0 {
        Seq::empty()
    } else {
        spec_registry_records(rows.drop_last(), id_col, is_col) + match spec_registry_entry(
            rows.last()@,
            id_col,
            is_col,
        ) {
            Some(e) => seq![e],
            None => Seq::empty(),
        }
    }
}

proof fn lemma_registry_step(rows: Seq<Vec<Cell>>, i: int, id_col: int, is_col: int)
    requires
        0 <= i < rows.len(),
    ensures
        spec_registry_records(rows.subrange(0, i + 1), id_col, is_col) == spec_registry_records(
            rows.subrange(0, i),
            id_col,
            is_col,
        ) + match spec_registry_entry(rows[i]@, id_col, is_col) {
            Some(e) => seq![e],
            None => Seq::empty(),
        },
{
    assert(rows.subrange(0, i + 1).drop_last() =~= rows.subrange(0, i));
    assert(rows.subrange(0, i + 1).last() == rows[i]);
}

/// At most one roster record comes out of each row.
pub proof fn lemma_roster_len(rows: Seq<Vec<Cell>>, id_col: int, name_col: int)
    ensures
        spec_roster(rows, id_col, name_col).len() <= rows.len(),
    decreases rows.len(),
{
    if rows.len() > 0 {
        lemma_roster_len(rows.drop_last(), id_col, name_col);
    }
}

/// At most one registry record comes out of each row.
pub proof fn lemma_registry_records_len(rows: Seq<Vec<Cell>>, id_col: int, is_col: int)
    ensures
        spec_registry_records(rows, id_col, is_col).len() <= rows.len(),
    decreases rows.len(),
{
    if rows.len() > 0 {
        lemma_registry_records_len(rows.drop_last(), id_col, is_col);
    }
}

impl Students {
    /// Extracts a circle's roster from the first worksheet: one
    /// record per row whose id cell holds an in-range integer and
    /// whose name cell holds non-empty text, in row order. Fails with
    /// a schema error exactly when the sheet is narrower than either
    /// requested column; an empty roster is not an error here.
    pub fn load_circle_members(sheet: &Sheet, id_col: usize, name_col: usize) -> (r: Result<
        Students,
        DataError,
    >)
        requires
            sheet.well_formed(),
        ensures
            match r {
                Ok(st) => id_col < sheet.width && name_col < sheet.width && st.matches_roster(
                    spec_roster(sheet.rows@, id_col as int, name_col as int),
                ),
                Err(e) => e == DataError::Schema && !(id_col < sheet.width && name_col
                    < sheet.width),
            },
    {
        if !(id_col < sheet.width && name_col < sheet.width) {
            return Err(DataError::Schema);
        }
        let mut members: Vec<Student> = Vec::new();
        let mut i: usize = 0;
        proof {
            assert(sheet.rows@.subrange(0, 0) =~= Seq::<Vec<Cell>>::empty());
        }
        while i < sheet.rows.len()
            invariant
                sheet.well_formed(),
                id_col < sheet.width,
                name_col < sheet.width,
                i <= sheet.rows@.len(),
                (Students { students: members }).matches_roster(
                    spec_roster(sheet.rows@.subrange(0, i as int), id_col as int, name_col as int),
                ),
            decreases sheet.rows@.len() - i,
        {
            let row = &sheet.rows[i];
            proof {
                lemma_roster_step(sheet.rows@, i as int, id_col as int, name_col as int);
            }
            if let Some(v) = row[id_col].as_int() {
                if id_in_range(v) && row[name_col].is_nonempty_text() {
                    let name = row[name_col].text();
                    members.push(Student { id: v, name, is_gakuyukai: None });
                }
            }
            i += 1;
        }
        proof {
            assert(sheet.rows@.subrange(0, sheet.rows@.len() as int) =~= sheet.rows@);
        }
        Ok(Students { students: members })
    }
}

/// Extracts registry records from the first worksheet: one record
/// per row whose id cell holds an in-range integer and whose flag
/// cell holds a boolean, in row order. Fails with a schema error
/// exactly when the sheet is narrower than either requested column.
pub fn extract_registry_records(sheet: &Sheet, id_col: usize, is_col: usize) -> (r: Result<
    Vec<(i64, bool)>,
    DataError,
>)
    requires
        sheet.well_formed(),
    ensures
        match r {
            Ok(v) => id_col < sheet.width && is_col < sheet.width && v@ == spec_registry_records(
                sheet.rows@,
                id_col as int,
                is_col as int,
            ),
            Err(e) => e == DataError::Schema && !(id_col < sheet.width && is_col < sheet.width),
        },
{
    if !(id_col < sheet.width && is_col < sheet.width) {
        return Err(DataError::Schema);
    }
    let mut records: Vec<(i64, bool)> = Vec::new();
    let mut i: usize = 0;
    proof {
        assert(sheet.rows@.subrange(0, 0) =~= Seq::<Vec<Cell>>::empty());
    }
    while i < sheet.rows.len()
        invariant
            sheet.well_formed(),
            id_col < sheet.width,
            is_col < sheet.width,
            i <= sheet.rows@.len(),
            records@ == spec_registry_records(
                sheet.rows@.subrange(0, i as int),
                id_col as int,
                is_col as int,
            ),
        decreases sheet.rows@.len() - i,
    {
        let row = &sheet.rows[i];
        proof {
            lemma_registry_step(sheet.rows@, i as int, id_col as int, is_col as int);
        }
        if let Some(v) = row[id_col].as_int() {
            if id_in_range(v) {
                if let Some(b) = row[is_col].as_bool() {
                    records.push((v, b));
                }
            }
        }
        i += 1;
    }
    proof {
        assert(sheet.rows@.subrange(0, sheet.rows@.len() as int) =~= sheet.rows@);
    }
    Ok(records)
}

} // verus!
