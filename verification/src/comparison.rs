//! The rules of the `comparison` kind.

use vstd::prelude::*;
use crate::error::{DeclartError, SpecError};
use crate::model::{ComparisonCell, ComparisonDiagram, Diagram, SpecComparisonCell,
    SpecComparisonDiagram, SpecDiagram, strs};
use crate::raw::{RawComparisonDiagram, SpecRawComparisonColumn, SpecRawComparisonDiagram,
    SpecRawComparisonRow};
use crate::rules::{all_ok, all_ok_resume, invalid, invalid_value, lemma_all_ok_ends,
    lemma_all_ok_step, res};
use crate::text::{decimal, decimal_string, owned, str_eq};

verus! {

/// No label occurs twice.
pub open spec fn distinct(s: Seq<Seq<char>>) -> bool {
    forall|i: int, j: int| 0 <= i < j < s.len() ==> #[trigger] s[i] != #[trigger] s[j]
}

/// The labels of the declared rows.
pub open spec fn row_labels_of(rows: Seq<SpecRawComparisonRow>) -> Seq<Seq<char>> {
    rows.map_values(|r: SpecRawComparisonRow| r.label)
}

fn all_distinct(v: &Vec<String>) -> (r: bool)
    ensures
        r == distinct(strs(*v)),
{
    let ghost s = strs(*v);
    let n = v.len();
    let mut i: usize = 0;
    while i < n
        invariant
            i <= n,
            n == v@.len(),
            s == strs(*v),
            forall|a: int, b: int| 0 <= a < b < i ==> #[trigger] s[a] != #[trigger] s[b],
        decreases n - i,
    {
        let mut j: usize = 0;
        while j < i
            invariant
                j <= i,
                i < n,
                n == v@.len(),
                s == strs(*v),
                forall|a: int| 0 <= a < j ==> #[trigger] s[a] != s[i as int],
            decreases i - j,
        {
            assert(s[j as int] == v@[j as int]@ && s[i as int] == v@[i as int]@);
            if str_eq(v[j].as_str(), v[i].as_str()) {
                return false;
            }
            j = j + 1;
        }
        i = i + 1;
    }
    true
}

/// The labels of the declared columns.
pub open spec fn column_labels(cols: Seq<SpecRawComparisonColumn>) -> Seq<Seq<char>> {
    cols.map_values(|c: SpecRawComparisonColumn| c.label)
}

/// A cell key is accepted when it names a declared column.
pub open spec fn cell_key_check(labels: Seq<Seq<char>>, cell: (Seq<char>, Seq<char>)) -> Result<(), SpecError> {
    if labels.contains(cell.0) {
        Ok(())
    } else {
        Err(invalid("row cell key"@, cell.0, "'"@ + cell.0 + "' is not a declared column label"@))
    }
}

/// A row is accepted when each of its cell keys is, checked in order.
pub open spec fn row_check(labels: Seq<Seq<char>>, row: SpecRawComparisonRow) -> Result<(), SpecError> {
    match all_ok(row.cells, |c: (Seq<char>, Seq<char>)| cell_key_check(labels, c)) {
        Err(e) => Err(e),
        Ok(_) => Ok(()),
    }
}

/// The cells of a row, in the order they were declared.
pub open spec fn row_model_cells(row: SpecRawComparisonRow) -> Seq<SpecComparisonCell> {
    row.cells.map_values(|c: (Seq<char>, Seq<char>)| SpecComparisonCell { row: row.label, column: c.0, value: c.1 })
}

/// The rules of the `comparison` kind.
pub open spec fn comparison_value(raw: SpecRawComparisonDiagram) -> Result<SpecDiagram, SpecError> {
    let rows = raw.rows;
    let cols = raw.columns;
    let labels = column_labels(cols);
    if rows.len() == 0 {
        Err(invalid("rows"@, "0 rows"@, "Comparison tables require at least 1 row"@))
    } else if cols.len() == 0 {
        Err(invalid("columns"@, "0 columns"@, "Comparison tables require at least 1 column"@))
    } else if rows.len() > 10 {
        Err(invalid("rows"@, decimal(rows.len()) + " rows"@,
            "Comparison tables support at most 10 rows for legibility"@))
    } else if cols.len() > 8 {
        Err(invalid("columns"@, decimal(cols.len()) + " columns"@,
            "Comparison tables support at most 8 columns for legibility"@))
    } else if labels.contains("label"@) {
        Err(invalid("column label"@, "label"@,
            "'label' is reserved for the row identifier and cannot be used as a column name"@))
    } else if !distinct(labels) {
        Err(invalid("column label"@, "(duplicate)"@, "Each column label must be unique within the table"@))
    } else if !distinct(row_labels_of(rows)) {
        Err(invalid("row label"@, "(duplicate)"@, "Each row label must be unique within the table"@))
    } else {
        match all_ok(rows, |r: SpecRawComparisonRow| row_check(labels, r)) {
            Err(e) => Err(e),
            Ok(_) => Ok(SpecDiagram::Comparison(SpecComparisonDiagram {
                title: raw.title,
                rows: rows.map_values(|r: SpecRawComparisonRow| r.label),
                columns: labels,
                cells: rows.map_values(|r: SpecRawComparisonRow| row_model_cells(r)).flatten(),
            })),
        }
    }
}

/// Checks a `comparison` declaration and builds its model.
#[verifier::loop_isolation(false)]
pub fn validate_comparison(raw: RawComparisonDiagram) -> (r: Result<Diagram, DeclartError>)
    ensures
        res(r) == comparison_value(raw@),
{
    let ghost rows = raw@.rows;
    let ghost cols = raw@.columns;
    let ghost labels = column_labels(cols);
    let nr = raw.rows.len();
    let nc = raw.columns.len();
    if nr == 0 {
        return Err(invalid_value("rows", owned("0 rows"), "Comparison tables require at least 1 row"));
    }
    if nc == 0 {
        return Err(invalid_value("columns", owned("0 columns"), "Comparison tables require at least 1 column"));
    }
    if nr > 10 {
        let mut value = decimal_string(nr);
        value.append(" rows");
        return Err(invalid_value("rows", value, "Comparison tables support at most 10 rows for legibility"));
    }
    if nc > 8 {
        let mut value = decimal_string(nc);
        value.append(" columns");
        return Err(invalid_value("columns", value, "Comparison tables support at most 8 columns for legibility"));
    }
    // Column labels as strings.
    let mut columns: Vec<String> = Vec::new();
    let mut i: usize = 0;
    while i < nc
        invariant
            i <= nc,
            columns@.len() == i,
            forall|k: int| 0 <= k < i ==> (#[trigger] columns@[k])@ == labels[k],
            forall|k: int| 0 <= k < i ==> labels[k] != "label"@,
        decreases nc - i,
    {
        let c = raw.columns[i].label.clone();
        assert(labels[i as int] == raw.columns@[i as int].label@);
        if str_eq(c.as_str(), "label") {
            assert(labels.contains("label"@)) by {
                assert(labels[i as int] == "label"@);
            }
            return Err(invalid_value("column label", owned("label"),
                "'label' is reserved for the row identifier and cannot be used as a column name"));
        }
        columns.push(c);
        i = i + 1;
    }
    assert(strs(columns) =~= labels);
    assert(!labels.contains("label"@));
    if !all_distinct(&columns) {
        return Err(invalid_value("column label", owned("(duplicate)"), "Each column label must be unique within the table"));
    }
    let mut early_rows: Vec<String> = Vec::new();
    let mut i: usize = 0;
    while i < nr
        invariant
            i <= nr,
            early_rows@.len() == i,
            forall|k: int| 0 <= k < i ==> (#[trigger] early_rows@[k])@ == rows[k].label,
        decreases nr - i,
    {
        assert(rows[i as int] == raw.rows@[i as int]@);
        early_rows.push(raw.rows[i].label.clone());
        i = i + 1;
    }
    assert(strs(early_rows) =~= row_labels_of(rows));
    if !all_distinct(&early_rows) {
        return Err(invalid_value("row label", owned("(duplicate)"), "Each row label must be unique within the table"));
    }
    // Every cell key names a declared column.
    let ghost f = |r: SpecRawComparisonRow| row_check(labels, r);
    let ghost mut done: Seq<()> = Seq::empty();
    proof { lemma_all_ok_ends(rows, f, done); }
    let mut i: usize = 0;
    while i < nr
        invariant
            i <= nr,
            f == (|r: SpecRawComparisonRow| row_check(labels, r)),
            all_ok_resume(rows, f, i as int, done),
            strs(columns) == labels,
        decreases nr - i,
    {
        proof { lemma_all_ok_step(rows, f, i as int, done); }
        let row = &raw.rows[i];
        assert(rows[i as int] == row@);
        let ghost cells = row@.cells;
        let ghost g = |c: (Seq<char>, Seq<char>)| cell_key_check(labels, c);
        let ghost mut cdone: Seq<()> = Seq::empty();
        proof { lemma_all_ok_ends(cells, g, cdone); }
        let mut j: usize = 0;
        while j < row.cells.len()
            invariant
                j <= row.cells@.len(),
                cells == row@.cells,
                g == (|c: (Seq<char>, Seq<char>)| cell_key_check(labels, c)),
                all_ok_resume(cells, g, j as int, cdone),
            decreases row.cells@.len() - j,
        {
            proof { lemma_all_ok_step(cells, g, j as int, cdone); }
            let key = &row.cells[j].0;
            assert(cells[j as int].0 == key@);
            let mut found = false;
            let mut k: usize = 0;
            while k < nc
                invariant
                    k <= nc,
                    found == exists|m: int| 0 <= m < k && labels[m] == key@,
                decreases nc - k,
            {
                let same = str_eq(columns[k].as_str(), key.as_str());
                assert(columns@[k as int]@ == labels[k as int]);
                if same {
                    found = true;
                }
                k = k + 1;
            }
            if !found {
                assert(!labels.contains(key@));
                let mut hint = owned("'");
                hint.append(key.as_str());
                hint.append("' is not a declared column label");
                return Err(DeclartError::InvalidValue { field: owned("row cell key"), value: key.clone(), hint });
            }
            proof { cdone = cdone.push(()); }
            j = j + 1;
        }
        proof { lemma_all_ok_ends(cells, g, cdone); }
        proof { done = done.push(()); }
        i = i + 1;
    }
    proof { lemma_all_ok_ends(rows, f, done); }
    // Rows and cells.
    let ghost per_row = rows.map_values(|r: SpecRawComparisonRow| row_model_cells(r));
    let mut row_labels: Vec<String> = Vec::new();
    let mut out: Vec<ComparisonCell> = Vec::new();
    let mut i: usize = 0;
    assert(per_row.take(0).flatten() =~= Seq::<SpecComparisonCell>::empty());
    while i < nr
        invariant
            i <= nr,
            per_row == rows.map_values(|r: SpecRawComparisonRow| row_model_cells(r)),
            row_labels@.len() == i,
            forall|k: int| 0 <= k < i ==> (#[trigger] row_labels@[k])@ == rows[k].label,
            out@.map_values(|c: ComparisonCell| c@) == per_row.take(i as int).flatten(),
        decreases nr - i,
    {
        let row = &raw.rows[i];
        assert(rows[i as int] == row@);
        let ghost before = out@.map_values(|c: ComparisonCell| c@);
        let mut j: usize = 0;
        while j < row.cells.len()
            invariant
                j <= row.cells@.len(),
                out@.map_values(|c: ComparisonCell| c@) == before + row_model_cells(row@).take(j as int),
            decreases row.cells@.len() - j,
        {
            let p = &row.cells[j];
            let ghost prev = out@.map_values(|c: ComparisonCell| c@);
            let cell = ComparisonCell { row: row.label.clone(), column: p.0.clone(), value: p.1.clone() };
            assert(row@.cells[j as int] == (p.0@, p.1@));
            assert(cell@ == row_model_cells(row@)[j as int]);
            out.push(cell);
            assert(out@.map_values(|c: ComparisonCell| c@) =~= prev.push(row_model_cells(row@)[j as int]));
            assert(row_model_cells(row@).take(j as int + 1) =~= row_model_cells(row@).take(j as int).push(
                row_model_cells(row@)[j as int]));
            assert(out@.map_values(|c: ComparisonCell| c@) =~= before + row_model_cells(row@).take(j as int + 1));
            j = j + 1;
        }
        assert(row_model_cells(row@).take(row.cells@.len() as int) =~= row_model_cells(row@));
        assert(per_row.take(i as int + 1) =~= per_row.take(i as int).push(per_row[i as int]));
        proof { per_row.take(i as int).lemma_flatten_push(per_row[i as int]); }
        row_labels.push(row.label.clone());
        i = i + 1;
    }
    assert(per_row.take(nr as int) =~= per_row);
    assert(strs(row_labels) =~= rows.map_values(|r: SpecRawComparisonRow| r.label));
    Ok(Diagram::Comparison(ComparisonDiagram { title: raw.title, rows: row_labels, columns, cells: out }))
}

} // verus!
