use gakuyukai_engine::extract_registry_records;
use gakuyukai_engine::Cell;
use gakuyukai_engine::DataError;
use gakuyukai_engine::Sheet;
use gakuyukai_engine::Students;

#[test]
fn roster_extraction_preserves_order_and_duplicates() {
    let rows = vec![
        vec![Cell::Text("header".to_string()), Cell::Text("row".to_string())],
        vec![Cell::Int(1000002), Cell::Text("Beni".to_string())],
        vec![Cell::Int(1000001), Cell::Text("Aoi".to_string())],
        vec![Cell::Int(1000002), Cell::Text("Beni".to_string())],
    ];
    let sheet = Sheet::new(2, rows).unwrap();
    let st = Students::load_circle_members(&sheet, 0, 1).unwrap();
    let ids: Vec<i64> = st.students.iter().map(|s| s.id).collect();
    assert_eq!(ids, vec![1000002, 1000001, 1000002]);
    assert!(st.students.iter().all(|s| s.is_gakuyukai.is_none()));
}

#[test]
fn roster_rows_without_valid_name_are_skipped() {
    let rows = vec![
        vec![Cell::Int(1000001), Cell::Text("".to_string())],
        vec![Cell::Int(1000002), Cell::Empty],
        vec![Cell::Int(1000003), Cell::Int(42)],
        vec![Cell::Int(1000004), Cell::Text("Dan".to_string())],
    ];
    let sheet = Sheet::new(2, rows).unwrap();
    let st = Students::load_circle_members(&sheet, 0, 1).unwrap();
    assert_eq!(st.students.len(), 1);
    assert_eq!(st.students[0].id, 1000004);
    assert_eq!(st.students[0].name, "Dan");
}

#[test]
fn empty_roster_is_not_an_extraction_error() {
    let sheet = Sheet::new(2, vec![vec![Cell::Empty, Cell::Empty]]).unwrap();
    let st = Students::load_circle_members(&sheet, 0, 1).unwrap();
    assert_eq!(st.students.len(), 0);
}

#[test]
fn registry_extraction_reads_ids_and_flags() {
    let rows = vec![
        vec![Cell::Int(1000001), Cell::Text("x".to_string()), Cell::Bool(true)],
        vec![Cell::Int(1000002), Cell::Text("y".to_string()), Cell::Bool(false)],
        vec![Cell::Int(55), Cell::Empty, Cell::Bool(true)],
    ];
    let sheet = Sheet::new(3, rows).unwrap();
    let records = extract_registry_records(&sheet, 0, 2).unwrap();
    assert_eq!(records, vec![(1000001, true), (1000002, false)]);
}

#[test]
fn registry_extraction_rejects_narrow_sheet() {
    let sheet = Sheet::new(2, vec![vec![Cell::Int(1000001), Cell::Bool(true)]]).unwrap();
    assert_eq!(extract_registry_records(&sheet, 0, 2).unwrap_err(), DataError::Schema);
}

#[test]
fn ragged_rows_are_rejected_by_sheet_construction() {
    let rows = vec![
        vec![Cell::Int(1000001), Cell::Bool(true)],
        vec![Cell::Int(1000002)],
    ];
    assert!(Sheet::new(2, rows).is_none());
}
