use gakuyukai_engine::collect_outcomes;
use gakuyukai_engine::Cell;
use gakuyukai_engine::DataError;
use gakuyukai_engine::GakuyukaiMembers;
use gakuyukai_engine::Sheet;

fn registry() -> GakuyukaiMembers {
    let rows = vec![
        vec![Cell::Int(1000001), Cell::Bool(true)],
        vec![Cell::Int(1000002), Cell::Bool(true)],
        vec![Cell::Int(1000003), Cell::Bool(false)],
    ];
    let sheet = Sheet::new(2, rows).unwrap();
    GakuyukaiMembers::load_gakuyukai_members(&sheet, 0, 1).unwrap()
}

fn roster_sheet() -> Sheet {
    let rows = vec![
        vec![Cell::Int(1000001), Cell::Text("Asuka".to_string())],
        vec![Cell::Int(1000003), Cell::Text("Jiro".to_string())],
        vec![Cell::Int(1000004), Cell::Empty],
    ];
    Sheet::new(2, rows).unwrap()
}

#[test]
fn compute_joins_roster_against_registry() {
    let g = registry();
    let info = g
        .calculate_gakuyukai_rate("clubs/choir.xlsx", &roster_sheet(), 0, 1)
        .unwrap();
    assert_eq!(info.file_path, "clubs/choir.xlsx");
    assert_eq!(info.name, "choir");
    assert_eq!(info.member_count, 2);
    assert_eq!(info.gakuyukai_member_count, 1);
    assert_eq!(info.rate_string, "50.00%");
    let roster = info.member.unwrap();
    assert_eq!(roster.students.len(), 2);
    assert_eq!(roster.students[0].id, 1000001);
    assert_eq!(roster.students[0].name, "Asuka");
    assert_eq!(roster.students[0].is_gakuyukai, Some(true));
    assert_eq!(roster.students[1].id, 1000003);
    assert_eq!(roster.students[1].is_gakuyukai, Some(false));
}

#[test]
fn member_count_never_exceeds_total_count() {
    let g = registry();
    let info = g
        .calculate_gakuyukai_rate("a.xlsx", &roster_sheet(), 0, 1)
        .unwrap();
    assert!(0 <= info.gakuyukai_member_count);
    assert!(info.gakuyukai_member_count <= info.member_count);
}

#[test]
fn empty_roster_is_empty_data_not_zero_total() {
    let g = registry();
    let rows = vec![
        vec![Cell::Int(42), Cell::Text("not a student".to_string())],
        vec![Cell::Int(1000001), Cell::Empty],
    ];
    let sheet = Sheet::new(2, rows).unwrap();
    let r = g.calculate_gakuyukai_rate("a.xlsx", &sheet, 0, 1);
    assert_eq!(r.unwrap_err(), DataError::EmptyData);
}

#[test]
fn wrong_extension_is_unsupported_format() {
    let g = registry();
    let r = g.calculate_gakuyukai_rate("notes.txt", &roster_sheet(), 0, 1);
    assert_eq!(r.unwrap_err(), DataError::UnsupportedFormat);
}

#[test]
fn lock_file_is_unsupported_format() {
    let g = registry();
    let r = g.calculate_gakuyukai_rate("~$choir.xlsx", &roster_sheet(), 0, 1);
    assert_eq!(r.unwrap_err(), DataError::UnsupportedFormat);
}

#[test]
fn narrow_roster_sheet_is_schema_error() {
    let g = registry();
    let sheet = Sheet::new(1, vec![vec![Cell::Int(1000001)]]).unwrap();
    let r = g.calculate_gakuyukai_rate("a.xlsx", &sheet, 0, 1);
    assert_eq!(r.unwrap_err(), DataError::Schema);
}

#[test]
fn aggregate_yields_one_outcome_per_candidate() {
    let g = registry();
    let files = vec![
        ("clubs/choir.xlsx".to_string(), Some(roster_sheet())),
        ("clubs/broken.xlsx".to_string(), None),
        ("clubs/band.xls".to_string(), Some(roster_sheet())),
    ];
    let report = g.calculate_gakuyukai_rates(&files, 0, 1);
    assert_eq!(report.circles.len() + report.error_file_path.len(), 3);
    assert_eq!(report.circles.len(), 2);
    assert_eq!(report.error_file_path.len(), 1);
    assert_eq!(report.error_file_path[0], "clubs/broken.xlsx");
    assert_eq!(report.circles[0].name, "choir");
    assert_eq!(report.circles[1].name, "band");
}

#[test]
fn aggregate_skips_non_excel_and_lock_files() {
    let g = registry();
    let files = vec![
        ("clubs/notes.txt".to_string(), Some(roster_sheet())),
        ("clubs/~$choir.xlsx".to_string(), Some(roster_sheet())),
        ("clubs/choir.xlsx".to_string(), Some(roster_sheet())),
    ];
    let report = g.calculate_gakuyukai_rates(&files, 0, 1);
    assert_eq!(report.circles.len(), 1);
    assert_eq!(report.error_file_path.len(), 2);
    assert!(report.error_file_path.contains(&"clubs/notes.txt".to_string()));
    assert!(report.error_file_path.contains(&"clubs/~$choir.xlsx".to_string()));
}

#[test]
fn one_failure_never_disturbs_other_outcomes() {
    let g = registry();
    let empty = Sheet::new(2, vec![vec![Cell::Empty, Cell::Empty]]).unwrap();
    let files = vec![
        ("a.xlsx".to_string(), Some(roster_sheet())),
        ("b.xlsx".to_string(), Some(empty)),
        ("c.xlsx".to_string(), Some(roster_sheet())),
    ];
    let report = g.calculate_gakuyukai_rates(&files, 0, 1);
    assert_eq!(report.circles.len(), 2);
    assert_eq!(report.error_file_path, vec!["b.xlsx".to_string()]);
    assert_eq!(report.circles[0].name, "a");
    assert_eq!(report.circles[1].name, "c");
}

#[test]
fn collect_outcomes_keeps_every_outcome() {
    let g = registry();
    let ok = g
        .calculate_gakuyukai_rate("a.xlsx", &roster_sheet(), 0, 1)
        .unwrap();
    let outcomes = vec![
        ("a.xlsx".to_string(), Ok(ok)),
        ("b.xlsx".to_string(), Err(DataError::Io)),
        ("c.txt".to_string(), Err(DataError::UnsupportedFormat)),
    ];
    let report = collect_outcomes(outcomes);
    assert_eq!(report.circles.len(), 1);
    assert_eq!(report.circles[0].name, "a");
    assert_eq!(
        report.error_file_path,
        vec!["b.xlsx".to_string(), "c.txt".to_string()]
    );
}
