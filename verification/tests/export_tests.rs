use gakuyukai_engine::Cell;
use gakuyukai_engine::DataError;
use gakuyukai_engine::GakuyukaiMembers;
use gakuyukai_engine::Sheet;

fn registry() -> GakuyukaiMembers {
    let rows = vec![
        vec![Cell::Int(1000001), Cell::Bool(true)],
        vec![Cell::Int(1000002), Cell::Bool(false)],
    ];
    let sheet = Sheet::new(2, rows).unwrap();
    GakuyukaiMembers::load_gakuyukai_members(&sheet, 0, 1).unwrap()
}

fn roster(ids: &[i64]) -> Sheet {
    let rows: Vec<Vec<Cell>> = ids
        .iter()
        .map(|id| vec![Cell::Int(*id), Cell::Text(format!("s{}", id))])
        .collect();
    Sheet::new(2, rows).unwrap()
}

#[test]
fn csv_has_header_and_one_line_per_circle() {
    let g = registry();
    let files = vec![
        ("choir.xlsx".to_string(), Some(roster(&[1000001, 1000002]))),
        ("band.xlsx".to_string(), Some(roster(&[1000002]))),
    ];
    let report = g.calculate_gakuyukai_rates(&files, 0, 1);
    let csv = report.to_csv_string();
    assert_eq!(
        csv,
        "サークル名,学友会員率,メンバー数,学友会員数\n\
         choir,50.00%,2,1\n\
         band,0.00%,1,0\n"
    );
}

#[test]
fn csv_of_empty_report_is_header_only() {
    let g = registry();
    let report = g.calculate_gakuyukai_rates(&vec![], 0, 1);
    assert_eq!(report.to_csv_string(), "サークル名,学友会員率,メンバー数,学友会員数\n");
}

#[test]
fn sheet_names_follow_report_order() {
    let g = registry();
    let files = vec![
        ("choir.xlsx".to_string(), Some(roster(&[1000001]))),
        ("band.xlsx".to_string(), Some(roster(&[1000002]))),
    ];
    let report = g.calculate_gakuyukai_rates(&files, 0, 1);
    let names = report.excel_sheet_names().unwrap();
    assert_eq!(names, vec!["choir".to_string(), "band".to_string()]);
}

#[test]
fn long_sheet_names_are_truncated() {
    let g = registry();
    let long = "a".repeat(40);
    let files = vec![(format!("{}.xlsx", long), Some(roster(&[1000001])))];
    let report = g.calculate_gakuyukai_rates(&files, 0, 1);
    let names = report.excel_sheet_names().unwrap();
    assert_eq!(names, vec!["a".repeat(31)]);
}

#[test]
fn colliding_sheet_names_are_an_export_error() {
    let g = registry();
    let files = vec![
        ("east/choir.xlsx".to_string(), Some(roster(&[1000001]))),
        ("west/choir.xlsx".to_string(), Some(roster(&[1000002]))),
    ];
    let report = g.calculate_gakuyukai_rates(&files, 0, 1);
    assert_eq!(report.excel_sheet_names().unwrap_err(), DataError::Export);
}

#[test]
fn summary_sheet_name_is_reserved() {
    let g = registry();
    let files = vec![("サマリー.xlsx".to_string(), Some(roster(&[1000001])))];
    let report = g.calculate_gakuyukai_rates(&files, 0, 1);
    assert_eq!(report.excel_sheet_names().unwrap_err(), DataError::Export);
}

#[test]
fn report_can_be_grown_by_hand() {
    let mut report = gakuyukai_engine::CircleGakuyukaiRates::new();
    assert_eq!(report.circles.len(), 0);
    let g = registry();
    let info = g
        .calculate_gakuyukai_rate("choir.xlsx", &roster(&[1000001]), 0, 1)
        .unwrap();
    report.push(info);
    report.push_error_file_path("bad.xlsx".to_string());
    assert_eq!(report.circles.len(), 1);
    assert_eq!(report.error_file_path, vec!["bad.xlsx".to_string()]);
}
