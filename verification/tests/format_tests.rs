use gakuyukai_engine::check_excel_file_path;
use gakuyukai_engine::file_stem;
use gakuyukai_engine::format_rate_label;
use gakuyukai_engine::rate_basis_points;
use gakuyukai_engine::u64_to_dec;
use gakuyukai_engine::DataError;

#[test]
fn decimal_rendering() {
    assert_eq!(u64_to_dec(0), "0");
    assert_eq!(u64_to_dec(7), "7");
    assert_eq!(u64_to_dec(10), "10");
    assert_eq!(u64_to_dec(1234567), "1234567");
}

#[test]
fn rate_labels_have_two_decimal_places() {
    assert_eq!(format_rate_label(0, 0), "0.00%");
    assert_eq!(format_rate_label(0, 5), "0.00%");
    assert_eq!(format_rate_label(1, 2), "50.00%");
    assert_eq!(format_rate_label(1, 3), "33.33%");
    assert_eq!(format_rate_label(2, 3), "66.67%");
    assert_eq!(format_rate_label(1, 8), "12.50%");
    assert_eq!(format_rate_label(5, 5), "100.00%");
}

#[test]
fn basis_points_round_to_nearest() {
    assert_eq!(rate_basis_points(0, 0), 0);
    assert_eq!(rate_basis_points(1, 3), 3333);
    assert_eq!(rate_basis_points(2, 3), 6667);
    assert_eq!(rate_basis_points(1, 1), 10000);
}

#[test]
fn excel_path_check() {
    assert!(check_excel_file_path("a.xlsx"));
    assert!(check_excel_file_path("dir/b.xls"));
    assert!(!check_excel_file_path("a.csv"));
    assert!(!check_excel_file_path("a.XLSX"));
    assert!(!check_excel_file_path("xlsx"));
    assert!(!check_excel_file_path("dir/~$a.xlsx"));
    assert!(!check_excel_file_path("~$b.xls"));
}

#[test]
fn file_stem_strips_directory_and_extension() {
    assert_eq!(file_stem("dir/choir.xlsx"), "choir");
    assert_eq!(file_stem("choir.xls"), "choir");
    assert_eq!(file_stem("a.b.c.xls"), "a.b.c");
    assert_eq!(file_stem("dir\\band.xlsx"), "band");
    assert_eq!(file_stem(".hidden"), ".hidden");
    assert_eq!(file_stem("noext"), "noext");
}

#[test]
fn error_messages_name_the_condition() {
    assert_eq!(DataError::Schema.message(), "column width is shorter than expected");
    assert_eq!(DataError::EmptyData.message(), "no one here");
}
