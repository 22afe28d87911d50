use calamine::{CellErrorType, Data, Range};
use xlrename::error::RenameError;
use xlrename::expand::{expand_pattern, map_value_to_pattern};
use xlrename::names::{filter_filename, text_less_or_equal, FilenameFilter};
use xlrename::sheet::{find_sheet, values_from_range};

const NAMES: [&str; 10] = ["ABC", "DEF", "GHI", "JKL", "MNO", "", "PQR", "STU", "VWX", "YZ"];

/// A sheet whose single column has the header "name" and then the values
/// above, an empty cell standing for the empty value.
fn setup_workbook() -> Range<Data> {
    let mut range = Range::new((0, 0), (NAMES.len() as u32, 0));
    range.set_value((0, 0), Data::String("name".to_owned()));
    for (i, v) in NAMES.iter().enumerate() {
        if !v.is_empty() {
            range.set_value((i as u32 + 1, 0), Data::String(v.to_string()));
        }
    }
    range
}

fn strings(v: &[&str]) -> Vec<String> {
    v.iter().map(|s| s.to_string()).collect()
}

#[test]
fn testing_filter_filename() {
    let filter = FilenameFilter::new(&".*".to_owned()).unwrap();
    let names = strings(&["b.txt", "a.txt", "Cargo.toml", "a.txt"]);
    let filenames = filter_filename(names, &filter);
    assert_eq!(filenames, strings(&["Cargo.toml", "a.txt", "a.txt", "b.txt"]));
}

#[test]
fn filter_keeps_only_matching_names() {
    let filter = FilenameFilter::new(&"\\.pdf$".to_owned()).unwrap();
    let names = strings(&["z.pdf", "notes.txt", "a.pdf", "pdf", "b.pdf.bak"]);
    assert_eq!(filter_filename(names, &filter), strings(&["a.pdf", "z.pdf"]));
}

#[test]
fn filter_searches_anywhere_in_the_name() {
    let filter = FilenameFilter::new(&"inv".to_owned()).unwrap();
    let names = strings(&["my_invoice.pdf", "INV.pdf", "report.inv"]);
    assert_eq!(filter_filename(names, &filter), strings(&["my_invoice.pdf", "report.inv"]));
}

#[test]
fn filter_on_no_names_is_empty() {
    let filter = FilenameFilter::new(&".*".to_owned()).unwrap();
    assert_eq!(filter_filename(Vec::new(), &filter), Vec::<String>::new());
}

#[test]
fn invalid_regex_is_an_error() {
    let r = FilenameFilter::new(&"(unclosed".to_owned());
    assert!(matches!(r, Err(RenameError::Regex(_))));
}

#[test]
fn text_order_follows_str_order() {
    let words = ["", "a", "ab", "b", "B", "é", "z", "ä", "a\u{10000}"];
    for x in words.iter() {
        for y in words.iter() {
            assert_eq!(text_less_or_equal(x, y), x <= y, "{x:?} {y:?}");
        }
    }
}

#[test]
fn testing_load_workbook() {
    let range = setup_workbook();
    let values = values_from_range(&range, Some("name".to_owned())).unwrap();
    assert_eq!(values, vec!["ABC", "DEF", "GHI", "JKL", "MNO", "", "PQR", "STU", "VWX", "YZ"]);
}

#[test]
fn testing_pattern_and_value() {
    let range = setup_workbook();
    let values = values_from_range(&range, Some("name".to_owned())).unwrap();
    let pattern = "test ?.txt".into();
    let new_filename = map_value_to_pattern(values, pattern);
    assert_eq!(
        new_filename,
        vec![
            "test ABC.txt",
            "test DEF.txt",
            "test GHI.txt",
            "test JKL.txt",
            "test MNO.txt",
            "test .txt",
            "test PQR.txt",
            "test STU.txt",
            "test VWX.txt",
            "test YZ.txt",
        ]
    );
}

#[test]
fn positional_mode_keeps_the_header_row() {
    let range = setup_workbook();
    let values = values_from_range(&range, None).unwrap();
    assert_eq!(
        values,
        vec!["name", "ABC", "DEF", "GHI", "JKL", "MNO", "", "PQR", "STU", "VWX", "YZ"]
    );
}

#[test]
fn both_modes_agree_on_the_first_column() {
    let mut range = setup_workbook();
    range.set_value((0, 1), Data::String("other".to_owned()));
    range.set_value((2, 1), Data::Int(7));
    let by_name = values_from_range(&range, Some("name".to_owned())).unwrap();
    let by_position = values_from_range(&range, None).unwrap();
    assert_eq!(by_name, by_position[1..].to_vec());
}

#[test]
fn column_mode_picks_the_named_column() {
    let mut range = Range::new((0, 0), (3, 2));
    range.set_value((0, 0), Data::String("id".to_owned()));
    range.set_value((0, 1), Data::String("name".to_owned()));
    range.set_value((0, 2), Data::String("count".to_owned()));
    range.set_value((1, 0), Data::Int(1));
    range.set_value((1, 1), Data::String("first".to_owned()));
    range.set_value((1, 2), Data::Float(2.5));
    range.set_value((2, 0), Data::Int(2));
    range.set_value((2, 2), Data::Bool(true));
    range.set_value((3, 1), Data::String("third".to_owned()));
    assert_eq!(
        values_from_range(&range, Some("name".to_owned())).unwrap(),
        vec!["first", "", "third"]
    );
    assert_eq!(
        values_from_range(&range, Some("count".to_owned())).unwrap(),
        vec!["2.5", "true", ""]
    );
    assert_eq!(values_from_range(&range, None).unwrap(), vec!["id", "1", "2", ""]);
}

#[test]
fn missing_column_gives_empty_values() {
    let range = setup_workbook();
    let values = values_from_range(&range, Some("Name".to_owned())).unwrap();
    assert_eq!(values, vec![""; 10]);
}

#[test]
fn range_not_at_the_origin() {
    let mut range = Range::new((2, 3), (4, 4));
    range.set_value((2, 3), Data::String("k".to_owned()));
    range.set_value((3, 3), Data::Int(-4));
    range.set_value((4, 3), Data::String("x y".to_owned()));
    range.set_value((3, 4), Data::String("side".to_owned()));
    assert_eq!(values_from_range(&range, None).unwrap(), vec!["k", "-4", "x y"]);
    assert_eq!(values_from_range(&range, Some("k".to_owned())).unwrap(), vec!["-4", "x y"]);
}

#[test]
fn header_only_sheet_has_no_values_by_name() {
    let mut range = Range::new((0, 0), (0, 0));
    range.set_value((0, 0), Data::String("name".to_owned()));
    assert_eq!(values_from_range(&range, Some("name".to_owned())).unwrap(), Vec::<String>::new());
    assert_eq!(values_from_range(&range, None).unwrap(), vec!["name"]);
}

#[test]
fn empty_sheet_is_an_error() {
    let range: Range<Data> = Range::empty();
    assert!(matches!(values_from_range(&range, None), Err(RenameError::EmptyWorkbook)));
    assert!(matches!(
        values_from_range(&range, Some("name".to_owned())),
        Err(RenameError::EmptyWorkbook)
    ));
}

#[test]
fn missing_sheet_is_sheet_not_found() {
    let sheets = strings(&["Data", "Sheet1", "Sheet1"]);
    assert_eq!(find_sheet(&sheets, &"Sheet1".to_owned()).unwrap(), 1);
    match find_sheet(&sheets, &"Sheet2".to_owned()) {
        Err(RenameError::SheetNotFound(name)) => assert_eq!(name, "Sheet2"),
        other => panic!("unexpected {other:?}"),
    }
}

#[test]
fn lone_placeholder_gives_the_value() {
    assert_eq!(expand_pattern("?", "Invoice 12"), "Invoice 12");
    assert_eq!(expand_pattern("?", ""), "");
}

#[test]
fn every_placeholder_is_replaced() {
    assert_eq!(expand_pattern("?-?.pdf", "ab"), "ab-ab.pdf");
    assert_eq!(expand_pattern("Invitation_?.pdf", "Zoé"), "Invitation_Zoé.pdf");
}

#[test]
fn pattern_without_placeholder_is_kept() {
    assert_eq!(expand_pattern("fixed.txt", "value"), "fixed.txt");
    assert_eq!(expand_pattern("", "value"), "");
}

#[test]
fn expansion_is_idempotent_for_plain_values() {
    let once = expand_pattern("a?b?", "xy");
    assert_eq!(expand_pattern(&once, "xy"), once);
}

#[test]
fn value_with_placeholder_is_inserted_verbatim() {
    assert_eq!(expand_pattern("<?>", "?"), "<?>");
}

#[test]
fn plan_stops_at_the_shorter_list() {
    let plan = xlrename::plan::rename_plan(strings(&["a", "b", "c"]), strings(&["x", "y"]));
    assert_eq!(plan, vec![("a".to_owned(), "x".to_owned()), ("b".to_owned(), "y".to_owned())]);
    let plan = xlrename::plan::rename_plan(strings(&["a"]), strings(&["x", "y"]));
    assert_eq!(plan, vec![("a".to_owned(), "x".to_owned())]);
    assert!(xlrename::plan::rename_plan(Vec::new(), strings(&["x"])).is_empty());
}

#[test]
fn error_cell_fails_column_mode() {
    let mut range = setup_workbook();
    range.set_value((0, 1), Data::String("other".to_owned()));
    range.set_value((4, 1), Data::Error(CellErrorType::NA));
    range.set_value((7, 0), Data::Error(CellErrorType::Div0));
    match values_from_range(&range, Some("name".to_owned())) {
        Err(RenameError::ErrorCell { row, col }) => assert_eq!((row, col), (4, 1)),
        other => panic!("unexpected {other:?}"),
    }
}

#[test]
fn error_cell_in_header_fails_column_mode() {
    let mut range = setup_workbook();
    range.set_value((0, 1), Data::Error(CellErrorType::Ref));
    assert!(matches!(
        values_from_range(&range, Some("name".to_owned())),
        Err(RenameError::ErrorCell { row: 0, col: 1 })
    ));
}

#[test]
fn error_cell_is_text_in_positional_mode() {
    let mut range = Range::new((0, 0), (1, 0));
    range.set_value((0, 0), Data::String("a".to_owned()));
    range.set_value((1, 0), Data::Error(CellErrorType::NA));
    assert_eq!(values_from_range(&range, None).unwrap(), vec!["a", "#N/A"]);
}

#[test]
fn duplicate_header_takes_rightmost_non_empty_cell() {
    let mut range = Range::new((0, 0), (3, 1));
    range.set_value((0, 0), Data::String("name".to_owned()));
    range.set_value((0, 1), Data::String("name".to_owned()));
    range.set_value((1, 0), Data::String("left".to_owned()));
    range.set_value((1, 1), Data::String("right".to_owned()));
    range.set_value((2, 0), Data::String("left".to_owned()));
    range.set_value((3, 0), Data::String("left".to_owned()));
    range.set_value((3, 1), Data::String(String::new()));
    assert_eq!(
        values_from_range(&range, Some("name".to_owned())).unwrap(),
        vec!["right", "left", ""]
    );
}
