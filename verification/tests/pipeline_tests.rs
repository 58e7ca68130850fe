use meshcode::mesh::MeshLevel;
use meshcode::pipeline::{
    build_warning, complete_row, find_column, parse_row_coords, resolve_columns, run_rows_wgs,
    ColumnError, Datum, FieldRole, RowOutcome,
};

fn strings(fields: &[&str]) -> Vec<String> {
    fields.iter().map(|s| s.to_string()).collect()
}

#[test]
fn end_to_end_example() {
    let header = strings(&["id", "lat", "lon"]);
    let rows = vec![strings(&["1", "35.6895", "139.6917"])];
    let out = run_rows_wgs(
        &header,
        &rows,
        &"lat".to_string(),
        &"lon".to_string(),
        MeshLevel::Standard,
    )
    .unwrap();
    assert_eq!(out.header, strings(&["id", "lat", "lon", "mesh_code"]));
    assert_eq!(out.lat_idx, 1);
    assert_eq!(out.lon_idx, 2);
    assert_eq!(out.rows, vec![strings(&["1", "35.6895", "139.6917", "53394525"])]);
    assert!(out.warnings.is_empty());
}

#[test]
fn malformed_row_example() {
    let header = strings(&["id", "lat", "lon"]);
    let rows = vec![
        strings(&["2", "abc", "139.0"]),
        strings(&["3", "35.0", "139.0"]),
    ];
    let out = run_rows_wgs(
        &header,
        &rows,
        &"lat".to_string(),
        &"lon".to_string(),
        MeshLevel::Standard,
    )
    .unwrap();
    assert_eq!(out.rows, vec![strings(&["3", "35.0", "139.0", "52394000"])]);
    assert_eq!(
        out.warnings,
        vec!["warning: line 2: invalid latitude value 'abc'; row skipped".to_string()]
    );
}

#[test]
fn row_skip_order_and_line_numbers() {
    let header = strings(&["lat", "lon"]);
    let rows = vec![
        strings(&["35.0", "139.0"]),
        strings(&["bad", "139.0"]),
        strings(&["35.6895", "139.6917"]),
        strings(&["35.0", "x"]),
    ];
    let out = run_rows_wgs(
        &header,
        &rows,
        &"lat".to_string(),
        &"lon".to_string(),
        MeshLevel::Standard,
    )
    .unwrap();
    assert_eq!(out.rows.len() + out.warnings.len(), rows.len());
    assert_eq!(
        out.rows,
        vec![
            strings(&["35.0", "139.0", "52394000"]),
            strings(&["35.6895", "139.6917", "53394525"]),
        ]
    );
    assert_eq!(
        out.warnings,
        vec![
            "warning: line 3: invalid latitude value 'bad'; row skipped".to_string(),
            "warning: line 5: invalid longitude value 'x'; row skipped".to_string(),
        ]
    );
}

#[test]
fn out_of_range_coordinate_is_skipped() {
    let header = strings(&["lat", "lon"]);
    let rows = vec![strings(&["95", "139.0"])];
    let out = run_rows_wgs(
        &header,
        &rows,
        &"lat".to_string(),
        &"lon".to_string(),
        MeshLevel::Standard,
    )
    .unwrap();
    assert!(out.rows.is_empty());
    assert_eq!(
        out.warnings,
        vec!["warning: line 2: invalid latitude value '95'; row skipped".to_string()]
    );
}

#[test]
fn missing_latitude_column() {
    let header = strings(&["id", "x", "lon"]);
    let r = run_rows_wgs(
        &header,
        &vec![],
        &"lat".to_string(),
        &"lon".to_string(),
        MeshLevel::Standard,
    );
    assert_eq!(r.unwrap_err(), ColumnError::LatitudeNotFound);
}

#[test]
fn missing_longitude_column() {
    let header = strings(&["id", "lat", "x"]);
    let r = run_rows_wgs(
        &header,
        &vec![],
        &"lat".to_string(),
        &"lon".to_string(),
        MeshLevel::Standard,
    );
    assert_eq!(r.unwrap_err(), ColumnError::LongitudeNotFound);
}

#[test]
fn column_error_messages() {
    assert_eq!(
        ColumnError::LatitudeNotFound.message(),
        "latitude column not found in header"
    );
    assert_eq!(
        ColumnError::LongitudeNotFound.message(),
        "longitude column not found in header"
    );
}

#[test]
fn find_column_first_occurrence() {
    let header = strings(&["a", "lat", "b", "lat"]);
    assert_eq!(find_column(&header, &"lat".to_string()), Some(1));
    assert_eq!(find_column(&header, &"c".to_string()), None);
}

#[test]
fn resolve_columns_positions() {
    let header = strings(&["id", "lat", "lon"]);
    assert_eq!(
        resolve_columns(&header, &"lat".to_string(), &"lon".to_string()),
        Ok((1, 2))
    );
    assert_eq!(
        resolve_columns(&header, &"id".to_string(), &"id".to_string()),
        Ok((0, 0))
    );
}

#[test]
fn parse_row_outcomes() {
    let row = strings(&["1", "35.6895", "139.6917"]);
    match parse_row_coords(&row, 1, 2, 2) {
        RowOutcome::Coords(la, lo) => {
            assert_eq!(la, 107_068_500_000);
            assert_eq!(lo, 419_075_100_000);
        }
        RowOutcome::Invalid(w) => panic!("unexpected warning: {}", w),
    }
    let bad = strings(&["1", "35.6895", "east"]);
    match parse_row_coords(&bad, 1, 2, 9) {
        RowOutcome::Coords(_, _) => panic!("row should not parse"),
        RowOutcome::Invalid(w) => {
            assert_eq!(w, "warning: line 9: invalid longitude value 'east'; row skipped");
        }
    }
}

#[test]
fn complete_row_appends_code() {
    let row = strings(&["1", "35.6895", "139.6917"]);
    let out = complete_row(&row, 107_068_500_000, 419_075_100_000, MeshLevel::Half);
    assert_eq!(out, strings(&["1", "35.6895", "139.6917", "533945253"]));
}

#[test]
fn warning_format() {
    assert_eq!(
        build_warning(7, FieldRole::Longitude, "x,y"),
        "warning: line 7: invalid longitude value 'x,y'; row skipped"
    );
    assert_eq!(
        build_warning(12, FieldRole::Latitude, ""),
        "warning: line 12: invalid latitude value ''; row skipped"
    );
}

#[test]
fn datum_transform_choice() {
    assert!(!Datum::Wgs.needs_transform());
    assert!(Datum::Jgs.needs_transform());
}
