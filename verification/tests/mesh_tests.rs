use meshcode::mesh::{get_mesh_code, MeshLevel};
use meshcode::parse::parse_latitude;
use meshcode::parse::parse_longitude;

// 35.6895 degrees at 3_000_000_000 units per degree.
const LAT_TOKYO: i64 = 107_068_500_000;
// 139.6917 degrees.
const LON_TOKYO: i64 = 419_075_100_000;

#[test]
fn standard_code_example() {
    assert_eq!(get_mesh_code(LAT_TOKYO, LON_TOKYO, MeshLevel::Standard), "53394525");
}

#[test]
fn refined_codes_example() {
    assert_eq!(get_mesh_code(LAT_TOKYO, LON_TOKYO, MeshLevel::Half), "533945253");
    assert_eq!(get_mesh_code(LAT_TOKYO, LON_TOKYO, MeshLevel::Quarter), "5339452532");
    assert_eq!(get_mesh_code(LAT_TOKYO, LON_TOKYO, MeshLevel::Eighth), "53394525323");
}

#[test]
fn determinism_repeated_calls() {
    let a = get_mesh_code(LAT_TOKYO, LON_TOKYO, MeshLevel::Eighth);
    let b = get_mesh_code(LAT_TOKYO, LON_TOKYO, MeshLevel::Eighth);
    assert_eq!(a, b);
}

#[test]
fn hierarchical_containment_concrete() {
    let standard = get_mesh_code(LAT_TOKYO, LON_TOKYO, MeshLevel::Standard);
    let half = get_mesh_code(LAT_TOKYO, LON_TOKYO, MeshLevel::Half);
    let quarter = get_mesh_code(LAT_TOKYO, LON_TOKYO, MeshLevel::Quarter);
    let eighth = get_mesh_code(LAT_TOKYO, LON_TOKYO, MeshLevel::Eighth);
    assert!(half.starts_with(&standard));
    assert!(quarter.starts_with(&half));
    assert!(eighth.starts_with(&quarter));
}

#[test]
fn digit_count_concrete() {
    let standard = get_mesh_code(LAT_TOKYO, LON_TOKYO, MeshLevel::Standard);
    let half = get_mesh_code(LAT_TOKYO, LON_TOKYO, MeshLevel::Half);
    let quarter = get_mesh_code(LAT_TOKYO, LON_TOKYO, MeshLevel::Quarter);
    let eighth = get_mesh_code(LAT_TOKYO, LON_TOKYO, MeshLevel::Eighth);
    assert_eq!(half.len(), standard.len() + 1);
    assert_eq!(quarter.len(), standard.len() + 2);
    assert_eq!(eighth.len(), standard.len() + 3);
    for c in eighth[standard.len()..].chars() {
        assert!(c == '1' || c == '2' || c == '3' || c == '4');
    }
}

#[test]
fn origin_coordinate() {
    assert_eq!(get_mesh_code(0, 0, MeshLevel::Standard), "000000");
}

#[test]
fn extreme_coordinates() {
    // 90 degrees north, 180 degrees east: p = 135, u = 80, all remainders 0.
    assert_eq!(
        get_mesh_code(270_000_000_000, 540_000_000_000, MeshLevel::Standard),
        "135800000"
    );
    // South and west of the grid origin every band index saturates to 0.
    assert_eq!(get_mesh_code(-270_000_000_000, -540_000_000_000, MeshLevel::Standard), "000000");
}

#[test]
fn codes_from_parsed_text() {
    let lat = parse_latitude("35.6895").unwrap();
    let lon = parse_longitude("139.6917").unwrap();
    assert_eq!(lat, LAT_TOKYO);
    assert_eq!(lon, LON_TOKYO);
    assert_eq!(get_mesh_code(lat, lon, MeshLevel::Standard), "53394525");
}
