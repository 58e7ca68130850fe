//! The row pipeline: resolve the configured latitude/longitude columns in
//! a header, then turn each data row into either the row with its mesh
//! code appended or a diagnostic warning.
//!
//! A missing column is fatal and reported before any data row is touched;
//! an unparseable coordinate is recoverable — the row is dropped with a
//! warning naming its source line, the field role and the raw text.  Kept
//! rows stay in input order with exactly one field appended.

use vstd::prelude::*;
use vstd::string::StringExecFns;
use crate::digits::{spec_dec_digits, append_u64};
use crate::mesh::{MeshLevel, get_mesh_code, spec_mesh_code, LAT_LIMIT_UNITS, LON_LIMIT_UNITS};
use crate::parse::{
    parse_latitude,
    parse_longitude,
    spec_decimal_units,
    spec_parses_within,
    spec_trim,
};

verus! {

/// The geodetic frame the input coordinates are expressed in.
#[derive(Clone, Copy, Debug, PartialEq, Eq, Structural)]
pub enum Datum {
    /// The global reference frame; the encoder's native frame.
    Wgs,
    /// The legacy local datum; coordinates need conversion before encoding.
    Jgs,
}

impl Datum {
    /// Whether coordinates in this datum must be converted to the global
    /// frame before encoding.
    pub fn needs_transform(&self) -> (b: bool)
        ensures
            b == (*self == Datum::Jgs),
    {
        match self {
            Datum::Jgs => true,
            Datum::Wgs => false,
        }
    }
}

/// The coordinate field a diagnostic refers to.
#[derive(Clone, Copy, Debug, PartialEq, Eq, Structural)]
pub enum FieldRole {
    Latitude,
    Longitude,
}

/// A configured column name that is absent from the header: a fatal
/// error, raised before any data row is processed.
#[derive(Clone, Copy, Debug, PartialEq, Eq, Structural)]
pub enum ColumnError {
    LatitudeNotFound,
    LongitudeNotFound,
}

impl ColumnError {
    /// A description of the error for diagnostics.
    pub fn message(&self) -> (m: String)
        ensures
            *self == ColumnError::LatitudeNotFound ==> m@ == "latitude column not found in header"@,
            *self == ColumnError::LongitudeNotFound ==> m@
                == "longitude column not found in header"@,
    {
        match self {
            ColumnError::LatitudeNotFound => String::from_str("latitude column not found in header"),
            ColumnError::LongitudeNotFound => String::from_str(
                "longitude column not found in header",
            ),
        }
    }
}

/// The text naming a field role in a warning.
pub open spec fn spec_role_text(role: FieldRole) -> Seq<char> {
    match role {
        FieldRole::Latitude => "latitude"@,
        FieldRole::Longitude => "longitude"@,
    }
}

/// The warning emitted for a skipped row: its 1-based source line, the
/// offending field's role, and the raw field text.
pub open spec fn spec_warning(line: int, role: FieldRole, raw: Seq<char>) -> Seq<char> {
    "warning: line "@ + spec_dec_digits(line) + ": invalid "@ + spec_role_text(role)
        + " value '"@ + raw + "'; row skipped"@
}

/// Both coordinate fields of a row parse as in-range finite decimals.
pub open spec fn spec_row_valid(row: Seq<Seq<char>>, lat_idx: int, lon_idx: int) -> bool {
    spec_parses_within(row[lat_idx], LAT_LIMIT_UNITS as int) && spec_parses_within(
        row[lon_idx],
        LON_LIMIT_UNITS as int,
    )
}

/// The latitude of a row, in units.
pub open spec fn spec_row_lat(row: Seq<Seq<char>>, lat_idx: int) -> int {
    spec_decimal_units(spec_trim(row[lat_idx]))
}

/// The longitude of a row, in units.
pub open spec fn spec_row_lon(row: Seq<Seq<char>>, lon_idx: int) -> int {
    spec_decimal_units(spec_trim(row[lon_idx]))
}

/// The mesh code computed from a row's raw coordinates.
pub open spec fn spec_row_code(
    row: Seq<Seq<char>>,
    lat_idx: int,
    lon_idx: int,
    level: MeshLevel,
) -> Seq<char> {
    spec_mesh_code(spec_row_lat(row, lat_idx), spec_row_lon(row, lon_idx), level)
}

/// The warning an invalid row produces: the latitude field is checked
/// first, as the rows are processed.
pub open spec fn spec_row_warning(
    row: Seq<Seq<char>>,
    lat_idx: int,
    lon_idx: int,
    line: int,
) -> Seq<char> {
    if !spec_parses_within(row[lat_idx], LAT_LIMIT_UNITS as int) {
        spec_warning(line, FieldRole::Latitude, row[lat_idx])
    } else {
        spec_warning(line, FieldRole::Longitude, row[lon_idx])
    }
}

/// The rows the pipeline keeps, in input order, each with its mesh code
/// appended.
pub open spec fn spec_out_rows(
    rows: Seq<Seq<Seq<char>>>,
    lat_idx: int,
    lon_idx: int,
    level: MeshLevel,
) -> Seq<Seq<Seq<char>>>
    decreases rows.len(),
{
    if rows.len() == 0 {
        Seq::empty()
    } else {
        let init = spec_out_rows(rows.drop_last(), lat_idx, lon_idx, level);
        let row = rows.last();
        if spec_row_valid(row, lat_idx, lon_idx) {
            init.push(row.push(spec_row_code(row, lat_idx, lon_idx, level)))
        } else {
            init
        }
    }
}

/// The warnings the pipeline emits, in input order; the row at 0-based
/// position `i` sits at source line `i + 2` (the header is line 1).
pub open spec fn spec_out_warnings(
    rows: Seq<Seq<Seq<char>>>,
    lat_idx: int,
    lon_idx: int,
) -> Seq<Seq<char>>
    decreases rows.len(),
{
    if rows.len() == 0 {
        Seq::empty()
    } else {
        let init = spec_out_warnings(rows.drop_last(), lat_idx, lon_idx);
        let row = rows.last();
        if spec_row_valid(row, lat_idx, lon_idx) {
            init
        } else {
            init.push(spec_row_warning(row, lat_idx, lon_idx, rows.len() as int + 1))
        }
    }
}

/// Row conservation: every input row becomes exactly one kept row or one
/// warning, so no row is lost and none is duplicated.
pub proof fn lemma_row_conservation(
    rows: Seq<Seq<Seq<char>>>,
    lat_idx: int,
    lon_idx: int,
    level: MeshLevel,
)
    ensures
        spec_out_rows(rows, lat_idx, lon_idx, level).len() + spec_out_warnings(
            rows,
            lat_idx,
            lon_idx,
        ).len() == rows.len(),
    decreases rows.len(),
{
    if rows.len() > 0 {
        lemma_row_conservation(rows.drop_last(), lat_idx, lon_idx, level);
    }
}

/// Build the warning text for a skipped row.
pub fn build_warning(line: u64, role: FieldRole, raw: &str) -> (w: String)
    ensures
        w@ == spec_warning(line as int, role, raw@),
{
    let mut w = String::new();
    w.append("warning: line ");
    append_u64(&mut w, line);
    w.append(": invalid ");
    match role {
        FieldRole::Latitude => w.append("latitude"),
        FieldRole::Longitude => w.append("longitude"),
    }
    w.append(" value '");
    w.append(raw);
    w.append("'; row skipped");
    proof {
        assert(w@ =~= spec_warning(line as int, role, raw@));
    }
    w
}

/// Find the position of the first header field equal to `name`.
pub fn find_column(header: &Vec<String>, name: &String) -> (r: Option<usize>)
    ensures
        match r {
            Some(i) => i < header@.len() && header@[i as int]@ == name@ && forall|j: int|
                0 <= j < i ==> header@[j]@ != name@,
            None => forall|j: int| 0 <= j < header@.len() ==> header@[j]@ != name@,
        },
{
    let mut i: usize = 0;
    while i < header.len()
        invariant
            i <= header@.len(),
            forall|j: int| 0 <= j < i ==> header@[j]@ != name@,
        decreases header@.len() - i,
    {
        if header[i] == *name {
            return Some(i);
        }
        i = i + 1;
    }
    None
}

/// Resolve the configured latitude and longitude column positions in the
/// header.  The latitude column is checked first, so when both names are
/// missing the latitude error is the one reported.
pub fn resolve_columns(header: &Vec<String>, lat_name: &String, lon_name: &String) -> (r: Result<
    (usize, usize),
    ColumnError,
>)
    ensures
        match r {
            Ok(idx) => idx.0 < header@.len() && header@[idx.0 as int]@ == lat_name@ && (forall|
                j: int,
            | 0 <= j < idx.0 ==> header@[j]@ != lat_name@) && idx.1 < header@.len()
                && header@[idx.1 as int]@ == lon_name@ && (forall|j: int|
                0 <= j < idx.1 ==> header@[j]@ != lon_name@),
            Err(ColumnError::LatitudeNotFound) => forall|j: int|
                0 <= j < header@.len() ==> header@[j]@ != lat_name@,
            Err(ColumnError::LongitudeNotFound) => (exists|j: int|
                0 <= j < header@.len() && header@[j]@ == lat_name@) && forall|j: int|
                0 <= j < header@.len() ==> header@[j]@ != lon_name@,
        },
{
    let lat_idx = match find_column(header, lat_name) {
        Some(i) => i,
        None => {
            return Err(ColumnError::LatitudeNotFound);
        },
    };
    let lon_idx = match find_column(header, lon_name) {
        Some(i) => i,
        None => {
            return Err(ColumnError::LongitudeNotFound);
        },
    };
    Ok((lat_idx, lon_idx))
}

/// A copy of `fields` with one more field at the end.
pub fn append_field(fields: &Vec<String>, value: String) -> (out: Vec<String>)
    ensures
        out.deep_view() == fields.deep_view().push(value@),
{
    let mut out: Vec<String> = Vec::new();
    let mut i: usize = 0;
    while i < fields.len()
        invariant
            i <= fields@.len(),
            out@.len() == i,
            forall|k: int| 0 <= k < i ==> (#[trigger] out@[k])@ == fields@[k]@,
        decreases fields@.len() - i,
    {
        out.push(fields[i].clone());
        i = i + 1;
    }
    out.push(value);
    proof {
        assert(out.deep_view() =~= fields.deep_view().push(value@));
    }
    out
}

/// The outcome of reading one row's coordinate fields.
#[derive(Debug)]
pub enum RowOutcome {
    /// Both fields parsed: the latitude and longitude, in units.
    Coords(i64, i64),
    /// A field did not parse: the warning to emit for the skipped row.
    Invalid(String),
}

/// Read and parse the coordinate fields of one row.  `line` is the row's
/// 1-based source line, used in the warning when a field is invalid.
pub fn parse_row_coords(fields: &Vec<String>, lat_idx: usize, lon_idx: usize, line: u64) -> (r:
    RowOutcome)
    requires
        lat_idx < fields@.len(),
        lon_idx < fields@.len(),
    ensures
        match r {
            RowOutcome::Coords(la, lo) => spec_row_valid(
                fields.deep_view(),
                lat_idx as int,
                lon_idx as int,
            ) && la == spec_row_lat(fields.deep_view(), lat_idx as int) && lo == spec_row_lon(
                fields.deep_view(),
                lon_idx as int,
            ) && -LAT_LIMIT_UNITS <= la <= LAT_LIMIT_UNITS && -LON_LIMIT_UNITS <= lo
                <= LON_LIMIT_UNITS,
            RowOutcome::Invalid(w) => !spec_row_valid(
                fields.deep_view(),
                lat_idx as int,
                lon_idx as int,
            ) && w@ == spec_row_warning(
                fields.deep_view(),
                lat_idx as int,
                lon_idx as int,
                line as int,
            ),
        },
{
    let lat_field = &fields[lat_idx];
    let la = match parse_latitude(lat_field.as_str()) {
        Some(v) => v,
        None => {
            return RowOutcome::Invalid(
                build_warning(line, FieldRole::Latitude, lat_field.as_str()),
            );
        },
    };
    let lon_field = &fields[lon_idx];
    match parse_longitude(lon_field.as_str()) {
        Some(lo) => RowOutcome::Coords(la, lo),
        None => RowOutcome::Invalid(build_warning(line, FieldRole::Longitude, lon_field.as_str())),
    }
}

/// A row with its mesh code appended, computed from coordinates already
/// in the global frame.
pub fn complete_row(fields: &Vec<String>, lat_units: i64, lon_units: i64, level: MeshLevel) -> (out:
    Vec<String>)
    requires
        -LAT_LIMIT_UNITS <= lat_units <= LAT_LIMIT_UNITS,
        -LON_LIMIT_UNITS <= lon_units <= LON_LIMIT_UNITS,
    ensures
        out.deep_view() == fields.deep_view().push(
            spec_mesh_code(lat_units as int, lon_units as int, level),
        ),
{
    append_field(fields, get_mesh_code(lat_units, lon_units, level))
}

/// Everything a pipeline run over in-memory rows produces.
#[derive(Debug)]
pub struct PipelineOutput {
    /// The input header with "mesh_code" appended.
    pub header: Vec<String>,
    /// The resolved latitude column position.
    pub lat_idx: usize,
    /// The resolved longitude column position.
    pub lon_idx: usize,
    /// The kept rows, in input order, each with its mesh code appended.
    pub rows: Vec<Vec<String>>,
    /// One warning per skipped row, in input order.
    pub warnings: Vec<String>,
}

/// Run the pipeline over rows whose coordinates are already in the
/// global frame: resolve the columns, then keep each row whose
/// coordinates parse — appending the code computed directly from its raw
/// parsed values — and emit a warning for each row that does not.
pub fn run_rows_wgs(
    header: &Vec<String>,
    rows: &Vec<Vec<String>>,
    lat_name: &String,
    lon_name: &String,
    level: MeshLevel,
) -> (r: Result<PipelineOutput, ColumnError>)
    requires
        forall|i: int| 0 <= i < rows@.len() ==> (#[trigger] rows@[i])@.len() == header@.len(),
        rows@.len() + 2 <= u64::MAX,
    ensures
        match r {
            Ok(out) => out.lat_idx < header@.len() && header@[out.lat_idx as int]@ == lat_name@
                && (forall|j: int| 0 <= j < out.lat_idx ==> header@[j]@ != lat_name@)
                && out.lon_idx < header@.len() && header@[out.lon_idx as int]@ == lon_name@ && (
            forall|j: int| 0 <= j < out.lon_idx ==> header@[j]@ != lon_name@)
                && out.header.deep_view() == header.deep_view().push("mesh_code"@)
                && out.rows.deep_view() == spec_out_rows(
                rows.deep_view(),
                out.lat_idx as int,
                out.lon_idx as int,
                level,
            ) && out.warnings.deep_view() == spec_out_warnings(
                rows.deep_view(),
                out.lat_idx as int,
                out.lon_idx as int,
            ),
            Err(ColumnError::LatitudeNotFound) => forall|j: int|
                0 <= j < header@.len() ==> header@[j]@ != lat_name@,
            Err(ColumnError::LongitudeNotFound) => (exists|j: int|
                0 <= j < header@.len() && header@[j]@ == lat_name@) && forall|j: int|
                0 <= j < header@.len() ==> header@[j]@ != lon_name@,
        },
{
    let (lat_idx, lon_idx) = match resolve_columns(header, lat_name, lon_name) {
        Ok(idx) => idx,
        Err(e) => {
            return Err(e);
        },
    };
    let out_header = append_field(header, String::from_str("mesh_code"));

    let mut out_rows: Vec<Vec<String>> = Vec::new();
    let mut warnings: Vec<String> = Vec::new();
    let mut i: usize = 0;
    while i < rows.len()
        invariant
            i <= rows@.len(),
            rows@.len() + 2 <= u64::MAX,
            lat_idx < header@.len(),
            lon_idx < header@.len(),
            forall|k: int| 0 <= k < rows@.len() ==> (#[trigger] rows@[k])@.len() == header@.len(),
            out_rows.deep_view() == spec_out_rows(
                rows.deep_view().subrange(0, i as int),
                lat_idx as int,
                lon_idx as int,
                level,
            ),
            warnings.deep_view() == spec_out_warnings(
                rows.deep_view().subrange(0, i as int),
                lat_idx as int,
                lon_idx as int,
            ),
        decreases rows@.len() - i,
    {
        let line: u64 = (i as u64) + 2;
        let row = &rows[i];
        proof {
            assert(row.deep_view() == rows.deep_view()[i as int]);
            assert(rows.deep_view().subrange(0, i + 1).drop_last() =~= rows.deep_view().subrange(
                0, i as int));
            assert(rows.deep_view().subrange(0, i + 1).last() == rows.deep_view()[i as int]);
        }
        match parse_row_coords(row, lat_idx, lon_idx, line) {
            RowOutcome::Coords(la, lo) => {
                let new_row = complete_row(row, la, lo, level);
                out_rows.push(new_row);
                proof {
                    assert(out_rows.deep_view() =~= spec_out_rows(
                        rows.deep_view().subrange(0, i + 1),
                        lat_idx as int,
                        lon_idx as int,
                        level,
                    ));
                }
            },
            RowOutcome::Invalid(w) => {
                warnings.push(w);
                proof {
                    assert(warnings.deep_view() =~= spec_out_warnings(
                        rows.deep_view().subrange(0, i + 1),
                        lat_idx as int,
                        lon_idx as int,
                    ));
                }
            },
        }
        i = i + 1;
    }
    proof {
        assert(rows.deep_view().subrange(0, rows@.len() as int) =~= rows.deep_view());
    }
    Ok(
        PipelineOutput {
            header: out_header,
            lat_idx,
            lon_idx,
            rows: out_rows,
            warnings,
        },
    )
}

} // verus!
