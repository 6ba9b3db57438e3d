//! Spreadsheet shapes, the sheet-list reduction, and the pure parts of the
//! value-update operations: request bodies, paths and value parsing.

use vstd::prelude::*;
use vstd::utf8::encode_utf8;
use crate::encoding::{pct_encoded, percent_encode};
use crate::errors::AuthError;
use crate::json::{
    JsonVal, JsonModel, json_parse, parse_json, view_seq, lemma_view_seq,
};
use crate::token::opt_text_view;

verus! {

pub struct Spreadsheet {
    pub spreadsheet_id: String,
    pub properties: SpreadsheetProperties,
    pub sheets: Vec<Sheet>,
}

pub struct SpreadsheetProperties {
    pub title: String,
    pub locale: Option<String>,
    pub time_zone: Option<String>,
}

pub struct Sheet {
    pub properties: SheetProperties,
}

pub struct SheetProperties {
    pub sheet_id: i64,
    pub title: String,
    pub index: i64,
}

/// One range of cell values, row-major.
pub struct ValueRange {
    pub range: String,
    pub major_dimension: Option<String>,
    pub values: Vec<Vec<JsonVal>>,
}

pub struct UpdateValuesResponse {
    pub spreadsheet_id: String,
    pub updated_range: String,
    pub updated_rows: Option<i64>,
    pub updated_columns: Option<i64>,
    pub updated_cells: Option<i64>,
}

pub struct AppendValuesResponse {
    pub spreadsheet_id: String,
    pub table_range: Option<String>,
    pub updates: Option<UpdateValuesResponse>,
}

/// The reduced sheet listing.
pub struct SheetListResponse {
    pub spreadsheet_id: String,
    pub title: String,
    pub sheets: Vec<SheetInfo>,
}

pub struct SheetInfo {
    pub sheet_id: i64,
    pub title: String,
    pub index: i64,
}

impl SheetListResponse {
    /// Reduce a spreadsheet to its identity and per-sheet id, title, index.
    pub fn from_spreadsheet(spreadsheet: &Spreadsheet) -> (r: SheetListResponse)
        ensures
            r.spreadsheet_id@ == spreadsheet.spreadsheet_id@,
            r.title@ == spreadsheet.properties.title@,
            r.sheets@.len() == spreadsheet.sheets@.len(),
            forall|i: int|
                0 <= i < r.sheets@.len() ==> {
                    &&& r.sheets@[i].sheet_id == spreadsheet.sheets@[i].properties.sheet_id
                    &&& r.sheets@[i].title@ == spreadsheet.sheets@[i].properties.title@
                    &&& r.sheets@[i].index == spreadsheet.sheets@[i].properties.index
                },
    {
        let mut sheets: Vec<SheetInfo> = Vec::new();
        let mut i: usize = 0;
        while i < spreadsheet.sheets.len()
            invariant
                i <= spreadsheet.sheets@.len(),
                sheets@.len() == i,
                forall|q: int|
                    0 <= q < i ==> {
                        &&& sheets@[q].sheet_id == spreadsheet.sheets@[q].properties.sheet_id
                        &&& sheets@[q].title@ == spreadsheet.sheets@[q].properties.title@
                        &&& sheets@[q].index == spreadsheet.sheets@[q].properties.index
                    },
            decreases spreadsheet.sheets@.len() - i,
        {
            sheets.push(
                SheetInfo {
                    sheet_id: spreadsheet.sheets[i].properties.sheet_id,
                    title: spreadsheet.sheets[i].properties.title.clone(),
                    index: spreadsheet.sheets[i].properties.index,
                },
            );
            i = i + 1;
        }
        SheetListResponse {
            spreadsheet_id: spreadsheet.spreadsheet_id.clone(),
            title: spreadsheet.properties.title.clone(),
            sheets,
        }
    }
}

// Batch update shapes for sheet (tab) operations.
pub struct SheetsBatchUpdateRequest {
    pub requests: Vec<SheetRequest>,
}

pub struct SheetRequest {
    pub add_sheet: Option<AddSheetRequest>,
    pub update_sheet_properties: Option<UpdateSheetPropertiesRequest>,
    pub delete_sheet: Option<DeleteSheetRequest>,
}

pub struct AddSheetRequest {
    pub properties: AddSheetProperties,
}

pub struct AddSheetProperties {
    pub title: String,
    pub index: Option<i64>,
}

pub struct UpdateSheetPropertiesRequest {
    pub properties: UpdateSheetProperties,
    pub fields: String,
}

pub struct UpdateSheetProperties {
    pub sheet_id: i64,
    pub title: Option<String>,
    pub index: Option<i64>,
}

pub struct DeleteSheetRequest {
    pub sheet_id: i64,
}

/// How values sent to the service are interpreted.
pub enum ValueInputOption {
    Raw,
    UserEntered,
}

impl ValueInputOption {
    /// The query-parameter spelling of the option.
    pub fn as_str(&self) -> (r: &'static str)
        ensures
            match self {
                ValueInputOption::Raw => r@ == "RAW"@,
                ValueInputOption::UserEntered => r@ == "USER_ENTERED"@,
            },
    {
        match self {
            ValueInputOption::Raw => "RAW",
            ValueInputOption::UserEntered => "USER_ENTERED",
        }
    }
}

impl Default for ValueInputOption {
    /// Values are interpreted as if typed by the user, unless asked otherwise.
    fn default() -> (r: ValueInputOption)
        ensures
            r is UserEntered,
    {
        ValueInputOption::UserEntered
    }
}

pub struct UpdateParams {
    pub spreadsheet_id: String,
    pub range: String,
    pub values: Vec<Vec<JsonVal>>,
    pub value_input_option: ValueInputOption,
}

/// The request that adds one sheet with a title and an optional position.
pub fn add_sheet_request(title: &str, index: Option<i64>) -> (r: SheetsBatchUpdateRequest)
    ensures
        r.requests@.len() == 1,
        r.requests@[0].add_sheet matches Some(a) && a.properties.title@ == title@
            && a.properties.index == index,
        r.requests@[0].update_sheet_properties is None,
        r.requests@[0].delete_sheet is None,
{
    let mut requests: Vec<SheetRequest> = Vec::new();
    requests.push(
        SheetRequest {
            add_sheet: Some(
                AddSheetRequest {
                    properties: AddSheetProperties { title: String::from_str(title), index },
                },
            ),
            update_sheet_properties: None,
            delete_sheet: None,
        },
    );
    SheetsBatchUpdateRequest { requests }
}

/// The request that renames one sheet: only the title field is updated.
pub fn rename_sheet_request(sheet_id: i64, new_title: &str) -> (r: SheetsBatchUpdateRequest)
    ensures
        r.requests@.len() == 1,
        r.requests@[0].update_sheet_properties matches Some(u) && u.properties.sheet_id
            == sheet_id && (u.properties.title matches Some(t) && t@ == new_title@)
            && u.properties.index is None && u.fields@ == "title"@,
        r.requests@[0].add_sheet is None,
        r.requests@[0].delete_sheet is None,
{
    let mut requests: Vec<SheetRequest> = Vec::new();
    requests.push(
        SheetRequest {
            add_sheet: None,
            update_sheet_properties: Some(
                UpdateSheetPropertiesRequest {
                    properties: UpdateSheetProperties {
                        sheet_id,
                        title: Some(String::from_str(new_title)),
                        index: None,
                    },
                    fields: String::from_str("title"),
                },
            ),
            delete_sheet: None,
        },
    );
    SheetsBatchUpdateRequest { requests }
}

/// The body of a value update or append: the range, row-major order, and the
/// values themselves.
pub fn value_range_body(range: &str, values: Vec<Vec<JsonVal>>) -> (r: ValueRange)
    ensures
        r.range@ == range@,
        r.major_dimension matches Some(d) && d@ == "ROWS"@,
        r.values == values,
{
    ValueRange {
        range: String::from_str(range),
        major_dimension: Some(String::from_str("ROWS")),
        values,
    }
}

/// The path of a value update.
pub fn update_values_path(spreadsheet_id: &str, range: &str, opt: &ValueInputOption) -> (r:
    String)
    ensures
        r@ == "/spreadsheets/"@ + spreadsheet_id@ + "/values/"@ + pct_encoded(
            encode_utf8(range@),
        ) + "?valueInputOption="@ + (match opt {
            ValueInputOption::Raw => "RAW"@,
            ValueInputOption::UserEntered => "USER_ENTERED"@,
        }),
{
    let mut out = String::from_str("/spreadsheets/");
    out.append(spreadsheet_id);
    out.append("/values/");
    let enc = percent_encode(range);
    out.append(enc.as_str());
    out.append("?valueInputOption=");
    out.append(opt.as_str());
    out
}

/// The path of a value append: rows are inserted after the range.
pub fn append_values_path(spreadsheet_id: &str, range: &str, opt: &ValueInputOption) -> (r:
    String)
    ensures
        r@ == "/spreadsheets/"@ + spreadsheet_id@ + "/values/"@ + pct_encoded(
            encode_utf8(range@),
        ) + ":append?valueInputOption="@ + (match opt {
            ValueInputOption::Raw => "RAW"@,
            ValueInputOption::UserEntered => "USER_ENTERED"@,
        }) + "&insertDataOption=INSERT_ROWS"@,
{
    let mut out = String::from_str("/spreadsheets/");
    out.append(spreadsheet_id);
    out.append("/values/");
    let enc = percent_encode(range);
    out.append(enc.as_str());
    out.append(":append?valueInputOption=");
    out.append(opt.as_str());
    out.append("&insertDataOption=INSERT_ROWS");
    out
}

/// The path of a value clear.
pub fn clear_values_path(spreadsheet_id: &str, range: &str) -> (r: String)
    ensures
        r@ == "/spreadsheets/"@ + spreadsheet_id@ + "/values/"@ + pct_encoded(
            encode_utf8(range@),
        ) + ":clear"@,
{
    let mut out = String::from_str("/spreadsheets/");
    out.append(spreadsheet_id);
    out.append("/values/");
    let enc = percent_encode(range);
    out.append(enc.as_str());
    out.append(":clear");
    out
}

/// What a values document yields: it must be an array of arrays.
pub open spec fn values_outcome(m: JsonModel) -> Option<Seq<Seq<JsonModel>>> {
    match m {
        JsonModel::Arr(rows) => if forall|i: int| 0 <= i < rows.len() ==> rows[i] is Arr {
            Some(Seq::new(rows.len(), |i: int| rows[i]->Arr_0))
        } else {
            None
        },
        _ => None,
    }
}

pub open spec fn rows_view(rows: Seq<Vec<JsonVal>>) -> Seq<Seq<JsonModel>> {
    Seq::new(rows.len(), |i: int| view_seq(rows[i]@))
}

/// Parse a JSON matrix of cell values, as the command line supplies it.
/// Text that is not JSON, or not an array of arrays, is rejected.
pub fn parse_values_json(text: &str) -> (r: Result<Vec<Vec<JsonVal>>, String>)
    ensures
        match r {
            Ok(rows) => json_parse(text@) matches Some(m) && values_outcome(m) == Some(
                rows_view(rows@),
            ),
            Err(msg) => {
                &&& match json_parse(text@) {
                    Some(m) => values_outcome(m) is None,
                    None => true,
                }
                &&& msg@ == "Invalid JSON values"@
            },
        },
{
    match parse_json(text) {
        Some(v) => {
            let ghost m = v@;
            match v {
                JsonVal::Arr(rows) => {
                    let ghost orig = rows@;
                    let ghost vs = view_seq(orig);
                    proof {
                        lemma_view_seq(orig);
                        assert(m == JsonModel::Arr(vs));
                    }
                    let mut rows = rows;
                    let mut out: Vec<Vec<JsonVal>> = Vec::new();
                    while rows.len() > 0
                        invariant
                            m == JsonModel::Arr(vs),
                            json_parse(text@) == Some(m),
                            vs == view_seq(orig),
                            vs.len() == orig.len(),
                            forall|q: int| 0 <= q < orig.len() ==> vs[q] == orig[q]@,
                            out@.len() + rows@.len() == orig.len(),
                            rows@ =~= orig.skip(out@.len() as int),
                            forall|q: int|
                                0 <= q < out@.len() ==> vs[q] is Arr && view_seq(out@[q]@)
                                    == vs[q]->Arr_0,
                        decreases rows@.len(),
                    {
                        let ghost k = out@.len() as int;
                        let row = rows.remove(0);
                        proof {
                            assert(row == orig[k]);
                            assert(rows@ =~= orig.skip(k + 1));
                        }
                        match row {
                            JsonVal::Arr(cells) => {
                                proof {
                                    assert(orig[k]@ == JsonModel::Arr(view_seq(cells@)));
                                }
                                out.push(cells);
                            },
                            _ => {
                                proof {
                                    assert(!(vs[k] is Arr));
                                    assert(!(forall|q: int|
                                        0 <= q < vs.len() ==> vs[q] is Arr)) by {
                                        assert(0 <= k < vs.len() && !(vs[k] is Arr));
                                    }
                                    assert(values_outcome(m) is None);
                                }
                                return Err(String::from_str("Invalid JSON values"));
                            },
                        }
                    }
                    proof {
                        assert(values_outcome(m) == Some(
                            Seq::new(vs.len(), |i: int| vs[i]->Arr_0),
                        ));
                        assert(rows_view(out@) =~= Seq::new(vs.len(), |i: int| vs[i]->Arr_0));
                    }
                    Ok(out)
                },
                _ => Err(String::from_str("Invalid JSON values")),
            }
        },
        None => Err(String::from_str("Invalid JSON values")),
    }
}

} // verus!

verus! {

/// Several ranges read at once.
pub struct BatchGetValuesResponse {
    pub spreadsheet_id: String,
    pub value_ranges: Vec<ValueRange>,
}

} // verus!
