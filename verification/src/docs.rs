//! Document-update shapes and the request builders for text and table edits.

use vstd::prelude::*;

verus! {

// Paragraph-level shapes shared with document reads.
pub struct ParagraphStyle {
    pub named_style_type: Option<String>,
    pub heading_id: Option<String>,
}

pub struct InlineObjectElement {
    pub inline_object_id: Option<String>,
}

pub struct HorizontalRule {
}

pub struct PageBreak {
}

pub struct ColumnBreak {
}

pub struct Equation {
}

pub struct Link {
    pub url: Option<String>,
}

pub struct SectionBreak {
}

/// Replace every occurrence of a substring.
pub struct ReplaceAllTextRequest {
    pub contains_text: SubstringMatchCriteria,
    pub replace_text: String,
}

pub struct SubstringMatchCriteria {
    pub text: String,
    pub match_case: bool,
}

/// Insert text at a location.
pub struct InsertTextRequest {
    pub text: String,
    pub location: Location,
}

pub struct Location {
    pub index: i64,
    pub segment_id: Option<String>,
}

/// Insert a table at a location.
pub struct InsertTableRequest {
    pub rows: i64,
    pub columns: i64,
    pub location: Location,
}

/// The request that inserts `text` at `index` in the body.
pub fn insert_text_request(text: &str, index: i64) -> (r: InsertTextRequest)
    ensures
        r.text@ == text@,
        r.location.index == index,
        r.location.segment_id is None,
{
    InsertTextRequest {
        text: String::from_str(text),
        location: Location { index, segment_id: None },
    }
}

/// The request that appends `text` on a new line: the text gains a leading
/// newline and lands at the append position for the document's end index.
pub fn append_text_request(text: &str, end_index: i64) -> (r: InsertTextRequest)
    requires
        end_index > i64::MIN,
    ensures
        r.text@ == seq!['\n'] + text@,
        r.location.index == append_position(end_index as int),
        r.location.segment_id is None,
{
    let mut t = String::from_str("\n");
    t.append(text);
    proof {
        reveal_strlit("\n");
        assert("\n"@ =~= seq!['\n']);
    }
    InsertTextRequest {
        text: t,
        location: Location { index: append_index(end_index), segment_id: None },
    }
}

/// Where an append inserts: just before the trailing newline, but never
/// before the document start.
pub open spec fn append_position(end_index: int) -> int {
    if end_index - 1 > 1 {
        end_index - 1
    } else {
        1
    }
}

/// The append insertion index for a document end index.
pub fn append_index(end_index: i64) -> (r: i64)
    requires
        end_index > i64::MIN,
    ensures
        r as int == append_position(end_index as int),
{
    if end_index - 1 > 1 {
        end_index - 1
    } else {
        1
    }
}

/// The request that replaces every occurrence of `find` with `replace`.
pub fn replace_text_request(find: &str, replace: &str, match_case: bool) -> (r:
    ReplaceAllTextRequest)
    ensures
        r.contains_text.text@ == find@,
        r.contains_text.match_case == match_case,
        r.replace_text@ == replace@,
{
    ReplaceAllTextRequest {
        contains_text: SubstringMatchCriteria { text: String::from_str(find), match_case },
        replace_text: String::from_str(replace),
    }
}

/// The request that inserts a `rows` by `columns` table at `index`.
pub fn insert_table_request(rows: i64, columns: i64, index: i64) -> (r: InsertTableRequest)
    ensures
        r.rows == rows,
        r.columns == columns,
        r.location.index == index,
        r.location.segment_id is None,
{
    InsertTableRequest { rows, columns, location: Location { index, segment_id: None } }
}

} // verus!
