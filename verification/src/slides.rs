//! Presentations: the fixed layout names and the pure parts of slide
//! creation.  Text-box geometry is floating-point and stays outside the
//! verified core.

use vstd::prelude::*;
use crate::json::{JsonVal, JsonModel, view_members, lemma_view_members};
use crate::token::opt_text_view;

verus! {

/// The response of a presentation batch update.
pub struct BatchUpdateResponse {
    pub presentation_id: String,
    pub replies: Vec<JsonVal>,
}

/// The layouts the service predefines for new slides.
pub fn slide_layouts() -> (r: Vec<&'static str>)
    ensures
        r@.len() == 11,
        r@[0]@ == "BLANK"@,
        r@[1]@ == "CAPTION_ONLY"@,
        r@[2]@ == "TITLE"@,
        r@[3]@ == "TITLE_AND_BODY"@,
        r@[4]@ == "TITLE_AND_TWO_COLUMNS"@,
        r@[5]@ == "TITLE_ONLY"@,
        r@[6]@ == "SECTION_HEADER"@,
        r@[7]@ == "SECTION_TITLE_AND_DESCRIPTION"@,
        r@[8]@ == "ONE_COLUMN_TEXT"@,
        r@[9]@ == "MAIN_POINT"@,
        r@[10]@ == "BIG_NUMBER"@,
{
    let mut out: Vec<&'static str> = Vec::new();
    out.push("BLANK");
    out.push("CAPTION_ONLY");
    out.push("TITLE");
    out.push("TITLE_AND_BODY");
    out.push("TITLE_AND_TWO_COLUMNS");
    out.push("TITLE_ONLY");
    out.push("SECTION_HEADER");
    out.push("SECTION_TITLE_AND_DESCRIPTION");
    out.push("ONE_COLUMN_TEXT");
    out.push("MAIN_POINT");
    out.push("BIG_NUMBER");
    out
}

/// The body that creates a presentation with a title.
pub fn presentation_body(title: &str) -> (r: JsonVal)
    ensures
        r@ == JsonModel::Obj(seq![("title"@, JsonModel::Text(title@))]),
{
    let mut members: Vec<(String, JsonVal)> = Vec::new();
    members.push((String::from_str("title"), JsonVal::Text(String::from_str(title))));
    let v = JsonVal::Obj(members);
    proof {
        lemma_view_members(v->Obj_0@);
        assert(view_members(v->Obj_0@) =~= seq![("title"@, JsonModel::Text(title@))]);
    }
    v
}

/// The request that adds one slide, optionally at a position and from a
/// predefined layout.
pub open spec fn add_slide_model(
    index: Option<int>,
    layout: Option<Seq<char>>,
) -> JsonModel {
    JsonModel::Obj(
        seq![
            (
                "createSlide"@,
                JsonModel::Obj(
                    (match index {
                        Some(i) => seq![("insertionIndex"@, JsonModel::Int(i))],
                        None => Seq::empty(),
                    }) + (match layout {
                        Some(l) => seq![
                            (
                                "slideLayoutReference"@,
                                JsonModel::Obj(
                                    seq![("predefinedLayout"@, JsonModel::Text(l))],
                                ),
                            ),
                        ],
                        None => Seq::empty(),
                    }),
                ),
            ),
        ],
    )
}

/// Build the add-slide request body (one request in a batch update).
pub fn add_slide_request(index: Option<i32>, layout: Option<&str>) -> (r: JsonVal)
    ensures
        r@ == JsonModel::Obj(
            seq![
                (
                    "requests"@,
                    JsonModel::Arr(
                        seq![
                            add_slide_model(
                                match index {
                                    Some(i) => Some(i as int),
                                    None => None,
                                },
                                match layout {
                                    Some(l) => Some(l@),
                                    None => None,
                                },
                            ),
                        ],
                    ),
                ),
            ],
        ),
{
    let mut inner: Vec<(String, JsonVal)> = Vec::new();
    match index {
        Some(i) => {
            inner.push((String::from_str("insertionIndex"), JsonVal::Int(i as i64)));
        },
        None => {},
    }
    match layout {
        Some(l) => {
            let mut lr: Vec<(String, JsonVal)> = Vec::new();
            lr.push((String::from_str("predefinedLayout"), JsonVal::Text(String::from_str(l))));
            let lrv = JsonVal::Obj(lr);
            proof {
                lemma_view_members(lrv->Obj_0@);
                assert(view_members(lrv->Obj_0@) =~= seq![
                    ("predefinedLayout"@, JsonModel::Text(l@)),
                ]);
            }
            inner.push((String::from_str("slideLayoutReference"), lrv));
        },
        None => {},
    }
    let create = JsonVal::Obj(inner);
    proof {
        lemma_view_members(create->Obj_0@);
        assert(view_members(create->Obj_0@) =~= add_slide_model(
            match index {
                Some(i) => Some(i as int),
                None => None,
            },
            match layout {
                Some(l) => Some(l@),
                None => None,
            },
        )->Obj_0[0].1->Obj_0);
    }
    let mut req: Vec<(String, JsonVal)> = Vec::new();
    req.push((String::from_str("createSlide"), create));
    let reqv = JsonVal::Obj(req);
    proof {
        lemma_view_members(reqv->Obj_0@);
        assert(view_members(reqv->Obj_0@) =~= add_slide_model(
            match index {
                Some(i) => Some(i as int),
                None => None,
            },
            match layout {
                Some(l) => Some(l@),
                None => None,
            },
        )->Obj_0);
    }
    let mut items: Vec<JsonVal> = Vec::new();
    items.push(reqv);
    let arr = JsonVal::Arr(items);
    proof {
        crate::json::lemma_view_seq(arr->Arr_0@);
        assert(crate::json::view_seq(arr->Arr_0@) =~= seq![
            add_slide_model(
                match index {
                    Some(i) => Some(i as int),
                    None => None,
                },
                match layout {
                    Some(l) => Some(l@),
                    None => None,
                },
            ),
        ]);
    }
    let mut outer: Vec<(String, JsonVal)> = Vec::new();
    outer.push((String::from_str("requests"), arr));
    let v = JsonVal::Obj(outer);
    proof {
        lemma_view_members(v->Obj_0@);
        assert(view_members(v->Obj_0@) =~= seq![
            (
                "requests"@,
                JsonModel::Arr(
                    seq![
                        add_slide_model(
                            match index {
                                Some(i) => Some(i as int),
                                None => None,
                            },
                            match layout {
                                Some(l) => Some(l@),
                                None => None,
                            },
                        ),
                    ],
                ),
            ),
        ]);
    }
    v
}

/// The batch-update path of a presentation.
pub fn presentation_update_path(presentation_id: &str) -> (r: String)
    ensures
        r@ == "/presentations/"@ + presentation_id@ + ":batchUpdate"@,
{
    let mut out = String::from_str("/presentations/");
    out.append(presentation_id);
    out.append(":batchUpdate");
    out
}

} // verus!
