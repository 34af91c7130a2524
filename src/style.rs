use vstd::prelude::*;

verus! {

#[verifier::external_type_specification]
#[verifier::external_body]
pub struct ExStyle(r3bl_rs_utils_core::Style);

#[verifier::external_type_specification]
#[verifier::external_body]
pub struct ExStylesheet(r3bl_rs_utils_core::Stylesheet);

/// The ids of the styles that a stylesheet holds, in order.
pub uninterp spec fn sheet_ids(sheet: r3bl_rs_utils_core::Stylesheet) -> Seq<Seq<char>>;

/// The id of a style.
pub uninterp spec fn id_of(style: r3bl_rs_utils_core::Style) -> Seq<char>;

/// The ids among `ids`, in order, that name a style of a stylesheet whose
/// style ids are `sheet`.
pub open spec fn found_ids(sheet: Seq<Seq<char>>, ids: Seq<Seq<char>>) -> Seq<Seq<char>>
    decreases ids.len(),
{
    if ids.len() == 0 {
        seq![]
    } else {
        let head = found_ids(sheet, ids.drop_last());
        if sheet.contains(ids.last()) {
            head.push(ids.last())
        } else {
            head
        }
    }
}

/// Relies on Stylesheet::find_styles_by_ids: for each id in order, a copy
/// of the first style with that id when there is one; `None` when no id
/// names a style.
#[verifier::external_body]
fn find_styles_by_ids(sheet: &r3bl_rs_utils_core::Stylesheet, ids: Vec<&str>) -> (r: Option<
    Vec<r3bl_rs_utils_core::Style>,
>)
    ensures
        found_ids(sheet_ids(*sheet), ids@.map_values(|s: &str| s@)).len() == 0 <==> r is None,
        r matches Some(v) ==> v@.map_values(|s: r3bl_rs_utils_core::Style| id_of(s)) == found_ids(
            sheet_ids(*sheet),
            ids@.map_values(|s: &str| s@),
        ),
{
    sheet.find_styles_by_ids(ids)
}

/// The styles that `ids` name in `sheet`, in the order of the ids; `None`
/// when no id names one.
pub fn get_styles(sheet: &r3bl_rs_utils_core::Stylesheet, ids: Vec<&str>) -> (r: Option<
    Vec<r3bl_rs_utils_core::Style>,
>)
    ensures
        found_ids(sheet_ids(*sheet), ids@.map_values(|s: &str| s@)).len() == 0 <==> r is None,
        r matches Some(v) ==> v@.map_values(|s: r3bl_rs_utils_core::Style| id_of(s)) == found_ids(
            sheet_ids(*sheet),
            ids@.map_values(|s: &str| s@),
        ),
{
    find_styles_by_ids(sheet, ids)
}

} // verus!
