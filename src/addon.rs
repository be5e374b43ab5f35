use vstd::prelude::*;
use crate::cart::{MetaValue, Metafield};
use crate::decimal::{amount_cents, cents_of, cents_text, cents_to_text};
use crate::json::{copy_text, get, parse_json, parsed_json, str_of, text_is, JsonValue};

verus! {

/// An add-on chosen for a line item: the price it adds, as a decimal text.
pub struct AddOnSelection {
    pub price: String,
}

/// Whether the properties carry an object-valued `addon` field.
pub open spec fn has_addon_object(props: JsonValue) -> bool {
    get(props, "addon"@) matches Some(JsonValue::Object(_))
}

/// The price of a structured `addon` object: a string as it stands, a
/// number written with two digits after the point.
pub open spec fn structured_price(props: JsonValue) -> Option<Seq<char>> {
    match get(props, "addon"@) {
        Some(addon) => match get(addon, "price"@) {
            Some(JsonValue::Str(t)) => Some(t@),
            Some(JsonValue::Number(t)) => Some(cents_text(cents_of(t@))),
            _ => None,
        },
        None => None,
    }
}

/// The price of the flat `_add_on_*` fields of a protection plan.
pub open spec fn legacy_price(props: JsonValue) -> Option<Seq<char>> {
    if str_of(get(props, "_add_on_type"@)) == Some("protection_plan"@) {
        str_of(get(props, "_add_on_price"@))
    } else {
        None
    }
}

/// The price that parsed properties carry: the structured `addon` object
/// where there is one, else the flat legacy fields.
pub open spec fn properties_price(props: Option<JsonValue>) -> Option<Seq<char>> {
    match props {
        Some(p) => if has_addon_object(p) {
            structured_price(p)
        } else {
            legacy_price(p)
        },
        None => None,
    }
}

/// Whether a metafield is the legacy flag that selects the add-on.
pub open spec fn is_addon_flag(m: Metafield) -> bool {
    &&& m.namespace@ == "cdh_shoplazza_addon"@
    &&& m.key@ == "addon_selected"@
    &&& m.value matches MetaValue::Text(t) && t@ == "true"@
}

pub open spec fn flagged(metafields: Seq<Metafield>) -> bool {
    exists|i: int| 0 <= i < metafields.len() && is_addon_flag(#[trigger] metafields[i])
}

/// The add-on price of a line item, by the first source that gives one: its
/// properties, then the legacy metafield flag, which stands for
/// `flag_price`.
pub open spec fn addon_price(
    props: Option<JsonValue>,
    metafields: Seq<Metafield>,
    flag_price: Seq<char>,
) -> Option<Seq<char>> {
    match properties_price(props) {
        Some(p) => Some(p),
        None => if flagged(metafields) {
            Some(flag_price)
        } else {
            None
        },
    }
}

pub open spec fn selection_price(s: Option<AddOnSelection>) -> Option<Seq<char>> {
    match s {
        Some(a) => Some(a.price@),
        None => None,
    }
}

fn structured_price_of(props: &JsonValue) -> (r: Option<String>)
    ensures
        match r {
            Some(t) => structured_price(*props) == Some(t@),
            None => structured_price(*props) is None,
        },
{
    match props.get("addon") {
        Some(addon) => match addon.get("price") {
            Some(JsonValue::Str(t)) => Some(copy_text(t)),
            Some(JsonValue::Number(t)) => Some(cents_to_text(amount_cents(t.as_str()))),
            _ => None,
        },
        None => None,
    }
}

fn legacy_price_of(props: &JsonValue) -> (r: Option<String>)
    ensures
        match r {
            Some(t) => legacy_price(*props) == Some(t@),
            None => legacy_price(*props) is None,
        },
{
    let is_plan = match props.get("_add_on_type") {
        Some(JsonValue::Str(t)) => text_is(t, "protection_plan"),
        _ => false,
    };
    if !is_plan {
        return None;
    }
    match props.get("_add_on_price") {
        Some(JsonValue::Str(t)) => Some(copy_text(t)),
        _ => None,
    }
}

/// Whether the metafields hold the legacy add-on flag.
pub fn has_addon_flag(metafields: &Vec<Metafield>) -> (r: bool)
    ensures
        r == flagged(metafields@),
{
    let mut i: usize = 0;
    while i < metafields.len()
        invariant
            i <= metafields.len(),
            forall|j: int| 0 <= j < i ==> !is_addon_flag(#[trigger] metafields@[j]),
        decreases metafields.len() - i,
    {
        let m = &metafields[i];
        let hit = text_is(&m.namespace, "cdh_shoplazza_addon") && text_is(&m.key, "addon_selected")
            && match &m.value {
            MetaValue::Text(t) => text_is(t, "true"),
            _ => false,
        };
        if hit {
            assert(is_addon_flag(metafields@[i as int]));
            return true;
        }
        i += 1;
    }
    false
}

/// The add-on of a line item whose properties have been parsed (`None`
/// where they are not JSON), by the fixed order of sources.
pub fn select_addon(
    props: &Option<JsonValue>,
    metafields: &Vec<Metafield>,
    flag_price: &String,
) -> (r: Option<AddOnSelection>)
    ensures
        selection_price(r) == addon_price(*props, metafields@, flag_price@),
{
    let from_props = match props {
        Some(p) => if matches!(p.get("addon"), Some(JsonValue::Object(_))) {
            structured_price_of(p)
        } else {
            legacy_price_of(p)
        },
        None => None,
    };
    match from_props {
        Some(price) => Some(AddOnSelection { price }),
        None => if has_addon_flag(metafields) {
            Some(AddOnSelection { price: copy_text(flag_price) })
        } else {
            None
        },
    }
}

/// The add-on of a line item, from its raw `properties` text and its
/// metafields; properties that are not JSON carry no add-on.
pub fn extract_addon(
    properties: &String,
    metafields: &Vec<Metafield>,
    flag_price: &String,
) -> (r: Option<AddOnSelection>)
    ensures
        selection_price(r) == addon_price(parsed_json(properties@), metafields@, flag_price@),
{
    let props = parse_json(properties.as_str());
    select_addon(&props, metafields, flag_price)
}

} // verus!
