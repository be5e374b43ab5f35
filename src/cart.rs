use vstd::prelude::*;
use crate::decimal::{quantity_from_text, quantity_of};
use crate::json::{copy_text, get, str_of, JsonValue};

verus! {

/// The value of a metafield, kept where it is a JSON scalar.
pub enum MetaValue {
    Null,
    Bool(bool),
    Number(String),
    Text(String),
    Composite,
}

/// A namespaced annotation on a line item or its product.
pub struct Metafield {
    pub namespace: String,
    pub key: String,
    pub value: MetaValue,
}

/// One entry of a cart, in canonical form.
pub struct LineItem {
    pub id: String,
    pub product_id: Option<String>,
    pub variant_id: Option<String>,
    pub price: String,
    pub quantity: u64,
    pub properties: String,
    pub metafields: Vec<Metafield>,
}

/// A cart: its line items, in the document's order.
pub struct Cart {
    pub line_items: Vec<LineItem>,
}

/// Why a document could not be read as a cart.
#[derive(Debug, PartialEq, Eq, Structural)]
pub enum MalformedInput {
    /// The text is not JSON.
    NotJson,
    /// The document has no array at `cart.line_items`.
    MissingLineItems,
    /// A line item has no string `id`.
    MissingId,
}

pub open spec fn text_view(o: Option<String>) -> Option<Seq<char>> {
    match o {
        Some(s) => Some(s@),
        None => None,
    }
}

/// A field of a line item: on the item itself, or else on its `product`.
pub open spec fn item_field(v: JsonValue, k: Seq<char>) -> Option<JsonValue> {
    match get(v, k) {
        Some(x) => Some(x),
        None => match get(v, "product"@) {
            Some(p) => get(p, k),
            None => None,
        },
    }
}

/// The quantity of a line item: a number or a text of digits; zero otherwise.
pub open spec fn quantity_field(v: JsonValue) -> nat {
    match get(v, "quantity"@) {
        Some(JsonValue::Number(t)) => quantity_of(t@),
        Some(JsonValue::Str(t)) => quantity_of(t@),
        _ => 0,
    }
}

pub open spec fn meta_value_of(v: Option<JsonValue>) -> MetaValue {
    match v {
        Some(JsonValue::Bool(b)) => MetaValue::Bool(b),
        Some(JsonValue::Number(t)) => MetaValue::Number(t),
        Some(JsonValue::Str(t)) => MetaValue::Text(t),
        Some(JsonValue::Array(_)) => MetaValue::Composite,
        Some(JsonValue::Object(_)) => MetaValue::Composite,
        _ => MetaValue::Null,
    }
}

/// The metafield that a JSON entry describes, where it has a string
/// `namespace` and a string `key`.
pub open spec fn metafield_of(e: JsonValue) -> Option<Metafield> {
    match (get(e, "namespace"@), get(e, "key"@)) {
        (Some(JsonValue::Str(ns)), Some(JsonValue::Str(k))) => Some(
            Metafield { namespace: ns, key: k, value: meta_value_of(get(e, "value"@)) },
        ),
        _ => None,
    }
}

/// The metafields that a JSON array lists; other entries are ignored.
pub open spec fn metafields_of(a: Seq<JsonValue>) -> Seq<Metafield>
    decreases a.len(),
{
    if a.len() == 0 {
        Seq::empty()
    } else {
        let rest = metafields_of(a.drop_last());
        match metafield_of(a.last()) {
            Some(m) => rest.push(m),
            None => rest,
        }
    }
}

/// The metafields of a line item; none where it lists none.
pub open spec fn item_metafields(v: JsonValue) -> Seq<Metafield> {
    match item_field(v, "metafields"@) {
        Some(JsonValue::Array(a)) => metafields_of(a@),
        _ => Seq::empty(),
    }
}

pub open spec fn text_or_empty(o: Option<Seq<char>>) -> Seq<char> {
    match o {
        Some(t) => t,
        None => Seq::empty(),
    }
}

/// Whether a JSON line item can be read: it has a string `id`.
pub open spec fn has_id(v: JsonValue) -> bool {
    str_of(get(v, "id"@)) is Some
}

/// Whether `item` is the canonical form of the JSON line item `v`.
pub open spec fn normalized(v: JsonValue, item: LineItem) -> bool {
    &&& Some(item.id@) == str_of(get(v, "id"@))
    &&& text_view(item.product_id) == str_of(item_field(v, "product_id"@))
    &&& text_view(item.variant_id) == str_of(item_field(v, "variant_id"@))
    &&& item.price@ == text_or_empty(str_of(item_field(v, "price"@)))
    &&& item.quantity as nat == quantity_field(v)
    &&& item.properties@ == text_or_empty(str_of(get(v, "properties"@)))
    &&& item.metafields@ == item_metafields(v)
}

/// The line items of a document, where it has an array at `cart.line_items`.
pub open spec fn line_items_of(doc: JsonValue) -> Option<Seq<JsonValue>> {
    match get(doc, "cart"@) {
        Some(c) => match get(c, "line_items"@) {
            Some(JsonValue::Array(a)) => Some(a@),
            _ => None,
        },
        None => None,
    }
}

/// Whether every JSON line item has a string `id`.
pub open spec fn all_have_ids(items: Seq<JsonValue>) -> bool {
    forall|i: int| 0 <= i < items.len() ==> has_id(#[trigger] items[i])
}

/// Whether `cart` is the canonical form of the JSON line items `items`.
pub open spec fn cart_of(items: Seq<JsonValue>, cart: Cart) -> bool {
    &&& cart.line_items@.len() == items.len()
    &&& forall|i: int| 0 <= i < items.len() ==> normalized(items[i], #[trigger] cart.line_items@[i])
}

fn item_field_exec<'a>(v: &'a JsonValue, k: &str) -> (r: Option<&'a JsonValue>)
    ensures
        match r {
            Some(x) => item_field(*v, k@) == Some(*x),
            None => item_field(*v, k@) is None,
        },
{
    match v.get(k) {
        Some(x) => Some(x),
        None => match v.get("product") {
            Some(p) => p.get(k),
            None => None,
        },
    }
}

fn text_value(v: Option<&JsonValue>) -> (r: Option<String>)
    ensures
        text_view(r) == match v {
            Some(x) => str_of(Some(*x)),
            None => None,
        },
{
    match v {
        Some(JsonValue::Str(s)) => Some(copy_text(s)),
        _ => None,
    }
}

fn text_value_or_empty(v: Option<&JsonValue>) -> (r: String)
    ensures
        r@ == text_or_empty(
            match v {
                Some(x) => str_of(Some(*x)),
                None => None,
            },
        ),
{
    match v {
        Some(JsonValue::Str(s)) => copy_text(s),
        _ => String::new(),
    }
}

fn meta_value(v: Option<&JsonValue>) -> (r: MetaValue)
    ensures
        r == meta_value_of(
            match v {
                Some(x) => Some(*x),
                None => None,
            },
        ),
{
    match v {
        Some(JsonValue::Bool(b)) => MetaValue::Bool(*b),
        Some(JsonValue::Number(t)) => MetaValue::Number(copy_text(t)),
        Some(JsonValue::Str(t)) => MetaValue::Text(copy_text(t)),
        Some(JsonValue::Array(_)) => MetaValue::Composite,
        Some(JsonValue::Object(_)) => MetaValue::Composite,
        _ => MetaValue::Null,
    }
}

fn metafields_from(a: &Vec<JsonValue>) -> (r: Vec<Metafield>)
    ensures
        r@ == metafields_of(a@),
{
    let mut out: Vec<Metafield> = Vec::new();
    let mut i: usize = 0;
    while i < a.len()
        invariant
            i <= a.len(),
            out@ == metafields_of(a@.subrange(0, i as int)),
        decreases a.len() - i,
    {
        let e = &a[i];
        proof {
            assert(a@.subrange(0, i + 1).drop_last() =~= a@.subrange(0, i as int));
        }
        match (e.get("namespace"), e.get("key")) {
            (Some(JsonValue::Str(ns)), Some(JsonValue::Str(k))) => {
                out.push(
                    Metafield {
                        namespace: copy_text(ns),
                        key: copy_text(k),
                        value: meta_value(e.get("value")),
                    },
                );
            },
            _ => {},
        }
        i += 1;
    }
    assert(a@.subrange(0, a.len() as int) =~= a@);
    out
}

fn quantity_value(v: &JsonValue) -> (r: u64)
    ensures
        r as nat == quantity_field(*v),
{
    match v.get("quantity") {
        Some(JsonValue::Number(t)) => quantity_from_text(t.as_str()),
        Some(JsonValue::Str(t)) => quantity_from_text(t.as_str()),
        _ => 0,
    }
}

/// The canonical form of a JSON line item; `None` where it has no string `id`.
pub fn normalize_line_item(v: &JsonValue) -> (r: Option<LineItem>)
    ensures
        r is Some <==> has_id(*v),
        r matches Some(item) ==> normalized(*v, item),
{
    let id = match v.get("id") {
        Some(JsonValue::Str(s)) => copy_text(s),
        _ => {
            return None;
        },
    };
    let metafields = match item_field_exec(v, "metafields") {
        Some(JsonValue::Array(a)) => metafields_from(a),
        _ => Vec::new(),
    };
    Some(
        LineItem {
            id,
            product_id: text_value(item_field_exec(v, "product_id")),
            variant_id: text_value(item_field_exec(v, "variant_id")),
            price: text_value_or_empty(item_field_exec(v, "price")),
            quantity: quantity_value(v),
            properties: text_value_or_empty(v.get("properties")),
            metafields,
        },
    )
}

/// The canonical cart of a parsed document.
pub fn normalize_document(doc: &JsonValue) -> (r: Result<Cart, MalformedInput>)
    ensures
        match line_items_of(*doc) {
            None => r == Err::<Cart, MalformedInput>(MalformedInput::MissingLineItems),
            Some(items) => {
                if all_have_ids(items) {
                    r matches Ok(cart) && cart_of(items, cart)
                } else {
                    r == Err::<Cart, MalformedInput>(MalformedInput::MissingId)
                }
            },
        },
{
    let items = match doc.get("cart") {
        Some(c) => match c.get("line_items") {
            Some(JsonValue::Array(a)) => a,
            _ => {
                return Err(MalformedInput::MissingLineItems);
            },
        },
        None => {
            return Err(MalformedInput::MissingLineItems);
        },
    };
    let mut line_items: Vec<LineItem> = Vec::new();
    let mut i: usize = 0;
    while i < items.len()
        invariant
            i <= items.len(),
            line_items_of(*doc) == Some(items@),
            line_items@.len() == i,
            forall|j: int| 0 <= j < i ==> has_id(#[trigger] items@[j]),
            forall|j: int| 0 <= j < i ==> normalized(items@[j], #[trigger] line_items@[j]),
        decreases items.len() - i,
    {
        match normalize_line_item(&items[i]) {
            Some(item) => line_items.push(item),
            None => {
                assert(!has_id(items@[i as int]));
                return Err(MalformedInput::MissingId);
            },
        }
        i += 1;
    }
    Ok(Cart { line_items })
}

} // verus!
