use vstd::prelude::*;
use vstd::string::StringExecFns;
use crate::addon::{addon_price, extract_addon, AddOnSelection};
use crate::cart::{
    all_have_ids, item_field, item_metafields, line_items_of, normalize_document, normalized, text_or_empty, Cart,
    LineItem, MalformedInput,
};
use crate::decimal::{amount_scaled, cents_text, cents_to_text, round_cents, round_to_cents, scaled_of};
use crate::json::{get, parse_json, parsed_json, quote_json, quoted_json, str_of, JsonValue};

verus! {

/// The settings of the transform.
pub struct TransformConfig {
    /// The add-on price that the legacy metafield flag stands for.
    pub legacy_addon_price: String,
}

impl TransformConfig {
    /// The settings in use: the legacy flag stands for `19.99`.
    pub fn standard() -> (r: TransformConfig)
        ensures
            r.legacy_addon_price@ == "19.99"@,
    {
        TransformConfig { legacy_addon_price: <String as StringExecFns>::from_str("19.99") }
    }
}

/// An instruction to replace the price of a line item.
pub struct PriceOverride {
    pub line_item_id: String,
    pub adjusted_price: String,
}

/// The price of a line item with its add-on: the exact sum of the two
/// amounts (a text that is no amount counts as zero), rounded once to cents,
/// half away from zero, and written with two digits after the point.
pub open spec fn combined_price(base: Seq<char>, addon: Seq<char>) -> Seq<char> {
    cents_text(round_cents(scaled_of(base) + scaled_of(addon)))
}

/// The override of a line item: its id and its combined price, where it has
/// an add-on.
pub open spec fn item_override(item: LineItem, flag_price: Seq<char>) -> Option<(Seq<char>, Seq<char>)> {
    match addon_price(parsed_json(item.properties@), item.metafields@, flag_price) {
        Some(p) => Some((item.id@, combined_price(item.price@, p))),
        None => None,
    }
}

/// The overrides of line items, in their order; items without an add-on
/// have none.
pub open spec fn overrides_of(items: Seq<LineItem>, flag_price: Seq<char>) -> Seq<(Seq<char>, Seq<char>)>
    decreases items.len(),
{
    if items.len() == 0 {
        Seq::empty()
    } else {
        let rest = overrides_of(items.drop_last(), flag_price);
        match item_override(items.last(), flag_price) {
            Some(o) => rest.push(o),
            None => rest,
        }
    }
}

pub open spec fn override_view(o: PriceOverride) -> (Seq<char>, Seq<char>) {
    (o.line_item_id@, o.adjusted_price@)
}

/// The JSON text of one override.
pub open spec fn update_text(o: (Seq<char>, Seq<char>)) -> Seq<char> {
    "{\"id\":"@ + quoted_json(o.0) + ",\"price\":{\"adjustment_fixed_price\":\""@ + o.1 + "\"}}"@
}

/// The JSON texts of overrides, separated by commas.
pub open spec fn updates_text(os: Seq<(Seq<char>, Seq<char>)>) -> Seq<char>
    decreases os.len(),
{
    if os.len() == 0 {
        Seq::empty()
    } else if os.len() == 1 {
        update_text(os[0])
    } else {
        updates_text(os.drop_last()) + ","@ + update_text(os.last())
    }
}

/// The response that lists overrides.
pub open spec fn envelope_text(os: Seq<(Seq<char>, Seq<char>)>) -> Seq<char> {
    "{\"operation\":{\"update\":["@ + updates_text(os) + "]}}"@
}

/// The response that reports a malformed document.
pub open spec fn error_text(e: MalformedInput) -> Seq<char> {
    match e {
        MalformedInput::NotJson => "{\"error\":\"malformed input: not valid JSON\"}"@,
        MalformedInput::MissingLineItems => "{\"error\":\"malformed input: missing cart.line_items\"}"@,
        MalformedInput::MissingId => "{\"error\":\"malformed input: line item without id\"}"@,
    }
}

/// The override of a JSON line item, read through its canonical form.
pub open spec fn document_item_override(v: JsonValue, flag_price: Seq<char>) -> Option<(Seq<char>, Seq<char>)> {
    match addon_price(
        parsed_json(text_or_empty(str_of(get(v, "properties"@)))),
        item_metafields(v),
        flag_price,
    ) {
        Some(p) => Some(
            (
                text_or_empty(str_of(get(v, "id"@))),
                combined_price(text_or_empty(str_of(item_field(v, "price"@))), p),
            ),
        ),
        None => None,
    }
}

/// The overrides of JSON line items, in their order.
pub open spec fn document_overrides(items: Seq<JsonValue>, flag_price: Seq<char>) -> Seq<(Seq<char>, Seq<char>)>
    decreases items.len(),
{
    if items.len() == 0 {
        Seq::empty()
    } else {
        let rest = document_overrides(items.drop_last(), flag_price);
        match document_item_override(items.last(), flag_price) {
            Some(o) => rest.push(o),
            None => rest,
        }
    }
}

/// The response to a document (`None` where the input is not JSON).
pub open spec fn response_text(doc: Option<JsonValue>, flag_price: Seq<char>) -> Seq<char> {
    match doc {
        None => error_text(MalformedInput::NotJson),
        Some(d) => match line_items_of(d) {
            None => error_text(MalformedInput::MissingLineItems),
            Some(items) => if all_have_ids(items) {
                envelope_text(document_overrides(items, flag_price))
            } else {
                error_text(MalformedInput::MissingId)
            },
        },
    }
}

proof fn lemma_overrides_agree(items: Seq<JsonValue>, lines: Seq<LineItem>, d: Seq<char>)
    requires
        lines.len() == items.len(),
        forall|i: int| 0 <= i < items.len() ==> normalized(items[i], #[trigger] lines[i]),
    ensures
        overrides_of(lines, d) == document_overrides(items, d),
    decreases items.len(),
{
    if items.len() > 0 {
        let n = items.len() - 1;
        assert(normalized(items[n], lines[n]));
        assert forall|i: int| 0 <= i < n implies normalized(
            items.drop_last()[i],
            #[trigger] lines.drop_last()[i],
        ) by {
            assert(normalized(items[i], lines[i]));
        }
        lemma_overrides_agree(items.drop_last(), lines.drop_last(), d);
    }
}

/// The combined price of a line item and its add-on.
pub fn resolve_price(base: &String, addon: &String) -> (r: String)
    ensures
        r@ == combined_price(base@, addon@),
{
    let b = amount_scaled(base.as_str());
    let a = amount_scaled(addon.as_str());
    cents_to_text(round_to_cents(b + a))
}

/// The override of one line item, where it has an add-on.
pub fn override_for(item: &LineItem, config: &TransformConfig) -> (r: Option<PriceOverride>)
    ensures
        match r {
            Some(o) => item_override(*item, config.legacy_addon_price@) == Some(override_view(o)),
            None => item_override(*item, config.legacy_addon_price@) is None,
        },
{
    let selection: Option<AddOnSelection> = extract_addon(&item.properties, &item.metafields, &config.legacy_addon_price);
    match selection {
        Some(s) => Some(
            PriceOverride { line_item_id: item.id.clone(), adjusted_price: resolve_price(&item.price, &s.price) },
        ),
        None => None,
    }
}

/// The overrides of a cart, in the order of its line items.
pub fn price_overrides(cart: &Cart, config: &TransformConfig) -> (r: Vec<PriceOverride>)
    ensures
        r@.map_values(|o: PriceOverride| override_view(o)) == overrides_of(
            cart.line_items@,
            config.legacy_addon_price@,
        ),
{
    let mut out: Vec<PriceOverride> = Vec::new();
    let mut i: usize = 0;
    let ghost d = config.legacy_addon_price@;
    while i < cart.line_items.len()
        invariant
            i <= cart.line_items.len(),
            d == config.legacy_addon_price@,
            out@.map_values(|o: PriceOverride| override_view(o)) == overrides_of(
                cart.line_items@.subrange(0, i as int),
                d,
            ),
        decreases cart.line_items.len() - i,
    {
        proof {
            assert(cart.line_items@.subrange(0, i + 1).drop_last() =~= cart.line_items@.subrange(0, i as int));
        }
        match override_for(&cart.line_items[i], config) {
            Some(o) => {
                out.push(o);
                assert(out@.map_values(|o: PriceOverride| override_view(o)) =~= overrides_of(
                    cart.line_items@.subrange(0, i + 1),
                    d,
                ));
            },
            None => {},
        }
        i += 1;
    }
    assert(cart.line_items@.subrange(0, cart.line_items.len() as int) =~= cart.line_items@);
    out
}

fn append_text(out: &mut String, t: &str)
    ensures
        final(out)@ == old(out)@ + t@,
{
    <String as StringExecFns>::append(out, t);
}

fn error_response(e: &MalformedInput) -> (r: String)
    ensures
        r@ == error_text(*e),
{
    match e {
        MalformedInput::NotJson => <String as StringExecFns>::from_str(
            "{\"error\":\"malformed input: not valid JSON\"}",
        ),
        MalformedInput::MissingLineItems => <String as StringExecFns>::from_str(
            "{\"error\":\"malformed input: missing cart.line_items\"}",
        ),
        MalformedInput::MissingId => <String as StringExecFns>::from_str(
            "{\"error\":\"malformed input: line item without id\"}",
        ),
    }
}

/// The response that lists the given overrides, in their order.
pub fn render_overrides(os: &Vec<PriceOverride>) -> (r: String)
    ensures
        r@ == envelope_text(os@.map_values(|o: PriceOverride| override_view(o))),
{
    let ghost v = os@.map_values(|o: PriceOverride| override_view(o));
    let mut out = <String as StringExecFns>::from_str("{\"operation\":{\"update\":[");
    let ghost head = out@;
    let mut i: usize = 0;
    while i < os.len()
        invariant
            i <= os.len(),
            v == os@.map_values(|o: PriceOverride| override_view(o)),
            out@ == head + updates_text(v.subrange(0, i as int)),
        decreases os.len() - i,
    {
        if i > 0 {
            append_text(&mut out, ",");
        }
        let o = &os[i];
        append_text(&mut out, "{\"id\":");
        let quoted = quote_json(o.line_item_id.as_str());
        append_text(&mut out, quoted.as_str());
        append_text(&mut out, ",\"price\":{\"adjustment_fixed_price\":\"");
        append_text(&mut out, o.adjusted_price.as_str());
        append_text(&mut out, "\"}}");
        proof {
            let w = v.subrange(0, i + 1);
            assert(w.drop_last() =~= v.subrange(0, i as int));
            assert(w.last() == override_view(os@[i as int]));
            assert(out@ =~= head + updates_text(w));
        }
        i += 1;
    }
    append_text(&mut out, "]}}");
    assert(v.subrange(0, os.len() as int) =~= v);
    assert(out@ =~= envelope_text(v));
    out
}

/// The response to a parsed document (`None` where the input is not JSON).
pub fn respond(doc: &Option<JsonValue>, config: &TransformConfig) -> (r: String)
    ensures
        r@ == response_text(*doc, config.legacy_addon_price@),
{
    match doc {
        None => error_response(&MalformedInput::NotJson),
        Some(d) => match normalize_document(d) {
            Err(e) => error_response(&e),
            Ok(cart) => {
                let os = price_overrides(&cart, config);
                proof {
                    let items = line_items_of(*d)->Some_0;
                    lemma_overrides_agree(items, cart.line_items@, config.legacy_addon_price@);
                }
                render_overrides(&os)
            },
        },
    }
}

/// The response to a cart document.
pub fn transform(input: &str, config: &TransformConfig) -> (r: String)
    ensures
        r@ == response_text(parsed_json(input@), config.legacy_addon_price@),
{
    let doc = parse_json(input);
    respond(&doc, config)
}

/// The response to a cart document, with the standard settings.
#[allow(non_snake_case)]
pub fn processCart(input: &str) -> (r: String)
    ensures
        r@ == response_text(parsed_json(input@), "19.99"@),
{
    let config = TransformConfig::standard();
    transform(input, &config)
}

} // verus!
