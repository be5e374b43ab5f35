use vstd::prelude::*;
use crate::addon::{addon_price, flagged, has_addon_object, properties_price, structured_price};
use crate::cart::{item_field, item_metafields, line_items_of, text_or_empty, Metafield};
use crate::decimal::{cents_text, digit_char, digits_of, is_digit};
use crate::json::{get, parsed_json, str_of, JsonValue};
use crate::transform::{combined_price, document_item_override, document_overrides, response_text, updates_text};

verus! {

/// A cart without line items gets a response that lists no overrides.
pub proof fn law_empty_cart(doc: JsonValue, flag_price: Seq<char>)
    requires
        line_items_of(doc) == Some(Seq::<JsonValue>::empty()),
    ensures
        response_text(Some(doc), flag_price) == "{\"operation\":{\"update\":[]}}"@,
{
    assert(document_overrides(Seq::<JsonValue>::empty(), flag_price) =~= Seq::empty());
    assert(updates_text(Seq::empty()) =~= Seq::<char>::empty());
    reveal_strlit("{\"operation\":{\"update\":[");
    reveal_strlit("]}}");
    reveal_strlit("{\"operation\":{\"update\":[]}}");
    assert(response_text(Some(doc), flag_price) =~= "{\"operation\":{\"update\":[]}}"@);
}

/// A line item whose properties hold no `addon` object and no legacy
/// `_add_on_type`, and whose metafields hold no add-on flag, has no add-on.
pub proof fn law_no_signal_no_addon(props: Option<JsonValue>, metafields: Seq<Metafield>, flag_price: Seq<char>)
    requires
        props matches Some(p) ==> get(p, "addon"@) is None && get(p, "_add_on_type"@) is None,
        !flagged(metafields),
    ensures
        addon_price(props, metafields, flag_price) is None,
{
}

proof fn lemma_digits_of(n: nat)
    ensures
        digits_of(n).len() >= 1,
        forall|i: int| 0 <= i < digits_of(n).len() ==> is_digit(#[trigger] digits_of(n)[i]),
    decreases n,
{
    lemma_digit_char(n % 10);
    if n >= 10 {
        lemma_digits_of(n / 10);
    }
}

proof fn lemma_digit_char(d: nat)
    requires
        d < 10,
    ensures
        is_digit(digit_char(d)),
{
}

/// Every combined price is written with exactly two digits after its point.
pub proof fn law_two_decimals(c: int)
    ensures
        ({
            let t = cents_text(c);
            &&& t.len() >= 4
            &&& t[t.len() - 3] == '.'
            &&& is_digit(t[t.len() - 2])
            &&& is_digit(t[t.len() - 1])
            &&& forall|i: int| 0 <= i < t.len() - 3 ==> (#[trigger] t[i] == '-' && i == 0) || is_digit(t[i])
        }),
{
    let m = if c < 0 { -c } else { c } as nat;
    lemma_digits_of(m / 100);
    lemma_digit_char((m % 100) / 10);
    lemma_digit_char(m % 10);
    let t = cents_text(c);
    let sign = if c < 0 { seq!['-'] } else { Seq::<char>::empty() };
    assert forall|i: int| 0 <= i < t.len() - 3 implies (#[trigger] t[i] == '-' && i == 0) || is_digit(t[i]) by {
        if i >= sign.len() {
            assert(t[i] == digits_of(m / 100)[i - sign.len()]);
        }
    }
}

/// Properties that are not JSON carry no add-on: only the legacy metafield
/// flag can give one.
pub proof fn law_unparsed_properties(metafields: Seq<Metafield>, flag_price: Seq<char>)
    ensures
        addon_price(None, metafields, flag_price) == if flagged(metafields) {
            Some(flag_price)
        } else {
            None
        },
{
}

/// Where the properties give no price, the legacy metafield flag gives the
/// fixed flag price.
pub proof fn law_flag_gives_fixed_price(
    props: Option<JsonValue>,
    metafields: Seq<Metafield>,
    flag_price: Seq<char>,
)
    requires
        properties_price(props) is None,
        flagged(metafields),
    ensures
        addon_price(props, metafields, flag_price) == Some(flag_price),
{
}

/// A structured `addon` object with a price wins over the legacy metafield
/// flag.
pub proof fn law_structured_price_first(
    props: JsonValue,
    metafields: Seq<Metafield>,
    flag_price: Seq<char>,
)
    requires
        has_addon_object(props),
        structured_price(props) is Some,
    ensures
        addon_price(Some(props), metafields, flag_price) == structured_price(props),
{
}

/// The response depends on the input text alone: the same text always gets
/// the same response.
pub proof fn law_same_input_same_response(a: Seq<char>, b: Seq<char>, flag_price: Seq<char>)
    requires
        a == b,
    ensures
        response_text(parsed_json(a), flag_price) == response_text(parsed_json(b), flag_price),
{
}

/// The id of a JSON line item.
pub open spec fn item_id(v: JsonValue) -> Seq<char> {
    text_or_empty(str_of(get(v, "id"@)))
}

/// The `properties` text of a JSON line item.
pub open spec fn item_properties(v: JsonValue) -> Seq<char> {
    text_or_empty(str_of(get(v, "properties"@)))
}

/// The base price text of a JSON line item.
pub open spec fn item_price(v: JsonValue) -> Seq<char> {
    text_or_empty(str_of(item_field(v, "price"@)))
}

/// Whether no two JSON line items share an id.
pub open spec fn unique_ids(items: Seq<JsonValue>) -> bool {
    forall|i: int, j: int|
        0 <= i < items.len() && 0 <= j < items.len() && #[trigger] item_id(items[i]) == #[trigger] item_id(
            items[j],
        ) ==> i == j
}

/// How many overrides name the id `x`.
pub open spec fn id_count(os: Seq<(Seq<char>, Seq<char>)>, x: Seq<char>) -> nat
    decreases os.len(),
{
    if os.len() == 0 {
        0
    } else {
        id_count(os.drop_last(), x) + if os.last().0 == x {
            1nat
        } else {
            0nat
        }
    }
}

proof fn lemma_id_count(items: Seq<JsonValue>, i: int, x: Seq<char>, flag_price: Seq<char>)
    requires
        0 <= i,
        forall|j: int| 0 <= j < items.len() && #[trigger] item_id(items[j]) == x ==> j == i,
        i < items.len() ==> item_id(items[i]) == x,
    ensures
        id_count(document_overrides(items, flag_price), x) == if i < items.len()
            && document_item_override(items[i], flag_price) is Some {
            1nat
        } else {
            0nat
        },
        i < items.len() ==> (document_item_override(items[i], flag_price) matches Some(o)
            ==> document_overrides(items, flag_price).contains(o)),
    decreases items.len(),
{
    if items.len() > 0 {
        let n = items.len() - 1;
        let rest = items.drop_last();
        assert forall|j: int| 0 <= j < rest.len() && #[trigger] item_id(rest[j]) == x implies j == i by {
            assert(item_id(items[j]) == x);
        }
        lemma_id_count(rest, i, x, flag_price);
        let os = document_overrides(items, flag_price);
        let ros = document_overrides(rest, flag_price);
        if n != i {
            assert(item_id(items[n]) != x);
        }
        match document_item_override(items[n], flag_price) {
            Some(o) => {
                assert(os == ros.push(o));
                assert(os.drop_last() =~= ros);
                if i < n {
                    if let Some(oi) = document_item_override(items[i], flag_price) {
                        assert(ros.contains(oi));
                        let k = choose|k: int| 0 <= k < ros.len() && ros[k] == oi;
                        assert(os[k] == oi);
                    }
                }
                if i == n {
                    assert(os[os.len() - 1] == o);
                }
            },
            None => {},
        }
    }
}

proof fn lemma_no_id(os: Seq<(Seq<char>, Seq<char>)>, x: Seq<char>)
    requires
        id_count(os, x) == 0,
    ensures
        forall|k: int| 0 <= k < os.len() ==> (#[trigger] os[k]).0 != x,
    decreases os.len(),
{
    if os.len() > 0 {
        lemma_no_id(os.drop_last(), x);
        assert forall|k: int| 0 <= k < os.len() implies (#[trigger] os[k]).0 != x by {
            if k < os.len() - 1 {
                assert(os.drop_last()[k] == os[k]);
            }
        }
    }
}

/// In a cart whose line items have distinct ids, a line item whose properties
/// hold no `addon` object and no legacy `_add_on_type`, and whose metafields
/// hold no add-on flag, gets no override.
pub proof fn law_cart_no_signal_no_override(items: Seq<JsonValue>, i: int, flag_price: Seq<char>)
    requires
        unique_ids(items),
        0 <= i < items.len(),
        parsed_json(item_properties(items[i])) matches Some(p) ==> get(p, "addon"@) is None && get(
            p,
            "_add_on_type"@,
        ) is None,
        !flagged(item_metafields(items[i])),
    ensures
        forall|k: int|
            0 <= k < document_overrides(items, flag_price).len() ==> (#[trigger] document_overrides(
                items,
                flag_price,
            )[k]).0 != item_id(items[i]),
{
    lemma_id_count(items, i, item_id(items[i]), flag_price);
    lemma_no_id(document_overrides(items, flag_price), item_id(items[i]));
}

/// In a cart whose line items have distinct ids, a line item whose only
/// signal is the legacy metafield flag gets exactly one override: its base
/// price plus the fixed flag price.
pub proof fn law_cart_flag_gives_fixed_price(items: Seq<JsonValue>, i: int, flag_price: Seq<char>)
    requires
        unique_ids(items),
        0 <= i < items.len(),
        properties_price(parsed_json(item_properties(items[i]))) is None,
        flagged(item_metafields(items[i])),
    ensures
        id_count(document_overrides(items, flag_price), item_id(items[i])) == 1,
        document_overrides(items, flag_price).contains(
            (item_id(items[i]), combined_price(item_price(items[i]), flag_price)),
        ),
{
    lemma_id_count(items, i, item_id(items[i]), flag_price);
}

/// In a cart whose line items have distinct ids, a line item with a
/// structured `addon` price gets exactly one override, from that price, even
/// where its metafields also hold the legacy flag.
pub proof fn law_cart_structured_price_first(
    items: Seq<JsonValue>,
    i: int,
    props: JsonValue,
    price: Seq<char>,
    flag_price: Seq<char>,
)
    requires
        unique_ids(items),
        0 <= i < items.len(),
        parsed_json(item_properties(items[i])) == Some(props),
        has_addon_object(props),
        structured_price(props) == Some(price),
    ensures
        id_count(document_overrides(items, flag_price), item_id(items[i])) == 1,
        document_overrides(items, flag_price).contains(
            (item_id(items[i]), combined_price(item_price(items[i]), price)),
        ),
{
    lemma_id_count(items, i, item_id(items[i]), flag_price);
}

} // verus!
