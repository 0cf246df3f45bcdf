use vstd::prelude::*;
use vstd::string::StringExecFns;

use crate::attributes::{content_attribute_name, renamed};
use crate::dom::{make_attribute_name, Attribute, QualName};
use crate::ledger::Ledger;
use crate::text::str_eq;

verus! {

/// A JSON value as the authoring surface hands it over. Numbers are integers;
/// a floating-point number arrives as the text of its canonical rendering.
pub enum JsonValue {
    Null,
    Bool(bool),
    Number(i128),
    String(String),
    Array(Vec<JsonValue>),
    Object(Vec<(String, JsonValue)>),
}

pub open spec fn digit_char(d: int) -> char {
    if d == 0 { '0' } else if d == 1 { '1' } else if d == 2 { '2' } else if d == 3 { '3' }
    else if d == 4 { '4' } else if d == 5 { '5' } else if d == 6 { '6' } else if d == 7 { '7' }
    else if d == 8 { '8' } else { '9' }
}

/// The decimal digits of a natural number, most significant first.
pub open spec fn digits(n: nat) -> Seq<char>
    decreases n,
{
    if n < 10 {
        seq![digit_char(n as int)]
    } else {
        digits(n / 10).push(digit_char((n % 10) as int))
    }
}

/// The canonical decimal rendering of an integer.
pub open spec fn decimal(n: int) -> Seq<char> {
    if n < 0 {
        seq!['-'] + digits((-n) as nat)
    } else {
        digits(n as nat)
    }
}

/// The strings among the values, in order.
pub open spec fn strings_of(vs: Seq<JsonValue>) -> Seq<Seq<char>>
    decreases vs.len(),
{
    if vs.len() == 0 {
        Seq::empty()
    } else {
        let rest = strings_of(vs.drop_last());
        match vs.last() {
            JsonValue::String(s) => rest.push(s@),
            _ => rest,
        }
    }
}

/// The words joined by single spaces.
pub open spec fn space_joined(words: Seq<Seq<char>>) -> Seq<char>
    decreases words.len(),
{
    if words.len() == 0 {
        Seq::empty()
    } else if words.len() == 1 {
        words[0]
    } else {
        space_joined(words.drop_last()) + seq![' '] + words.last()
    }
}

/// Whether the IDL property holds a space-separated list.
pub open spec fn is_list_property(property: Seq<char>) -> bool {
    property == "className"@ || property == "rel"@
}

/// The attribute text that a value coerces to, or `None` when the attribute
/// is omitted.
pub open spec fn coerced_text(property: Seq<char>, value: JsonValue) -> Option<Seq<char>> {
    match value {
        JsonValue::Bool(false) => None,
        JsonValue::String(s) => Some(s@),
        JsonValue::Number(n) => Some(decimal(n as int)),
        JsonValue::Bool(true) => Some(Seq::empty()),
        JsonValue::Array(vs) => if is_list_property(property) {
            Some(space_joined(strings_of(vs@)))
        } else {
            None
        },
        _ => None,
    }
}

fn digit_text(d: u128) -> (r: &'static str)
    requires
        d < 10,
    ensures
        r@ == seq![digit_char(d as int)],
{
    proof {
        reveal_strlit("0"); reveal_strlit("1"); reveal_strlit("2"); reveal_strlit("3");
        reveal_strlit("4"); reveal_strlit("5"); reveal_strlit("6"); reveal_strlit("7");
        reveal_strlit("8"); reveal_strlit("9");
    }
    if d == 0 { "0" } else if d == 1 { "1" } else if d == 2 { "2" } else if d == 3 { "3" }
    else if d == 4 { "4" } else if d == 5 { "5" } else if d == 6 { "6" } else if d == 7 { "7" }
    else if d == 8 { "8" } else { "9" }
}

fn natural_text(n: u128) -> (r: String)
    ensures
        r@ == digits(n as nat),
    decreases n,
{
    if n < 10 {
        digit_text(n).to_owned()
    } else {
        let mut r = natural_text(n / 10);
        r.append(digit_text(n % 10));
        r
    }
}

/// Renders an integer in canonical decimal form.
pub fn decimal_text(n: i128) -> (r: String)
    ensures
        r@ == decimal(n as int),
{
    if n < 0 {
        let magnitude: u128 = ((-(n + 1)) as u128) + 1;
        let mut r = "-".to_owned();
        proof {
            reveal_strlit("-");
        }
        r.append(natural_text(magnitude).as_str());
        r
    } else {
        natural_text(n as u128)
    }
}

/// Joins the strings among the values with single spaces; other values are
/// left out.
pub fn join_strings(values: &Vec<JsonValue>) -> (r: String)
    ensures
        r@ == space_joined(strings_of(values@)),
{
    let mut r = String::new();
    let mut any = false;
    let mut i: usize = 0;
    while i < values.len()
        invariant
            0 <= i <= values@.len(),
            any == (strings_of(values@.subrange(0, i as int)).len() > 0),
            r@ == space_joined(strings_of(values@.subrange(0, i as int))),
        decreases values@.len() - i,
    {
        let ghost prefix = values@.subrange(0, i as int);
        let ghost next = values@.subrange(0, i + 1);
        proof {
            assert(next.drop_last() =~= prefix);
        }
        match &values[i] {
            JsonValue::String(s) => {
                if any {
                    proof {
                        reveal_strlit(" ");
                    }
                    r.append(" ");
                }
                r.append(s.as_str());
                any = true;
                proof {
                    let words = strings_of(next);
                    assert(words.drop_last() =~= strings_of(prefix));
                    if strings_of(prefix).len() == 0 {
                        assert(r@ =~= words[0]);
                    } else {
                        assert(r@ =~= space_joined(words.drop_last()) + seq![' '] + words.last());
                    }
                }
            },
            _ => {},
        }
        i = i + 1;
    }
    proof {
        assert(values@.subrange(0, values@.len() as int) =~= values@);
    }
    r
}

/// The attribute text that a value coerces to, or `None` when the attribute
/// is omitted.
pub fn coerce_value(property: &str, value: &JsonValue) -> (r: Option<String>)
    ensures
        match r {
            Some(t) => coerced_text(property@, *value) == Some(t@),
            None => coerced_text(property@, *value) is None,
        },
{
    match value {
        JsonValue::Bool(false) => None,
        JsonValue::String(s) => Some(s.clone()),
        JsonValue::Number(n) => Some(decimal_text(*n)),
        JsonValue::Bool(true) => Some(String::new()),
        JsonValue::Array(vs) => if str_eq(property, "className") || str_eq(property, "rel") {
            Some(join_strings(vs))
        } else {
            None
        },
        _ => None,
    }
}

/// Renames an IDL property to its content attribute for the tag, and records
/// the renamed pair in the ledger.
pub fn rename_idl_to_content_attribute(ledger: &mut Ledger, tag_name: &str, attribute_name: &str) -> (r: QualName)
    requires
        old(ledger).wf(),
    ensures
        final(ledger).wf(),
        r.ns@ == Seq::<char>::empty(),
        r.local@ == renamed(tag_name@, attribute_name@),
        final(ledger).all_seen() == old(ledger).all_seen().insert((tag_name@, r.local@)),
        final(ledger).unknown_seen() == if crate::attributes::known_good(tag_name@, r.local@) {
            old(ledger).unknown_seen()
        } else {
            old(ledger).unknown_seen().insert((tag_name@, r.local@))
        },
{
    let result = content_attribute_name(tag_name, attribute_name);
    ledger.record(tag_name, result.as_str());
    make_attribute_name(result.as_str())
}

/// Converts an IDL property and its JSON value into a content attribute.
///
/// Every value records the renamed pair in the ledger. `false` omits the
/// attribute, and so does a value of a shape the property cannot take.
pub fn convert_idl_to_content_attribute(
    ledger: &mut Ledger,
    tag_name: &str,
    attribute_name: &str,
    value: JsonValue,
) -> (r: Option<Attribute>)
    requires
        old(ledger).wf(),
    ensures
        final(ledger).wf(),
        match r {
            Some(a) => a.name.ns@ == Seq::<char>::empty() && a.name.local@ == renamed(
                tag_name@,
                attribute_name@,
            ) && coerced_text(attribute_name@, value) == Some(a.value@),
            None => coerced_text(attribute_name@, value) is None,
        },
        ({
            let pair = (tag_name@, renamed(tag_name@, attribute_name@));
            &&& final(ledger).all_seen() == old(ledger).all_seen().insert(pair)
            &&& final(ledger).unknown_seen() == if crate::attributes::known_good(pair.0, pair.1) {
                old(ledger).unknown_seen()
            } else {
                old(ledger).unknown_seen().insert(pair)
            }
        }),
{
    let name = rename_idl_to_content_attribute(ledger, tag_name, attribute_name);
    match coerce_value(attribute_name, &value) {
        Some(text) => Some(Attribute { name, value: text }),
        None => None,
    }
}

} // verus!
