use vstd::prelude::*;

use crate::text::str_eq;

verus! {

/// The content-attribute name that an IDL property name is renamed to.
///
/// The table has only global entries: no tag narrows a rename, so the tag is
/// not consulted. A property without an entry keeps its own name.
pub open spec fn renamed(tag: Seq<char>, property: Seq<char>) -> Seq<char> {
    if property == "ariaHidden"@ {
        "aria-hidden"@
    } else if property == "ariaLabel"@ {
        "aria-label"@
    } else if property == "className"@ {
        "class"@
    } else if property == "tabIndex"@ {
        "tabindex"@
    } else {
        property
    }
}

/// Attributes that are known to convert correctly on every tag.
pub open spec fn globally_known_good(attribute: Seq<char>) -> bool {
    attribute == "aria-hidden"@ || attribute == "aria-label"@ || attribute == "id"@
        || attribute == "style"@ || attribute == "tabindex"@ || attribute == "title"@
}

/// Attributes that are known to convert correctly on one given tag.
pub open spec fn tag_known_good(tag: Seq<char>, attribute: Seq<char>) -> bool {
    (tag == "Mention"@ && attribute == "handle"@)
    || (tag == "a"@ && (attribute == "href"@ || attribute == "name"@ || attribute == "target"@))
    || (tag == "details"@ && (attribute == "name"@ || attribute == "open"@))
    || (tag == "div"@ && attribute == "align"@)
    || (tag == "h3"@ && attribute == "align"@)
    || (tag == "img"@ && (attribute == "alt"@ || attribute == "border"@ || attribute == "height"@
        || attribute == "src"@ || attribute == "width"@))
    || (tag == "input"@ && (attribute == "disabled"@ || attribute == "name"@ || attribute
        == "type"@ || attribute == "value"@))
    || (tag == "ol"@ && attribute == "start"@)
    || (tag == "p"@ && attribute == "align"@)
    || (tag == "td"@ && attribute == "align"@)
    || (tag == "th"@ && attribute == "align"@)
}

/// An attribute is known good when its global entry or its entry for the tag
/// is in the allowlist.
pub open spec fn known_good(tag: Seq<char>, attribute: Seq<char>) -> bool {
    globally_known_good(attribute) || tag_known_good(tag, attribute)
}

/// Renames an IDL property to its content-attribute name.
pub fn content_attribute_name(tag: &str, property: &str) -> (r: String)
    ensures
        r@ == renamed(tag@, property@),
{
    if str_eq(property, "ariaHidden") {
        "aria-hidden".to_owned()
    } else if str_eq(property, "ariaLabel") {
        "aria-label".to_owned()
    } else if str_eq(property, "className") {
        "class".to_owned()
    } else if str_eq(property, "tabIndex") {
        "tabindex".to_owned()
    } else {
        property.to_owned()
    }
}

fn is_globally_known_good(attribute: &str) -> (r: bool)
    ensures
        r == globally_known_good(attribute@),
{
    str_eq(attribute, "aria-hidden") || str_eq(attribute, "aria-label") || str_eq(attribute, "id")
        || str_eq(attribute, "style") || str_eq(attribute, "tabindex") || str_eq(attribute, "title")
}

fn is_tag_known_good(tag: &str, attribute: &str) -> (r: bool)
    ensures
        r == tag_known_good(tag@, attribute@),
{
    (str_eq(tag, "Mention") && str_eq(attribute, "handle"))
    || (str_eq(tag, "a") && (str_eq(attribute, "href") || str_eq(attribute, "name") || str_eq(attribute, "target")))
    || (str_eq(tag, "details") && (str_eq(attribute, "name") || str_eq(attribute, "open")))
    || (str_eq(tag, "div") && str_eq(attribute, "align"))
    || (str_eq(tag, "h3") && str_eq(attribute, "align"))
    || (str_eq(tag, "img") && (str_eq(attribute, "alt") || str_eq(attribute, "border")
        || str_eq(attribute, "height") || str_eq(attribute, "src") || str_eq(attribute, "width")))
    || (str_eq(tag, "input") && (str_eq(attribute, "disabled") || str_eq(attribute, "name")
        || str_eq(attribute, "type") || str_eq(attribute, "value")))
    || (str_eq(tag, "ol") && str_eq(attribute, "start"))
    || (str_eq(tag, "p") && str_eq(attribute, "align"))
    || (str_eq(tag, "td") && str_eq(attribute, "align"))
    || (str_eq(tag, "th") && str_eq(attribute, "align"))
}

/// Whether the attribute is on the allowlist, globally or for the tag.
pub fn is_known_good(tag: &str, attribute: &str) -> (r: bool)
    ensures
        r == known_good(tag@, attribute@),
{
    is_globally_known_good(attribute) || is_tag_known_good(tag, attribute)
}

} // verus!
