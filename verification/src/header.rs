//! HTTP header fields.
//!
//! The header types of the `http` crate are opaque here: what they hold is
//! spoken of as plain data ([`FieldValue`], [`Field`]), and every call into the
//! crate that the library makes on them stands in this module with what is
//! relied on.
use vstd::prelude::*;
use vstd::utf8::encode_utf8;

verus! {

/// A header value as plain data: its octets, and whether it is marked as one
/// that must not be shown.
pub ghost struct FieldValue {
    pub octets: Seq<u8>,
    pub sensitive: bool,
}

/// One header field: its lower-case name and one value.
pub ghost struct Field {
    pub name: Seq<char>,
    pub value: FieldValue,
}

/// `http::HeaderValue`.
#[verifier::external_type_specification]
#[verifier::external_body]
pub struct ExHeaderValue(http::HeaderValue);

/// `http::header::InvalidHeaderValue`, the refusal of a text as a value.
#[verifier::external_type_specification]
#[verifier::external_body]
pub struct ExInvalidHeaderValue(http::header::InvalidHeaderValue);

/// `http::header::ToStrError`, the refusal to show a value as text.
#[verifier::external_type_specification]
#[verifier::external_body]
pub struct ExToStrError(http::header::ToStrError);

/// `http::HeaderMap`.
#[verifier::external_type_specification]
#[verifier::external_body]
#[verifier::reject_recursive_types(T)]
pub struct ExHeaderMap<T>(http::HeaderMap<T>);

/// The octets of an `http::HeaderValue` (`as_bytes`) and its `is_sensitive`
/// mark.
pub uninterp spec fn field_value(value: http::HeaderValue) -> FieldValue;

/// The fields of an `http::HeaderMap` in the order in which `iter` yields them.
pub uninterp spec fn fields(map: http::HeaderMap<http::HeaderValue>) -> Seq<Field>;

/// How many names a header map may hold before adding one more can panic. The
/// table of a map doubles only when it is three quarters full, or when a fifth
/// of it is used and the names collide badly, and may not grow past 32768
/// slots; below a fifth of that it never has to.
pub const MAX_NAMES: usize = 6553;

/// A character that may stand in a header value made from text: anything from
/// the space upwards but DEL, and the tab.
pub open spec fn is_value_char(c: char) -> bool {
    (c >= ' ' && c != '\u{7f}') || c == '\t'
}

/// A text from which a header value can be made.
pub open spec fn is_value_text(text: Seq<char>) -> bool {
    forall|i: int| 0 <= i < text.len() ==> is_value_char(#[trigger] text[i])
}

/// The value made from `text`.
pub open spec fn value_of_text(text: Seq<char>) -> FieldValue {
    FieldValue { octets: encode_utf8(text), sensitive: false }
}

/// An octet that a header value shows as a character: printable ASCII and the
/// tab.
pub open spec fn is_visible(octet: u8) -> bool {
    32 <= octet < 127 || octet == 9
}

pub open spec fn all_visible(octets: Seq<u8>) -> bool {
    forall|i: int| 0 <= i < octets.len() ==> is_visible(#[trigger] octets[i])
}

/// ASCII octets as text.
pub open spec fn ascii_text(octets: Seq<u8>) -> Seq<char> {
    octets.map_values(|octet: u8| octet as char)
}

/// A hexadecimal digit in lower case.
pub open spec fn hex_digit(n: int) -> char {
    if n < 10 {
        (48 + n) as char
    } else {
        (87 + n) as char
    }
}

/// One octet between the quotes of a debug rendering: a visible one is itself,
/// a quote has a backslash before it, any other is `\x` and its value in
/// hexadecimal without leading zeros.
pub open spec fn debug_octet(octet: u8) -> Seq<char> {
    if octet == 34 {
        seq!['\\', '"']
    } else if is_visible(octet) {
        seq![octet as char]
    } else if octet < 16 {
        seq!['\\', 'x', hex_digit(octet as int)]
    } else {
        seq!['\\', 'x', hex_digit(octet as int / 16), hex_digit(octet as int % 16)]
    }
}

pub open spec fn debug_octets(octets: Seq<u8>) -> Seq<char>
    decreases octets.len(),
{
    if octets.len() == 0 {
        seq![]
    } else {
        debug_octets(octets.drop_last()) + debug_octet(octets.last())
    }
}

/// The debug rendering of a header value.
pub open spec fn debug_value(value: FieldValue) -> Seq<char> {
    if value.sensitive {
        "Sensitive"@
    } else {
        seq!['"'] + debug_octets(value.octets) + seq!['"']
    }
}

/// The value of the first field that bears `name`.
pub open spec fn first_value(fields: Seq<Field>, name: Seq<char>) -> Option<FieldValue>
    decreases fields.len(),
{
    if fields.len() == 0 {
        None
    } else if fields[0].name == name {
        Some(fields[0].value)
    } else {
        first_value(fields.drop_first(), name)
    }
}

/// The values of all fields that bear `name`, in order.
pub open spec fn values_under(fields: Seq<Field>, name: Seq<char>) -> Seq<FieldValue>
    decreases fields.len(),
{
    if fields.len() == 0 {
        seq![]
    } else if fields.last().name == name {
        values_under(fields.drop_last(), name).push(fields.last().value)
    } else {
        values_under(fields.drop_last(), name)
    }
}

/// A field name that is written as it is looked up: lower-case letters, digits
/// and hyphens, at most as many as `http` holds without a further check.
pub open spec fn is_plain_name(name: Seq<char>) -> bool {
    &&& 0 < name.len() <= 64
    &&& forall|i: int|
        0 <= i < name.len() ==> ({
            let c = #[trigger] name[i];
            ('a' <= c && c <= 'z') || ('0' <= c && c <= '9') || c == '-'
        })
}

/// `http::HeaderValue::from_str`: succeeds exactly on texts whose characters
/// are all allowed, and then holds the text in UTF-8, not marked sensitive.
pub assume_specification[ http::HeaderValue::from_str ](src: &str) -> (r: Result<
    http::HeaderValue,
    http::header::InvalidHeaderValue,
>)
    ensures
        r is Ok <==> is_value_text(src@),
        r matches Ok(value) ==> field_value(value) == value_of_text(src@),
;

/// `http::HeaderValue::from_static`: holds the text; it panics on a text with
/// a character that is not visible, so such a text is not admitted.
pub assume_specification[ http::HeaderValue::from_static ](src: &'static str) -> (r:
    http::HeaderValue)
    requires
        all_visible(encode_utf8(src@)),
    ensures
        field_value(r) == value_of_text(src@),
;

/// `http::HeaderValue::to_str`: the text of the value where all its octets are
/// visible, and an error exactly where one is not.
pub assume_specification[ http::HeaderValue::to_str ](value: &http::HeaderValue) -> (r: Result<
    &str,
    http::header::ToStrError,
>)
    ensures
        r is Ok <==> all_visible(field_value(*value).octets),
        r matches Ok(text) ==> text@ == ascii_text(field_value(*value).octets),
;

/// `Clone` of `http::HeaderValue`: the copy holds the same octets and mark.
pub assume_specification[ <http::HeaderValue as Clone>::clone ](value: &http::HeaderValue) -> (r:
    http::HeaderValue)
    ensures
        field_value(r) == field_value(*value),
;

/// `Debug` of `http::HeaderValue`: the mark's word for a sensitive value, else
/// the octets in quotes, escaped one by one.
#[verifier::external_body]
pub(crate) fn debug_header_value(value: &http::HeaderValue) -> (r: String)
    ensures
        r@ == debug_value(field_value(*value)),
{
    format!("{value:?}")
}

/// `http::HeaderMap::new`: a map without fields.
pub assume_specification[ http::HeaderMap::<http::HeaderValue>::new ]() -> (r: http::HeaderMap<
    http::HeaderValue,
>)
    ensures
        fields(r) == Seq::<Field>::empty(),
;

/// `http::HeaderMap::is_empty`: whether the map has no field.
#[verifier::external_body]
pub(crate) fn has_no_fields(map: &http::HeaderMap<http::HeaderValue>) -> (r: bool)
    ensures
        r == (fields(*map).len() == 0),
{
    map.is_empty()
}

/// `http::HeaderMap::insert` of a name that the map does not hold: the field
/// becomes the last one. A map that is full would panic and is not admitted.
#[verifier::external_body]
pub(crate) fn insert_field(
    map: &mut http::HeaderMap<http::HeaderValue>,
    name: &'static str,
    value: http::HeaderValue,
)
    requires
        is_plain_name(name@),
        first_value(fields(*old(map)), name@) is None,
        fields(*old(map)).len() < MAX_NAMES,
    ensures
        fields(*final(map)) == fields(*old(map)).push(
            (Field { name: name@, value: field_value(value) }),
        ),
{
    map.insert(name, value);
}

/// `http::HeaderMap::get`: the first value under the name, where there is one.
#[verifier::external_body]
pub(crate) fn get_field<'a>(
    map: &'a http::HeaderMap<http::HeaderValue>,
    name: &'static str,
) -> (r: Option<&'a http::HeaderValue>)
    requires
        is_plain_name(name@),
    ensures
        match r {
            Some(value) => first_value(fields(*map), name@) == Some(field_value(*value)),
            None => first_value(fields(*map), name@) is None,
        },
{
    map.get(http::HeaderName::from_static(name))
}

/// `http::HeaderMap::iter`: every field in the map's own order, the name as
/// text.
#[verifier::external_body]
pub(crate) fn list_fields(map: &http::HeaderMap<http::HeaderValue>) -> (r: Vec<
    (String, http::HeaderValue),
>)
    ensures
        r@.len() == fields(*map).len(),
        forall|i: int|
            0 <= i < r@.len() ==> (#[trigger] r@[i]).0@ == fields(*map)[i].name && field_value(
                r@[i].1,
            ) == fields(*map)[i].value,
{
    map.iter().map(|(name, value)| (name.as_str().to_string(), value.clone())).collect()
}

/// What can be sent: every character is allowed but the control characters of
/// ASCII, of which only the tab is. So a text can be sent exactly where all its
/// parts can.
pub proof fn sendable_texts(c: char, first: Seq<char>, second: Seq<char>)
    ensures
        is_value_text(seq![c]) <==> !(c as int <= 8 || 10 <= c as int <= 31 || c as int == 127),
        is_value_text(first + second) <==> is_value_text(first) && is_value_text(second),
        is_value_text(seq![]),
{
    assert(is_value_text(seq![c]) <==> is_value_char(c)) by {
        assert(seq![c][0] == c);
    }
    let both = first + second;
    if is_value_text(both) {
        assert forall|i: int| 0 <= i < first.len() implies is_value_char(#[trigger] first[i]) by {
            assert(both[i] == first[i]);
        }
        assert forall|i: int| 0 <= i < second.len() implies is_value_char(#[trigger] second[i]) by {
            assert(both[i + first.len()] == second[i]);
        }
    }
}

/// An octet is shown as it is exactly where it is a tab or printable ASCII, and
/// then as the character of its code.
pub proof fn visible_octets(octets: Seq<u8>)
    ensures
        all_visible(octets) <==> forall|i: int|
            0 <= i < octets.len() ==> #[trigger] octets[i] == 9 || !(octets[i] < 32 || octets[i]
                > 126),
        ascii_text(octets).len() == octets.len(),
        all_visible(octets) ==> forall|i: int|
            0 <= i < octets.len() ==> (#[trigger] ascii_text(octets)[i]) as int == octets[i],
{
    if all_visible(octets) {
        assert forall|i: int| 0 <= i < octets.len() implies (
        #[trigger] ascii_text(octets)[i]) as int == octets[i] by {
            assert(is_visible(octets[i]));
        }
    }
}

/// The debug rendering of a value that is not sensitive is its text in quotes
/// where all octets are visible and none is a quote.
pub proof fn plain_value_is_rendered_in_quotes(value: FieldValue)
    requires
        !value.sensitive,
        forall|i: int|
            0 <= i < value.octets.len() ==> is_visible(#[trigger] value.octets[i])
                && value.octets[i] != 34,
    ensures
        debug_value(value) == seq!['"'] + ascii_text(value.octets) + seq!['"'],
    decreases value.octets.len(),
{
    if value.octets.len() > 0 {
        let before = FieldValue { octets: value.octets.drop_last(), sensitive: false };
        plain_value_is_rendered_in_quotes(before);
        let shown = seq!['"'] + debug_octets(before.octets) + seq!['"'];
        assert(debug_octets(before.octets) =~= shown.subrange(1, shown.len() - 1));
        assert(ascii_text(before.octets) =~= debug_value(before).subrange(
            1,
            debug_value(before).len() - 1,
        ));
        assert(value.octets.last() == value.octets[value.octets.len() - 1]);
        assert(ascii_text(value.octets) =~= ascii_text(before.octets).push(
            value.octets.last() as char,
        ));
        assert(debug_octets(value.octets) =~= ascii_text(value.octets));
    } else {
        assert(debug_octets(value.octets) =~= ascii_text(value.octets));
    }
}

/// The first value of a name is the first of all its values, and there is none
/// exactly where the name has no value.
pub proof fn first_value_is_the_first_of_all(fields: Seq<Field>, name: Seq<char>)
    ensures
        first_value(fields, name) == if values_under(fields, name).len() > 0 {
            Some(values_under(fields, name)[0])
        } else {
            None
        },
    decreases fields.len(),
{
    if fields.len() > 0 {
        let before = fields.drop_last();
        first_value_is_the_first_of_all(before, name);
        lemma_first_value_of_prefix(fields, name);
    }
}

proof fn lemma_first_value_of_prefix(fields: Seq<Field>, name: Seq<char>)
    requires
        fields.len() > 0,
    ensures
        first_value(fields, name) == match first_value(fields.drop_last(), name) {
            Some(value) => Some(value),
            None => if fields.last().name == name {
                Some(fields.last().value)
            } else {
                None
            },
        },
    decreases fields.len(),
{
    if fields.len() > 1 {
        assert(fields.drop_last().drop_first() =~= fields.drop_first().drop_last());
        assert(fields.drop_last()[0] == fields[0]);
        assert(fields.drop_first().last() == fields.last());
        lemma_first_value_of_prefix(fields.drop_first(), name);
    } else {
        assert(fields.drop_first() =~= seq![]);
        assert(fields.drop_last() =~= seq![]);
        assert(fields.last() == fields[0]);
    }
}

} // verus!
