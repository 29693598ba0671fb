//! Who the client says it is: the originator of its requests.
use vstd::prelude::*;
use vstd::utf8::encode_utf8;

use crate::header::{all_visible, field_value, is_value_text, value_of_text};

verus! {

/// The originator where nothing else is asked for.
pub const DEFAULT_ORIGINATOR: &'static str = "codex_cli_rs";

/// The environment variable whose value takes the place of every other
/// originator.
pub const CODEX_INTERNAL_ORIGINATOR_OVERRIDE_ENV_VAR: &'static str =
    "CODEX_INTERNAL_ORIGINATOR_OVERRIDE";

/// An originator, as text and as the header value that is sent.
#[derive(Debug, Clone)]
pub struct Originator {
    pub value: String,
    pub header_value: http::HeaderValue,
}

/// Why an originator could not be set.
#[derive(Debug)]
pub enum SetOriginatorError {
    InvalidHeaderValue,
    AlreadyInitialized,
}

impl Originator {
    /// The text can be sent, and the header value is made from it.
    pub open spec fn wf(&self) -> bool {
        &&& is_value_text(self.value@)
        &&& field_value(self.header_value) == value_of_text(self.value@)
    }
}

/// An optional string as optional text.
pub open spec fn text_of(value: Option<String>) -> Option<Seq<char>> {
    match value {
        Some(text) => Some(text@),
        None => None,
    }
}

/// The originator that is asked for: the override before the one provided,
/// and the default where there is neither.
pub open spec fn requested_originator(
    overriding: Option<Seq<char>>,
    provided: Option<Seq<char>>,
) -> Seq<char> {
    match (overriding, provided) {
        (Some(value), _) => value,
        (None, Some(value)) => value,
        (None, None) => DEFAULT_ORIGINATOR@,
    }
}

/// The originator that is used: the one asked for if it can be sent, else the
/// default.
pub open spec fn chosen_originator(
    overriding: Option<Seq<char>>,
    provided: Option<Seq<char>>,
) -> Seq<char> {
    let requested = requested_originator(overriding, provided);
    if is_value_text(requested) {
        requested
    } else {
        DEFAULT_ORIGINATOR@
    }
}

proof fn lemma_default_originator()
    ensures
        is_value_text(DEFAULT_ORIGINATOR@),
        all_visible(encode_utf8(DEFAULT_ORIGINATOR@)),
{
    reveal_strlit("codex_cli_rs");
    assert(is_value_text(DEFAULT_ORIGINATOR@));
    vstd::string::is_ascii_spec_bytes(DEFAULT_ORIGINATOR);
}

/// Whatever is asked for, the originator that is used can be sent.
pub proof fn chosen_originator_is_sendable(
    overriding: Option<Seq<char>>,
    provided: Option<Seq<char>>,
)
    ensures
        is_value_text(chosen_originator(overriding, provided)),
{
    lemma_default_originator();
}

/// An override that can be sent is used whatever else is provided, and one that
/// cannot be sent gives the default, not the value provided.
pub proof fn override_decides(overriding: Seq<char>, provided: Option<Seq<char>>)
    ensures
        chosen_originator(Some(overriding), provided) == if is_value_text(overriding) {
            overriding
        } else {
            DEFAULT_ORIGINATOR@
        },
{
}

/// The originator that is asked for, whether or not it can be sent.
pub fn originator_asked_for(overriding: Option<String>, provided: Option<String>) -> (r: String)
    ensures
        r@ == requested_originator(text_of(overriding), text_of(provided)),
{
    match overriding {
        Some(value) => value,
        None => match provided {
            Some(value) => value,
            None => DEFAULT_ORIGINATOR.to_owned(),
        },
    }
}

/// Makes the originator from the value of the override variable, if it is set,
/// and the value that was provided, if one was.
pub fn get_originator_value(overriding: Option<String>, provided: Option<String>) -> (r: Originator)
    ensures
        r.value@ == chosen_originator(text_of(overriding), text_of(provided)),
        r.wf(),
{
    let value: String = originator_asked_for(overriding, provided);
    match http::HeaderValue::from_str(value.as_str()) {
        Ok(header_value) => Originator { value, header_value },
        Err(_) => {
            proof {
                lemma_default_originator();
            }
            Originator {
                value: DEFAULT_ORIGINATOR.to_owned(),
                header_value: http::HeaderValue::from_static(DEFAULT_ORIGINATOR),
            }
        },
    }
}

/// The originator of a process: set at most once, and settled by its first
/// use.
pub struct OriginatorCell {
    settled: Option<Originator>,
}

impl View for OriginatorCell {
    type V = Option<Originator>;

    closed spec fn view(&self) -> Option<Originator> {
        self.settled
    }
}

impl OriginatorCell {
    #[verifier::type_invariant]
    spec fn inv(self) -> bool {
        self.settled matches Some(originator) ==> originator.wf()
    }

    /// A cell whose originator is still open.
    pub fn new() -> (r: Self)
        ensures
            r@ is None,
    {
        OriginatorCell { settled: None }
    }

    /// Whether the originator is settled.
    pub fn is_settled(&self) -> (r: bool)
        ensures
            r == self@ is Some,
    {
        self.settled.is_some()
    }
}

/// Settles the originator on `value`, or on the override where there is one.
/// Once the originator is settled it stays, and the call is refused.
pub fn set_default_originator(
    cell: &mut OriginatorCell,
    overriding: Option<String>,
    value: String,
) -> (r: Result<(), SetOriginatorError>)
    ensures
        match old(cell)@ {
            Some(_) => r == Err::<(), SetOriginatorError>(SetOriginatorError::AlreadyInitialized)
                && final(cell)@ == old(cell)@,
            None => r is Ok && (final(cell)@ matches Some(originator) && originator.wf()
                && originator.value@ == chosen_originator(text_of(overriding), Some(value@))),
        },
{
    let originator = get_originator_value(overriding, Some(value));
    if cell.settled.is_some() {
        return Err(SetOriginatorError::AlreadyInitialized);
    }
    cell.settled = Some(originator);
    Ok(())
}

/// The originator. Where it is still open, this settles it on the override, or
/// on the default.
pub fn originator(cell: &mut OriginatorCell, overriding: Option<String>) -> (r: &Originator)
    ensures
        final(cell)@ == Some(*r),
        r.wf(),
        match old(cell)@ {
            Some(originator) => *r == originator,
            None => r.value@ == chosen_originator(text_of(overriding), None),
        },
{
    proof {
        use_type_invariant(&*cell);
    }
    if cell.settled.is_none() {
        cell.settled = Some(get_originator_value(overriding, None));
    }
    match &cell.settled {
        Some(originator) => originator,
        None => vstd::pervasive::unreached(),
    }
}

/// Without an override, a value that is provided is used itself whenever it can
/// be sent, and the default takes its place only where it cannot. With neither,
/// the default is used.
pub proof fn provided_value_decides(provided: Seq<char>)
    ensures
        is_value_text(provided) ==> chosen_originator(None, Some(provided)) == provided,
        !is_value_text(provided) ==> chosen_originator(None, Some(provided)) == "codex_cli_rs"@,
        chosen_originator(None, None) == "codex_cli_rs"@,
{
}

/// What is asked for is the override as it stands, else the value provided as it
/// stands, else the default.
pub proof fn value_asked_for_is_as_given(
    overriding: Option<String>,
    provided: Option<String>,
    asked: String,
)
    requires
        call_ensures(originator_asked_for, (overriding, provided), asked),
    ensures
        overriding matches Some(value) ==> asked@ == value@,
        overriding is None ==> (provided matches Some(value) ==> asked@ == value@),
        overriding is None && provided is None ==> asked@ == "codex_cli_rs"@,
{
}

/// An originator that was made is the override, else the value provided, and is
/// the default only where that cannot be sent or there is neither. Its header
/// value holds the octets of its text and is not hidden.
pub proof fn made_originator_is_the_one_asked_for(
    overriding: Option<String>,
    provided: Option<String>,
    made: Originator,
)
    requires
        call_ensures(get_originator_value, (overriding, provided), made),
    ensures
        overriding matches Some(value) ==> (if is_value_text(value@) {
            made.value@ == value@
        } else {
            made.value@ == "codex_cli_rs"@
        }),
        overriding is None ==> (provided matches Some(value) ==> (if is_value_text(value@) {
            made.value@ == value@
        } else {
            made.value@ == "codex_cli_rs"@
        })),
        overriding is None && provided is None ==> made.value@ == "codex_cli_rs"@,
        field_value(made.header_value).octets == encode_utf8(made.value@),
        !field_value(made.header_value).sensitive,
{
}

/// A cell starts open. The first value that is set is the one that is read ever
/// after, whatever override appears later, where it can be sent and no override
/// was there when it was set; what is read is its text and its octets.
pub proof fn value_that_is_set_is_read(
    fresh: OriginatorCell,
    setting: &mut OriginatorCell,
    value: String,
    outcome: Result<(), SetOriginatorError>,
    reading: &mut OriginatorCell,
    later_override: Option<String>,
    read: &Originator,
)
    requires
        call_ensures(OriginatorCell::new, (), fresh),
        *old(setting) == fresh,
        call_ensures(set_default_originator, (setting, None, value), outcome),
        *old(reading) == *final(setting),
        call_ensures(originator, (reading, later_override), read),
        is_value_text(value@),
    ensures
        outcome is Ok,
        read.value@ == value@,
        field_value(read.header_value).octets == encode_utf8(value@),
        !field_value(read.header_value).sensitive,
{
}

/// An override that is there when the originator is set is the one that is read,
/// or the default where the override cannot be sent; never the value provided.
pub proof fn override_that_is_there_is_read(
    fresh: OriginatorCell,
    setting: &mut OriginatorCell,
    overriding: String,
    value: String,
    outcome: Result<(), SetOriginatorError>,
    reading: &mut OriginatorCell,
    later_override: Option<String>,
    read: &Originator,
)
    requires
        call_ensures(OriginatorCell::new, (), fresh),
        *old(setting) == fresh,
        call_ensures(set_default_originator, (setting, Some(overriding), value), outcome),
        *old(reading) == *final(setting),
        call_ensures(originator, (reading, later_override), read),
    ensures
        outcome is Ok,
        is_value_text(overriding@) ==> read.value@ == overriding@,
        !is_value_text(overriding@) ==> read.value@ == "codex_cli_rs"@,
{
}

/// Reading an originator that is still open settles it on the override where one
/// can be sent, else on the default.
pub proof fn first_use_settles(
    fresh: OriginatorCell,
    reading: &mut OriginatorCell,
    overriding: Option<String>,
    read: &Originator,
)
    requires
        call_ensures(OriginatorCell::new, (), fresh),
        *old(reading) == fresh,
        call_ensures(originator, (reading, overriding), read),
    ensures
        final(reading)@ == Some(*read),
        read.value@ == match overriding {
            Some(value) if is_value_text(value@) => value@,
            _ => "codex_cli_rs"@,
        },
{
}

/// Once an originator was read it never changes: every later reading gives the
/// same, and every attempt to set it is refused and leaves it alone.
pub proof fn settled_originator_stays(
    first: &mut OriginatorCell,
    first_override: Option<String>,
    read: &Originator,
    setting: &mut OriginatorCell,
    set_override: Option<String>,
    value: String,
    outcome: Result<(), SetOriginatorError>,
    second: &mut OriginatorCell,
    second_override: Option<String>,
    read_again: &Originator,
)
    requires
        call_ensures(originator, (first, first_override), read),
        *old(setting) == *final(first),
        call_ensures(set_default_originator, (setting, set_override, value), outcome),
        *old(second) == *final(setting),
        call_ensures(originator, (second, second_override), read_again),
    ensures
        outcome == Err::<(), SetOriginatorError>(SetOriginatorError::AlreadyInitialized),
        *read_again == *read,
{
}

/// A cell says that it is settled from the first setting or reading on, and not
/// before.
pub proof fn cell_tells_whether_it_is_settled(
    fresh: OriginatorCell,
    at_first: bool,
    setting: &mut OriginatorCell,
    overriding: Option<String>,
    value: String,
    outcome: Result<(), SetOriginatorError>,
    after_setting: bool,
    reading: &mut OriginatorCell,
    later_override: Option<String>,
    read: &Originator,
    after_reading: bool,
)
    requires
        call_ensures(OriginatorCell::new, (), fresh),
        call_ensures(OriginatorCell::is_settled, (&fresh,), at_first),
        call_ensures(set_default_originator, (setting, overriding, value), outcome),
        call_ensures(OriginatorCell::is_settled, (&*final(setting),), after_setting),
        call_ensures(originator, (reading, later_override), read),
        call_ensures(OriginatorCell::is_settled, (&*final(reading),), after_reading),
    ensures
        !at_first,
        after_setting,
        after_reading,
{
}

} // verus!
