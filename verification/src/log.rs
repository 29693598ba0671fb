//! The entries that are written to the request and response logs.
use vstd::prelude::*;
use vstd::utf8::{decode_utf8, valid_utf8};

use crate::header::{
    all_visible, ascii_text, debug_header_value, debug_value, field_value, fields, has_no_fields,
    list_fields, values_under, Field, FieldValue,
};
use crate::request::{
    request_content, request_headers, request_octets, request_url, values_of,
};

verus! {

/// Where requests are logged.
pub const REQUEST_LOG_PATH: &'static str = "/tmp/codex-http-requests.log";

/// Where responses, and failures to get one, are logged.
pub const RESPONSE_LOG_PATH: &'static str = "/tmp/codex-http-responses.log";

/// `http::Method`.
#[verifier::external_type_specification]
#[verifier::external_body]
pub struct ExMethod(http::Method);

/// `http::StatusCode`.
#[verifier::external_type_specification]
#[verifier::external_body]
pub struct ExStatusCode(http::StatusCode);

/// `http::Version`.
#[verifier::external_type_specification]
#[verifier::external_body]
pub struct ExVersion(http::Version);

/// `reqwest::Error`.
#[verifier::external_type_specification]
#[verifier::external_body]
pub struct ExReqwestError(reqwest::Error);

/// `time::OffsetDateTime`.
#[verifier::external_type_specification]
#[verifier::external_body]
pub struct ExOffsetDateTime(time::OffsetDateTime);

/// `time::error::Format`, the refusal to write a moment down.
#[verifier::external_type_specification]
#[verifier::external_body]
pub struct ExFormatError(time::error::Format);

/// The text of a method, as `http::Method::as_str` gives it.
pub uninterp spec fn method_text(method: http::Method) -> Seq<char>;

/// A status code with its reason, as its `Display` writes it.
pub uninterp spec fn status_text(status: http::StatusCode) -> Seq<char>;

/// A protocol version, as its `Debug` writes it.
pub uninterp spec fn version_text(version: http::Version) -> Seq<char>;

/// An error of `reqwest`, as its `Display` writes it.
pub uninterp spec fn error_text(error: reqwest::Error) -> Seq<char>;

/// A moment in the format of RFC 3339, where it can be written so.
pub uninterp spec fn rfc3339_text(moment: time::OffsetDateTime) -> Option<Seq<char>>;

/// What is read from octets as UTF-8, where replacement characters stand for
/// what is not UTF-8.
pub uninterp spec fn lossy_text(octets: Seq<u8>) -> Seq<char>;

/// `http::Method::as_str`; `Display` of a method writes the same text.
pub assume_specification[ http::Method::as_str ](method: &http::Method) -> (r: &str)
    ensures
        r@ == method_text(*method),
;

/// `Display` of `http::StatusCode`.
#[verifier::external_body]
fn display_status(status: &http::StatusCode) -> (r: String)
    ensures
        r@ == status_text(*status),
{
    status.to_string()
}

/// `Debug` of `http::Version`.
#[verifier::external_body]
fn debug_version(version: &http::Version) -> (r: String)
    ensures
        r@ == version_text(*version),
{
    format!("{version:?}")
}

/// `Display` of `reqwest::Error`.
#[verifier::external_body]
fn display_error(error: &reqwest::Error) -> (r: String)
    ensures
        r@ == error_text(*error),
{
    error.to_string()
}

/// `time::OffsetDateTime::now_utc`: the time of the call, of which nothing is
/// promised.
pub assume_specification[ time::OffsetDateTime::now_utc ]() -> (r: time::OffsetDateTime)
;

/// `time::OffsetDateTime::format` in the well-known format RFC 3339.
#[verifier::external_body]
fn format_rfc3339(moment: time::OffsetDateTime) -> (r: Result<String, time::error::Format>)
    ensures
        match r {
            Ok(text) => rfc3339_text(moment) == Some(text@),
            Err(_) => rfc3339_text(moment) is None,
        },
{
    moment.format(&time::format_description::well_known::Rfc3339)
}

/// `String::from_utf8_lossy`: octets that are UTF-8 are read exactly.
#[verifier::external_body]
fn from_utf8_lossy(octets: &[u8]) -> (r: String)
    ensures
        r@ == lossy_text(octets@),
        valid_utf8(octets@) ==> r@ == decode_utf8(octets@),
{
    String::from_utf8_lossy(octets).to_string()
}

/// `moment` is what the clock answered when it was read.
pub open spec fn is_present(moment: time::OffsetDateTime) -> bool {
    call_ensures(time::OffsetDateTime::now_utc, (), moment)
}

/// The stamp of a moment: in RFC 3339, or a word where that cannot be had.
pub open spec fn stamp(written: Option<Seq<char>>) -> Seq<char> {
    match written {
        Some(text) => text,
        None => "unknown"@,
    }
}

/// The stamp for a moment that was written down, or could not be.
pub fn stamp_or_unknown(written: Option<String>) -> (r: String)
    ensures
        r@ == stamp(
            match written {
                Some(text) => Some(text@),
                None => None,
            },
        ),
{
    match written {
        Some(text) => text,
        None => "unknown".to_owned(),
    }
}

/// The stamp of the present moment.
pub fn log_timestamp() -> (r: String)
    ensures
        exists|moment: time::OffsetDateTime|
            is_present(moment) && r@ == stamp(#[trigger] rfc3339_text(moment)),
{
    let now = time::OffsetDateTime::now_utc;
    let moment: time::OffsetDateTime = now();
    let written: Option<String> = match format_rfc3339(moment) {
        Ok(text) => Some(text),
        Err(_) => None,
    };
    stamp_or_unknown(written)
}

/// A header value in the log: its text, or its debug rendering where it has an
/// octet that is not visible.
pub open spec fn rendered_value(value: FieldValue) -> Seq<char> {
    if all_visible(value.octets) {
        ascii_text(value.octets)
    } else {
        debug_value(value)
    }
}

/// The line of one header field.
pub open spec fn field_line(field: Field) -> Seq<char> {
    "  "@ + field.name + ": "@ + rendered_value(field.value) + "\n"@
}

pub open spec fn field_lines(fields: Seq<Field>) -> Seq<char>
    decreases fields.len(),
{
    if fields.len() == 0 {
        seq![]
    } else {
        field_lines(fields.drop_last()) + field_line(fields.last())
    }
}

/// The header block of an entry: a line for each field in order, or a line
/// that says that there is none.
pub open spec fn header_block(fields: Seq<Field>) -> Seq<char> {
    if fields.len() == 0 {
        "  <none>\n"@
    } else {
        field_lines(fields)
    }
}

/// Renders one header value.
pub fn render_value(value: &http::HeaderValue) -> (r: String)
    ensures
        r@ == rendered_value(field_value(*value)),
{
    match value.to_str() {
        Ok(text) => text.to_owned(),
        Err(_) => debug_header_value(value),
    }
}

/// Renders the header fields, each on a line of its own.
pub fn format_headers(headers: &http::HeaderMap<http::HeaderValue>) -> (r: String)
    ensures
        r@ == header_block(fields(*headers)),
{
    if has_no_fields(headers) {
        return "  <none>\n".to_owned();
    }
    let list: Vec<(String, http::HeaderValue)> = list_fields(headers);
    let ghost all = fields(*headers);
    let mut text = String::new();
    let mut i: usize = 0;
    while i < list.len()
        invariant
            i <= list.len(),
            list@.len() == all.len(),
            forall|j: int|
                0 <= j < list@.len() ==> (#[trigger] list@[j]).0@ == all[j].name && field_value(
                    list@[j].1,
                ) == all[j].value,
            text@ == field_lines(all.take(i as int)),
        decreases list.len() - i,
    {
        let rendered: String = render_value(&list[i].1);
        let line: String = "  ".to_owned().concat(list[i].0.as_str()).concat(": ").concat(
            rendered.as_str(),
        ).concat("\n");
        text.append(line.as_str());
        proof {
            assert(all.take(i + 1).drop_last() == all.take(i as int));
            assert(line@ == field_line(all[i as int]));
        }
        i = i + 1;
    }
    assert(all.take(all.len() as int) == all);
    text
}

/// Reads a body as text.
pub fn format_body_bytes(body: &[u8]) -> (r: String)
    ensures
        r@ == lossy_text(body@),
        valid_utf8(body@) ==> r@ == decode_utf8(body@),
{
    from_utf8_lossy(body)
}

/// The entry of a request.
pub open spec fn request_entry(
    timestamp: Seq<char>,
    method: Seq<char>,
    url: Seq<char>,
    headers: Seq<char>,
    body: Seq<char>,
) -> Seq<char> {
    "["@ + timestamp + "] "@ + method + " "@ + url + "\nHeaders:\n"@ + headers + "Body:\n"@ + body
        + "\n\n"@
}

/// The entry of a response.
pub open spec fn response_entry(
    timestamp: Seq<char>,
    status: Seq<char>,
    url: Seq<char>,
    version: Seq<char>,
    headers: Seq<char>,
    body: Seq<char>,
) -> Seq<char> {
    "["@ + timestamp + "] "@ + status + " "@ + url + " (HTTP/"@ + version + ")\nHeaders:\n"@
        + headers + "Body:\n"@ + body + "\n\n"@
}

/// The entry of a request that got no response.
pub open spec fn error_entry(
    timestamp: Seq<char>,
    method: Seq<char>,
    url: Seq<char>,
    error: Seq<char>,
) -> Seq<char> {
    "["@ + timestamp + "] "@ + method + " "@ + url + "\nError: "@ + error + "\n\n"@
}

/// The body part of a request's entry: the text of the body, or a remark where
/// its octets are not at hand.
pub open spec fn request_body(body: Option<Seq<u8>>) -> Seq<char> {
    match body {
        Some(octets) => lossy_text(octets),
        None => "<body not captured (streaming or multipart)>"@,
    }
}

/// Composes the entry of a request from its rendered parts.
pub fn compose_request_entry(
    timestamp: &str,
    method: &str,
    url: &str,
    headers: &str,
    body: &str,
) -> (r: String)
    ensures
        r@ == request_entry(timestamp@, method@, url@, headers@, body@),
{
    "[".to_owned().concat(timestamp).concat("] ").concat(method).concat(" ").concat(url).concat(
        "\nHeaders:\n",
    ).concat(headers).concat("Body:\n").concat(body).concat("\n\n")
}

/// Composes the entry of a response from its rendered parts.
pub fn compose_response_entry(
    timestamp: &str,
    status: &str,
    url: &str,
    version: &str,
    headers: &str,
    body: &str,
) -> (r: String)
    ensures
        r@ == response_entry(timestamp@, status@, url@, version@, headers@, body@),
{
    "[".to_owned().concat(timestamp).concat("] ").concat(status).concat(" ").concat(url).concat(
        " (HTTP/",
    ).concat(version).concat(")\nHeaders:\n").concat(headers).concat("Body:\n").concat(body).concat(
        "\n\n",
    )
}

/// Composes the entry of a failed request from its rendered parts.
pub fn compose_error_entry(timestamp: &str, method: &str, url: &str, error: &str) -> (r: String)
    ensures
        r@ == error_entry(timestamp@, method@, url@, error@),
{
    "[".to_owned().concat(timestamp).concat("] ").concat(method).concat(" ").concat(url).concat(
        "\nError: ",
    ).concat(error).concat("\n\n")
}

/// The entry of a request that is about to be executed, stamped now: its own
/// method, URL, header fields and body.
pub fn log_request(request: &reqwest::Request) -> (r: String)
    ensures
        exists|moment: time::OffsetDateTime|
            is_present(moment) && r@ == request_entry(
                stamp(#[trigger] rfc3339_text(moment)),
                request_content(*request).method,
                request_content(*request).url,
                header_block(fields(request_headers(*request))),
                request_body(request_content(*request).body),
            ),
        request_content(*request).body matches Some(octets) ==> (valid_utf8(octets) ==> lossy_text(
            octets,
        ) == decode_utf8(octets)),
        forall|name: Seq<char>| #[trigger]
            values_under(fields(request_headers(*request)), name) == values_of(
                request_content(*request),
                name,
            ),
{
    let body_text: String = match request_octets(request) {
        Some(octets) => format_body_bytes(octets),
        None => "<body not captured (streaming or multipart)>".to_owned(),
    };
    let timestamp: String = log_timestamp();
    let header_text: String = format_headers(request.headers());
    compose_request_entry(
        timestamp.as_str(),
        request.method().as_str(),
        request_url(request),
        header_text.as_str(),
        body_text.as_str(),
    )
}

/// The entry of a response with its whole body, stamped now.
pub fn log_response(
    status: &http::StatusCode,
    url: &str,
    version: &http::Version,
    headers: &http::HeaderMap<http::HeaderValue>,
    body: &[u8],
) -> (r: String)
    ensures
        exists|moment: time::OffsetDateTime|
            is_present(moment) && r@ == response_entry(
                stamp(#[trigger] rfc3339_text(moment)),
                status_text(*status),
                url@,
                version_text(*version),
                header_block(fields(*headers)),
                lossy_text(body@),
            ),
        valid_utf8(body@) ==> lossy_text(body@) == decode_utf8(body@),
{
    let timestamp: String = log_timestamp();
    let status_line: String = display_status(status);
    let version_line: String = debug_version(version);
    let header_text: String = format_headers(headers);
    let body_text: String = format_body_bytes(body);
    compose_response_entry(
        timestamp.as_str(),
        status_line.as_str(),
        url,
        version_line.as_str(),
        header_text.as_str(),
        body_text.as_str(),
    )
}

/// The entry of a request that got no response, stamped now.
pub fn log_response_error(method: &http::Method, url: &str, error: &reqwest::Error) -> (r: String)
    ensures
        exists|moment: time::OffsetDateTime|
            is_present(moment) && r@ == error_entry(
                stamp(#[trigger] rfc3339_text(moment)),
                method_text(*method),
                url@,
                error_text(*error),
            ),
{
    let timestamp: String = log_timestamp();
    let error_line: String = display_error(error);
    compose_error_entry(timestamp.as_str(), method.as_str(), url, error_line.as_str())
}

/// Every entry begins with its stamp in brackets and ends with an empty line, so
/// entries that are appended one after the other stay apart.
pub proof fn entries_stand_apart(
    timestamp: Seq<char>,
    subject: Seq<char>,
    url: Seq<char>,
    version: Seq<char>,
    headers: Seq<char>,
    body: Seq<char>,
)
    ensures
        ("["@ + timestamp + "] "@).is_prefix_of(
            request_entry(timestamp, subject, url, headers, body),
        ),
        ("["@ + timestamp + "] "@).is_prefix_of(
            response_entry(timestamp, subject, url, version, headers, body),
        ),
        ("["@ + timestamp + "] "@).is_prefix_of(error_entry(timestamp, subject, url, body)),
        "\n\n"@.is_suffix_of(request_entry(timestamp, subject, url, headers, body)),
        "\n\n"@.is_suffix_of(response_entry(timestamp, subject, url, version, headers, body)),
        "\n\n"@.is_suffix_of(error_entry(timestamp, subject, url, body)),
{
}

/// The fields of a map are rendered one after the other: the lines of some
/// fields followed by others are the lines of the ones before those of the
/// others.
pub proof fn field_lines_follow_each_other(first: Seq<Field>, second: Seq<Field>)
    ensures
        field_lines(first + second) == field_lines(first) + field_lines(second),
    decreases second.len(),
{
    if second.len() == 0 {
        assert(first + second =~= first);
        assert(field_lines(first) + field_lines(second) =~= field_lines(first));
    } else {
        assert((first + second).drop_last() =~= first + second.drop_last());
        field_lines_follow_each_other(first, second.drop_last());
        assert(field_lines(first + second) =~= field_lines(first) + field_lines(second));
    }
}

/// A stamp is the moment as it was written down, and the word `unknown` exactly
/// where it could not be.
pub proof fn stamp_is_what_was_written(written: Option<String>, r: String)
    requires
        call_ensures(stamp_or_unknown, (written,), r),
    ensures
        written matches Some(text) ==> r@ == text@,
        written is None ==> r@ == "unknown"@,
{
}

/// The stamp of the present moment is a moment that the clock answered, in the
/// format of RFC 3339, and a word only where that cannot be had.
pub proof fn stamp_is_of_a_moment_that_was_read(r: String)
    requires
        call_ensures(log_timestamp, (), r),
    ensures
        exists|moment: time::OffsetDateTime|
            #[trigger] call_ensures(time::OffsetDateTime::now_utc, (), moment) && r@ == {
                match rfc3339_text(moment) {
                    Some(text) => text,
                    None => "unknown"@,
                }
            },
{
    let moment = choose|moment: time::OffsetDateTime|
        is_present(moment) && r@ == stamp(#[trigger] rfc3339_text(moment));
    assert(call_ensures(time::OffsetDateTime::now_utc, (), moment));
}

/// A value whose octets are all visible is shown character by character as it
/// is, whether or not it is marked sensitive. Any other is shown by the word for
/// a sensitive value, or in quotes.
pub proof fn visible_value_is_shown_as_it_is(value: &http::HeaderValue, r: String)
    requires
        call_ensures(render_value, (value,), r),
    ensures
        all_visible(field_value(*value).octets) ==> r@.len() == field_value(*value).octets.len()
            && forall|i: int|
            0 <= i < r@.len() ==> (#[trigger] r@[i]) as int == field_value(*value).octets[i],
        !all_visible(field_value(*value).octets) ==> r@ == debug_value(field_value(*value)),
        !all_visible(field_value(*value).octets) && !field_value(*value).sensitive ==> r@.len() >= 2
            && r@.first() == '"' && r@.last() == '"',
{
    assert forall|i: int|
        0 <= i < r@.len() && all_visible(field_value(*value).octets) implies (
        #[trigger] r@[i]) as int == field_value(*value).octets[i] by {
        let octet = field_value(*value).octets[i];
        assert(32 <= octet < 127 || octet == 9);
        assert(r@[i] == octet as char);
    }
}

proof fn lemma_lines(fields: Seq<Field>, lines: Seq<Seq<char>>)
    requires
        lines.len() == fields.len(),
        forall|i: int|
            0 <= i < lines.len() ==> #[trigger] lines[i] == {
                let field = fields[i];
                let shown = if all_visible(field.value.octets) {
                    ascii_text(field.value.octets)
                } else {
                    debug_value(field.value)
                };
                "  "@ + field.name + ": "@ + shown + "\n"@
            },
    ensures
        field_lines(fields) == lines.flatten(),
    decreases fields.len(),
{
    if fields.len() > 0 {
        lemma_lines(fields.drop_last(), lines.drop_last());
        lines.drop_last().lemma_flatten_push(lines.last());
        assert(lines.drop_last().push(lines.last()) =~= lines);
        assert(lines[lines.len() - 1] == lines.last());
    }
}

/// The header block has a line for every field of the map, in the map's order:
/// two spaces, the name, a colon and a space, the value. Nothing is left out and
/// nothing is hidden, and only a map without fields has another line.
pub proof fn every_field_has_its_line(
    headers: &http::HeaderMap<http::HeaderValue>,
    lines: Seq<Seq<char>>,
    r: String,
)
    requires
        call_ensures(format_headers, (headers,), r),
        lines.len() == fields(*headers).len(),
        forall|i: int|
            0 <= i < lines.len() ==> #[trigger] lines[i] == {
                let field = fields(*headers)[i];
                let shown = if all_visible(field.value.octets) {
                    ascii_text(field.value.octets)
                } else {
                    debug_value(field.value)
                };
                "  "@ + field.name + ": "@ + shown + "\n"@
            },
    ensures
        lines.len() == 0 ==> r@ == "  <none>\n"@,
        lines.len() > 0 ==> r@ == lines.flatten(),
{
    lemma_lines(fields(*headers), lines);
}

/// A body is read as the text that its octets encode, all of it.
pub proof fn body_is_read_whole(body: &[u8], r: String)
    requires
        call_ensures(format_body_bytes, (body,), r),
    ensures
        valid_utf8(body@) ==> r@ == decode_utf8(body@),
        r@ == lossy_text(body@),
{
}

/// The parts of a request's entry can be read back from it: it begins with the
/// stamp, the method and the URL, it ends with the headers and the body, and
/// nothing stands between.
pub proof fn request_entry_keeps_its_parts(
    timestamp: &str,
    method: &str,
    url: &str,
    headers: &str,
    body: &str,
    r: String,
)
    requires
        call_ensures(compose_request_entry, (timestamp, method, url, headers, body), r),
    ensures
        ({
            let head = "["@ + timestamp@ + "] "@ + method@ + " "@ + url@ + "\nHeaders:\n"@;
            let rest = headers@ + "Body:\n"@ + body@ + "\n\n"@;
            &&& head.is_prefix_of(r@)
            &&& rest.is_suffix_of(r@)
            &&& r@.len() == head.len() + rest.len()
            &&& r@.subrange(r@.len() - 2 - body@.len(), r@.len() - 2) == body@
        }),
{
    reveal_strlit("\n\n");
    let head = "["@ + timestamp@ + "] "@ + method@ + " "@ + url@ + "\nHeaders:\n"@;
    let rest = headers@ + "Body:\n"@ + body@ + "\n\n"@;
    assert(r@ =~= head + rest);
    assert(r@.subrange(r@.len() - 2 - body@.len(), r@.len() - 2) =~= body@);
}

/// The parts of a response's entry can be read back from it: it begins with the
/// stamp, the status, the URL and the version, it ends with the headers and the
/// whole body, and nothing stands between.
pub proof fn response_entry_keeps_its_parts(
    timestamp: &str,
    status: &str,
    url: &str,
    version: &str,
    headers: &str,
    body: &str,
    r: String,
)
    requires
        call_ensures(
            compose_response_entry,
            (timestamp, status, url, version, headers, body),
            r,
        ),
    ensures
        ({
            let head = "["@ + timestamp@ + "] "@ + status@ + " "@ + url@ + " (HTTP/"@ + version@
                + ")\nHeaders:\n"@;
            let rest = headers@ + "Body:\n"@ + body@ + "\n\n"@;
            &&& head.is_prefix_of(r@)
            &&& rest.is_suffix_of(r@)
            &&& r@.len() == head.len() + rest.len()
            &&& r@.subrange(r@.len() - 2 - body@.len(), r@.len() - 2) == body@
        }),
{
    reveal_strlit("\n\n");
    let head = "["@ + timestamp@ + "] "@ + status@ + " "@ + url@ + " (HTTP/"@ + version@
        + ")\nHeaders:\n"@;
    let rest = headers@ + "Body:\n"@ + body@ + "\n\n"@;
    assert(r@ =~= head + rest);
    assert(r@.subrange(r@.len() - 2 - body@.len(), r@.len() - 2) =~= body@);
}

/// The parts of a failure's entry can be read back from it: it begins with the
/// stamp, the method and the URL, it ends with the whole error, and nothing
/// stands between.
pub proof fn error_entry_keeps_its_parts(
    timestamp: &str,
    method: &str,
    url: &str,
    error: &str,
    r: String,
)
    requires
        call_ensures(compose_error_entry, (timestamp, method, url, error), r),
    ensures
        ({
            let head = "["@ + timestamp@ + "] "@ + method@ + " "@ + url@;
            let rest = "\nError: "@ + error@ + "\n\n"@;
            &&& head.is_prefix_of(r@)
            &&& rest.is_suffix_of(r@)
            &&& r@.len() == head.len() + rest.len()
            &&& r@.subrange(r@.len() - 2 - error@.len(), r@.len() - 2) == error@
        }),
{
    reveal_strlit("\n\n");
    let head = "["@ + timestamp@ + "] "@ + method@ + " "@ + url@;
    let rest = "\nError: "@ + error@ + "\n\n"@;
    assert(r@ =~= head + rest);
    assert(r@.subrange(r@.len() - 2 - error@.len(), r@.len() - 2) =~= error@);
}

/// The entry of a request tells of that request: its method, its URL, a line for
/// every header field, and its body, which is the text that the octets encode
/// whenever they are at hand, however many they are. The remark that there is
/// none stands there only where none are at hand.
pub proof fn logged_request_tells_of_the_request(
    request: &reqwest::Request,
    lines: Seq<Seq<char>>,
    r: String,
)
    requires
        call_ensures(log_request, (request,), r),
        lines.len() == fields(request_headers(*request)).len(),
        forall|i: int|
            0 <= i < lines.len() ==> #[trigger] lines[i] == {
                let field = fields(request_headers(*request))[i];
                let shown = if all_visible(field.value.octets) {
                    ascii_text(field.value.octets)
                } else {
                    debug_value(field.value)
                };
                "  "@ + field.name + ": "@ + shown + "\n"@
            },
    ensures
        exists|moment: time::OffsetDateTime|
            #[trigger] call_ensures(time::OffsetDateTime::now_utc, (), moment) && ({
                let timestamp = match rfc3339_text(moment) {
                    Some(text) => text,
                    None => "unknown"@,
                };
                let block = if lines.len() == 0 {
                    "  <none>\n"@
                } else {
                    lines.flatten()
                };
                let body = match request_content(*request).body {
                    Some(octets) => if valid_utf8(octets) {
                        decode_utf8(octets)
                    } else {
                        lossy_text(octets)
                    },
                    None => "<body not captured (streaming or multipart)>"@,
                };
                let head = "["@ + timestamp + "] "@ + request_content(*request).method + " "@
                    + request_content(*request).url + "\nHeaders:\n"@;
                let rest = block + "Body:\n"@ + body + "\n\n"@;
                &&& head.is_prefix_of(r@)
                &&& rest.is_suffix_of(r@)
                &&& r@.len() == head.len() + rest.len()
            }),
{
    let content = request_content(*request);
    let fields = fields(request_headers(*request));
    let moment = choose|moment: time::OffsetDateTime|
        is_present(moment) && r@ == request_entry(
            stamp(#[trigger] rfc3339_text(moment)),
            content.method,
            content.url,
            header_block(fields),
            request_body(content.body),
        );
    lemma_lines(fields, lines);
    assert(call_ensures(time::OffsetDateTime::now_utc, (), moment));
    let head = "["@ + stamp(rfc3339_text(moment)) + "] "@ + content.method + " "@ + content.url
        + "\nHeaders:\n"@;
    let rest = header_block(fields) + "Body:\n"@ + request_body(content.body) + "\n\n"@;
    assert(r@ =~= head + rest);
}

/// The entry of a response tells of that response: its status, its URL, its
/// version, a line for every header field, and the whole text that its octets
/// encode.
pub proof fn logged_response_tells_of_the_response(
    status: &http::StatusCode,
    url: &str,
    version: &http::Version,
    headers: &http::HeaderMap<http::HeaderValue>,
    body: &[u8],
    lines: Seq<Seq<char>>,
    r: String,
)
    requires
        call_ensures(log_response, (status, url, version, headers, body), r),
        lines.len() == fields(*headers).len(),
        forall|i: int|
            0 <= i < lines.len() ==> #[trigger] lines[i] == {
                let field = fields(*headers)[i];
                let shown = if all_visible(field.value.octets) {
                    ascii_text(field.value.octets)
                } else {
                    debug_value(field.value)
                };
                "  "@ + field.name + ": "@ + shown + "\n"@
            },
    ensures
        exists|moment: time::OffsetDateTime|
            #[trigger] call_ensures(time::OffsetDateTime::now_utc, (), moment) && ({
                let timestamp = match rfc3339_text(moment) {
                    Some(text) => text,
                    None => "unknown"@,
                };
                let block = if lines.len() == 0 {
                    "  <none>\n"@
                } else {
                    lines.flatten()
                };
                let text = if valid_utf8(body@) {
                    decode_utf8(body@)
                } else {
                    lossy_text(body@)
                };
                let head = "["@ + timestamp + "] "@ + status_text(*status) + " "@ + url@
                    + " (HTTP/"@ + version_text(*version) + ")\nHeaders:\n"@;
                let rest = block + "Body:\n"@ + text + "\n\n"@;
                &&& head.is_prefix_of(r@)
                &&& rest.is_suffix_of(r@)
                &&& r@.len() == head.len() + rest.len()
            }),
{
    let fields = fields(*headers);
    let moment = choose|moment: time::OffsetDateTime|
        is_present(moment) && r@ == response_entry(
            stamp(#[trigger] rfc3339_text(moment)),
            status_text(*status),
            url@,
            version_text(*version),
            header_block(fields),
            lossy_text(body@),
        );
    lemma_lines(fields, lines);
    assert(call_ensures(time::OffsetDateTime::now_utc, (), moment));
    let head = "["@ + stamp(rfc3339_text(moment)) + "] "@ + status_text(*status) + " "@ + url@
        + " (HTTP/"@ + version_text(*version) + ")\nHeaders:\n"@;
    let rest = header_block(fields) + "Body:\n"@ + lossy_text(body@) + "\n\n"@;
    assert(r@ =~= head + rest);
}

/// The entry of a failure tells of that failure: the method and the URL that were
/// asked for, and the whole error.
pub proof fn logged_failure_tells_of_the_failure(
    method: &http::Method,
    url: &str,
    error: &reqwest::Error,
    r: String,
)
    requires
        call_ensures(log_response_error, (method, url, error), r),
    ensures
        exists|moment: time::OffsetDateTime|
            #[trigger] call_ensures(time::OffsetDateTime::now_utc, (), moment) && ({
                let timestamp = match rfc3339_text(moment) {
                    Some(text) => text,
                    None => "unknown"@,
                };
                let head = "["@ + timestamp + "] "@ + method_text(*method) + " "@ + url@;
                let rest = "\nError: "@ + error_text(*error) + "\n\n"@;
                &&& head.is_prefix_of(r@)
                &&& rest.is_suffix_of(r@)
                &&& r@.len() == head.len() + rest.len()
            }),
{
    let moment = choose|moment: time::OffsetDateTime|
        is_present(moment) && r@ == error_entry(
            stamp(#[trigger] rfc3339_text(moment)),
            method_text(*method),
            url@,
            error_text(*error),
        );
    assert(call_ensures(time::OffsetDateTime::now_utc, (), moment));
    let head = "["@ + stamp(rfc3339_text(moment)) + "] "@ + method_text(*method) + " "@ + url@;
    let rest = "\nError: "@ + error_text(*error) + "\n\n"@;
    assert(r@ =~= head + rest);
}

} // verus!
