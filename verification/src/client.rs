//! Making the client: its default headers and its proxies.
use vstd::prelude::*;
use vstd::utf8::encode_utf8;

use crate::header::{
    field_value, fields, insert_field, is_value_text, value_of_text, Field, FieldValue, MAX_NAMES,
};
use crate::originator::Originator;
use crate::request::{
    is_fresh, request_content, CodexHttpClient, CodexRequestBuilder, PreparedRequest,
    RequestContent, RequestRefused,
};
use crate::user_agent::{
    get_codex_user_agent, is_codex_user_agent, is_machine_os, text_of_ref, user_agent, OsDescription,
};

verus! {

/// `reqwest::ClientBuilder`.
#[verifier::external_type_specification]
#[verifier::external_body]
pub struct ExClientBuilder(reqwest::ClientBuilder);

/// The settings of a client that this library decides: the headers that go
/// with every request unless it has its own, and whether the proxies of the
/// system are used.
pub ghost struct ClientSettings {
    pub headers: Map<Seq<char>, FieldValue>,
    pub system_proxies: bool,
}

/// The settings that a `reqwest::ClientBuilder` holds, whether or not it was
/// given a value that it refuses.
pub uninterp spec fn held_settings(builder: reqwest::ClientBuilder) -> ClientSettings;

/// Whether a `reqwest::ClientBuilder` was given a value that it refuses.
pub uninterp spec fn is_refused(builder: reqwest::ClientBuilder) -> bool;

/// The settings of the client that a `reqwest::ClientBuilder` sets up, and none
/// where it was given a value that it refuses.
pub open spec fn pending_settings(builder: reqwest::ClientBuilder) -> Option<ClientSettings> {
    if is_refused(builder) {
        None
    } else {
        Some(held_settings(builder))
    }
}

/// The settings that a `reqwest::Client` was built with.
pub uninterp spec fn client_settings(client: reqwest::Client) -> ClientSettings;

/// The settings of a client of which nothing is asked.
pub open spec fn initial_settings() -> ClientSettings {
    ClientSettings {
        headers: map!["accept"@ => value_of_text("*/*"@)],
        system_proxies: true,
    }
}

/// Headers to which fields are added one by one, each in place of what its
/// name had.
pub open spec fn with_fields(headers: Map<Seq<char>, FieldValue>, fields: Seq<Field>) -> Map<
    Seq<char>,
    FieldValue,
>
    decreases fields.len(),
{
    if fields.len() == 0 {
        headers
    } else {
        with_fields(headers, fields.drop_last()).insert(fields.last().name, fields.last().value)
    }
}

/// The default headers have room for so many names more.
pub open spec fn has_room_for(settings: ClientSettings, more: int) -> bool {
    settings.headers.dom().finite() && settings.headers.dom().len() + more <= MAX_NAMES
}

/// `reqwest::Client::builder`.
pub assume_specification[ reqwest::Client::builder ]() -> (r: reqwest::ClientBuilder)
    ensures
        !is_refused(r),
        held_settings(r) == initial_settings(),
;

/// `reqwest::ClientBuilder::user_agent` on a string: the default header
/// `user-agent`. A string that is no header value leaves the headers as they
/// are and makes the builder refused; a builder that is refused stays so, and
/// takes the header all the same. A header map that is full would panic and is
/// not admitted.
#[verifier::external_body]
fn set_user_agent(builder: reqwest::ClientBuilder, value: String) -> (r: reqwest::ClientBuilder)
    requires
        has_room_for(held_settings(builder), 1),
    ensures
        is_refused(r) == (is_refused(builder) || !is_value_text(value@)),
        held_settings(r) == if is_value_text(value@) {
            ClientSettings {
                headers: held_settings(builder).headers.insert(
                    "user-agent"@,
                    value_of_text(value@),
                ),
                ..held_settings(builder)
            }
        } else {
            held_settings(builder)
        },
{
    builder.user_agent(value)
}

/// `reqwest::ClientBuilder::default_headers`: the fields join the default
/// headers, whether or not the builder is refused. A header map that is full
/// would panic and is not admitted.
pub assume_specification[ reqwest::ClientBuilder::default_headers ](
    builder: reqwest::ClientBuilder,
    headers: http::HeaderMap<http::HeaderValue>,
) -> (r: reqwest::ClientBuilder)
    requires
        has_room_for(held_settings(builder), fields(headers).len() as int),
    ensures
        is_refused(r) == is_refused(builder),
        held_settings(r) == (ClientSettings {
            headers: with_fields(held_settings(builder).headers, fields(headers)),
            ..held_settings(builder)
        }),
;

/// `reqwest::ClientBuilder::no_proxy`: no proxy, not even one of the system.
pub assume_specification[ reqwest::ClientBuilder::no_proxy ](builder: reqwest::ClientBuilder) -> (r:
    reqwest::ClientBuilder)
    ensures
        is_refused(r) == is_refused(builder),
        held_settings(r) == (ClientSettings { system_proxies: false, ..held_settings(builder) }),
;

/// `reqwest::ClientBuilder::build`: a client with the settings of the builder,
/// or an error. Something that was refused is always an error; beyond that the
/// machine decides, by its TLS backend and its resolver.
pub assume_specification[ reqwest::ClientBuilder::build ](builder: reqwest::ClientBuilder) -> (r:
    Result<reqwest::Client, reqwest::Error>)
    ensures
        r matches Ok(client) ==> !is_refused(builder) && client_settings(client) == held_settings(
            builder,
        ),
;

/// No client could be had on this machine.
#[derive(Debug)]
pub struct ClientUnavailable {
    pub error: reqwest::Error,
}

/// The settings of the client with an originator header and a user agent; in
/// the sandbox no proxy is used.
pub open spec fn codex_settings(
    originator: FieldValue,
    user_agent: Seq<char>,
    sandboxed: bool,
) -> ClientSettings {
    ClientSettings {
        headers: map![
            "accept"@ => value_of_text("*/*"@),
            "user-agent"@ => value_of_text(user_agent),
            "originator"@ => originator,
        ],
        system_proxies: !sandboxed,
    }
}

/// The value of the sandbox variable that means that network access goes
/// through the sandbox.
pub open spec fn names_sandbox(sandbox: Option<Seq<char>>) -> bool {
    sandbox == Some("seatbelt"@)
}

/// Whether the value of the sandbox variable, if it is set, says that the
/// process is sandboxed.
pub fn is_sandboxed(sandbox: Option<&str>) -> (r: bool)
    ensures
        r == names_sandbox(text_of_ref(sandbox)),
{
    match sandbox {
        Some(value) => value.to_owned() == "seatbelt".to_owned(),
        None => false,
    }
}

/// Sets up a client whose default headers are the originator and `user_agent`,
/// which is refused where it is no header value.
pub fn configure_client(originator: &Originator, user_agent: String, sandboxed: bool) -> (r:
    reqwest::ClientBuilder)
    ensures
        is_refused(r) == !is_value_text(user_agent@),
        held_settings(r) == {
            let settings = codex_settings(
                field_value(originator.header_value),
                user_agent@,
                sandboxed,
            );
            if is_value_text(user_agent@) {
                settings
            } else {
                ClientSettings { headers: settings.headers.remove("user-agent"@), ..settings }
            }
        },
{
    let ghost agent = user_agent@;
    let mut headers: http::HeaderMap<http::HeaderValue> = http::HeaderMap::new();
    proof {
        reveal_strlit("accept");
        reveal_strlit("user-agent");
        reveal_strlit("originator");
        assert("user-agent"@[0] == 'u' && "originator"@[0] == 'o' && "accept"@[0] == 'a');
    }
    insert_field(&mut headers, "originator", originator.header_value.clone());
    proof {
        assert(initial_settings().headers.dom() =~= set!["accept"@]);
    }
    let mut builder: reqwest::ClientBuilder = set_user_agent(
        reqwest::Client::builder(),
        user_agent,
    );
    builder = builder.default_headers(headers);
    if sandboxed {
        builder = builder.no_proxy();
    }
    proof {
        reveal_with_fuel(with_fields, 2);
        let settings = codex_settings(field_value(originator.header_value), agent, sandboxed);
        if is_value_text(agent) {
            assert(held_settings(builder).headers =~= settings.headers);
        } else {
            assert(held_settings(builder).headers =~= settings.headers.remove("user-agent"@));
        }
    }
    builder
}

/// Passes on the client that was built, or why there is none.
pub fn built_client(built: Result<reqwest::Client, reqwest::Error>) -> (r: Result<
    reqwest::Client,
    ClientUnavailable,
>)
    ensures
        match built {
            Ok(client) => r == Ok::<reqwest::Client, ClientUnavailable>(client),
            Err(error) => r == Err::<reqwest::Client, ClientUnavailable>(
                (ClientUnavailable { error }),
            ),
        },
{
    match built {
        Ok(client) => Ok(client),
        Err(error) => Err(ClientUnavailable { error }),
    }
}

/// `error` is what `reqwest::ClientBuilder::build` answered for a builder with
/// these settings.
pub open spec fn build_failed(settings: ClientSettings, error: reqwest::Error) -> bool {
    exists|builder: reqwest::ClientBuilder|
        pending_settings(builder) == Some(settings) && #[trigger] call_ensures(
            reqwest::ClientBuilder::build,
            (builder,),
            Err::<reqwest::Client, reqwest::Error>(error),
        )
}

/// Builds the client that `builder` sets up.
fn build_client(builder: reqwest::ClientBuilder) -> (r: Result<reqwest::Client, reqwest::Error>)
    ensures
        r matches Ok(client) ==> pending_settings(builder) == Some(client_settings(client)),
        r matches Err(error) ==> (pending_settings(builder) matches Some(settings) ==> build_failed(
            settings,
            error,
        )),
{
    let build = reqwest::ClientBuilder::build;
    build(builder)
}

/// Settings of a client that is made for these arguments: its default headers
/// are the originator and what [`get_codex_user_agent`] returned.
pub open spec fn is_codex_client(
    originator: &Originator,
    build_version: &str,
    terminal: &str,
    suffix: Option<&str>,
    sandbox: Option<&str>,
    settings: ClientSettings,
) -> bool {
    exists|agent: String| #[trigger]
        is_codex_user_agent(originator, build_version, terminal, suffix, agent) && settings
            == codex_settings(
            field_value(originator.header_value),
            agent@,
            names_sandbox(text_of_ref(sandbox)),
        )
}

/// Builds a client whose default headers are the originator and the user agent.
fn build_configured_client(
    originator: &Originator,
    build_version: &str,
    terminal: &str,
    suffix: Option<&str>,
    sandbox: Option<&str>,
) -> (r: Result<reqwest::Client, reqwest::Error>)
    ensures
        match r {
            Ok(client) => is_codex_client(
                originator,
                build_version,
                terminal,
                suffix,
                sandbox,
                client_settings(client),
            ),
            Err(error) => exists|settings: ClientSettings| #[trigger]
                is_codex_client(
                    originator,
                    build_version,
                    terminal,
                    suffix,
                    sandbox,
                    settings,
                ) && build_failed(settings, error),
        },
{
    let tell = get_codex_user_agent;
    let agent: String = tell(originator, build_version, terminal, suffix);
    let ghost settings = codex_settings(
        field_value(originator.header_value),
        agent@,
        names_sandbox(text_of_ref(sandbox)),
    );
    proof {
        assert(is_codex_user_agent(originator, build_version, terminal, suffix, agent));
        assert(is_codex_client(originator, build_version, terminal, suffix, sandbox, settings));
    }
    build_client(configure_client(originator, agent, is_sandboxed(sandbox)))
}

/// Makes the client of this process: its default headers are the originator and
/// the user agent. Where `reqwest` answers that a client set up so cannot be
/// built, it is a plain client, and only where that cannot be built either is it
/// refused.
pub fn build_reqwest_client(
    originator: &Originator,
    build_version: &str,
    terminal: &str,
    suffix: Option<&str>,
    sandbox: Option<&str>,
) -> (r: Result<reqwest::Client, ClientUnavailable>)
    ensures
        (r matches Ok(client) && is_codex_client(
            originator,
            build_version,
            terminal,
            suffix,
            sandbox,
            client_settings(client),
        )) || (exists|settings: ClientSettings, error: reqwest::Error|
            is_codex_client(originator, build_version, terminal, suffix, sandbox, settings)
                && #[trigger] build_failed(settings, error) && match r {
                Ok(client) => client_settings(client) == initial_settings(),
                Err(unavailable) => build_failed(initial_settings(), unavailable.error),
            }),
{
    match build_configured_client(originator, build_version, terminal, suffix, sandbox) {
        Ok(client) => Ok(client),
        Err(_error) => built_client(build_client(reqwest::Client::builder())),
    }
}

/// Makes an HTTP client with the default `originator` and `User-Agent` headers
/// set. It is refused only where `reqwest` answers that a client set up so
/// cannot be built, and with that answer.
pub fn create_client(
    originator: &Originator,
    build_version: &str,
    terminal: &str,
    suffix: Option<&str>,
    sandbox: Option<&str>,
) -> (r: Result<CodexHttpClient, ClientUnavailable>)
    ensures
        match r {
            Ok(client) => is_codex_client(
                originator,
                build_version,
                terminal,
                suffix,
                sandbox,
                client_settings(client.inner),
            ),
            Err(unavailable) => exists|settings: ClientSettings| #[trigger]
                is_codex_client(
                    originator,
                    build_version,
                    terminal,
                    suffix,
                    sandbox,
                    settings,
                ) && build_failed(settings, unavailable.error),
        },
{
    let built = build_configured_client(originator, build_version, terminal, suffix, sandbox);
    match built_client(built) {
        Ok(inner) => Ok(CodexHttpClient::new(inner)),
        Err(unavailable) => Err(unavailable),
    }
}

/// The values that a request goes out with under a header name: its own, and
/// the client's where it has none.
pub open spec fn sent_values(
    settings: ClientSettings,
    request: RequestContent,
    name: Seq<char>,
) -> Seq<FieldValue> {
    if request.headers.contains_key(name) {
        request.headers[name]
    } else if settings.headers.contains_key(name) {
        seq![settings.headers[name]]
    } else {
        seq![]
    }
}

/// Whatever client was created, a request that names no originator and no user
/// agent of its own goes out with the originator's header and with the user
/// agent that was told when the client was created, for the suffix of that time,
/// each once. Those that a request names itself are left alone.
pub proof fn requests_carry_originator_and_user_agent(
    originator: &Originator,
    build_version: &str,
    terminal: &str,
    suffix: Option<&str>,
    sandbox: Option<&str>,
    settings: ClientSettings,
    request: RequestContent,
)
    requires
        is_codex_client(originator, build_version, terminal, suffix, sandbox, settings),
    ensures
        !request.headers.contains_key("originator"@) ==> sent_values(
            settings,
            request,
            "originator"@,
        ) == seq![field_value(originator.header_value)],
        !request.headers.contains_key("user-agent"@) ==> exists|agent: String, os: OsDescription|
            {
                &&& is_codex_user_agent(originator, build_version, terminal, suffix, agent)
                &&& is_machine_os(os)
                &&& agent@ == #[trigger] user_agent(
                    originator.value@,
                    build_version@,
                    os,
                    terminal@,
                    text_of_ref(suffix),
                )
                &&& sent_values(settings, request, "user-agent"@) == seq![
                    #[trigger] value_of_text(agent@),
                ]
            },
        forall|name: Seq<char>|
            request.headers.contains_key(name) ==> #[trigger] sent_values(settings, request, name)
                == request.headers[name],
{
    let agent = choose|agent: String| #[trigger]
        is_codex_user_agent(originator, build_version, terminal, suffix, agent) && settings
            == codex_settings(
            field_value(originator.header_value),
            agent@,
            names_sandbox(text_of_ref(sandbox)),
        );
    client_sends_originator_and_user_agent(
        field_value(originator.header_value),
        agent@,
        names_sandbox(text_of_ref(sandbox)),
    );
}

/// A request that was just started names no originator and no user agent of its
/// own.
pub proof fn fresh_request_names_neither(request: RequestContent, method: Seq<char>)
    requires
        is_fresh(Some(request), method),
    ensures
        !request.headers.contains_key("originator"@),
        !request.headers.contains_key("user-agent"@),
{
    reveal_strlit("authorization");
    reveal_strlit("user-agent");
    reveal_strlit("originator");
    assert("user-agent"@[0] == 'u' && "originator"@[0] == 'o' && "authorization"@[0] == 'a');
}

/// A request that a created client starts goes out, if nothing is added to it,
/// with the originator's header and with the user agent that
/// [`get_codex_user_agent`] returned when the client was created, each once. For
/// an originator that was chosen, the header is its text.
pub proof fn created_client_sends_originator_and_user_agent(
    originator: &Originator,
    build_version: &str,
    terminal: &str,
    suffix: Option<&str>,
    sandbox: Option<&str>,
    client: CodexHttpClient,
    method: http::Method,
    url: &str,
    started: CodexRequestBuilder,
    prepared: PreparedRequest,
)
    requires
        call_ensures(
            create_client,
            (originator, build_version, terminal, suffix, sandbox),
            Ok::<CodexHttpClient, ClientUnavailable>(client),
        ),
        call_ensures(CodexHttpClient::get, (&client, url), started) || call_ensures(
            CodexHttpClient::post,
            (&client, url),
            started,
        ) || call_ensures(CodexHttpClient::request, (&client, method, url), started),
        call_ensures(
            CodexRequestBuilder::send,
            (started,),
            Ok::<PreparedRequest, RequestRefused>(prepared),
        ),
    ensures
        prepared.client == client.inner,
        sent_values(
            client_settings(prepared.client),
            request_content(prepared.request),
            "originator"@,
        ) == seq![field_value(originator.header_value)],
        originator.wf() ==> field_value(originator.header_value) == value_of_text(
            originator.value@,
        ),
        exists|agent: String, os: OsDescription|
            {
                &&& is_codex_user_agent(originator, build_version, terminal, suffix, agent)
                &&& is_machine_os(os)
                &&& agent@ == #[trigger] user_agent(
                    originator.value@,
                    build_version@,
                    os,
                    terminal@,
                    text_of_ref(suffix),
                )
                &&& sent_values(
                    client_settings(prepared.client),
                    request_content(prepared.request),
                    "user-agent"@,
                ) == seq![#[trigger] value_of_text(agent@)]
            },
{
    fresh_request_names_neither(
        request_content(prepared.request),
        request_content(prepared.request).method,
    );
    requests_carry_originator_and_user_agent(
        originator,
        build_version,
        terminal,
        suffix,
        sandbox,
        client_settings(client.inner),
        request_content(prepared.request),
    );
}

/// Every client sends its originator and its user agent with a request that has
/// no such headers of its own, and nothing else but that it accepts any type.
pub proof fn client_sends_originator_and_user_agent(
    originator: FieldValue,
    user_agent: Seq<char>,
    sandboxed: bool,
)
    ensures
        codex_settings(originator, user_agent, sandboxed).headers["originator"@] == originator,
        codex_settings(originator, user_agent, sandboxed).headers["user-agent"@] == value_of_text(
            user_agent,
        ),
        codex_settings(originator, user_agent, sandboxed).headers["accept"@] == value_of_text(
            "*/*"@,
        ),
        codex_settings(originator, user_agent, sandboxed).headers.dom()
            == set!["accept"@, "user-agent"@, "originator"@],
{
    reveal_strlit("accept");
    reveal_strlit("user-agent");
    reveal_strlit("originator");
    assert("user-agent"@[0] == 'u' && "originator"@[0] == 'o' && "accept"@[0] == 'a');
    assert(codex_settings(originator, user_agent, sandboxed).headers.dom()
        =~= set!["accept"@, "user-agent"@, "originator"@]);
}

/// Only the value `seatbelt` of the sandbox variable, in just this spelling, says
/// that the process is sandboxed; no other value does, nor that none is set.
pub proof fn only_the_seatbelt_is_a_sandbox(sandbox: Option<&str>, sandboxed: bool)
    requires
        call_ensures(is_sandboxed, (sandbox,), sandboxed),
    ensures
        sandboxed <==> (sandbox matches Some(value) && value@ == "seatbelt"@),
{
}

/// Whether a created client uses the proxies of the system depends on the
/// sandbox variable alone: it uses none exactly where that says `seatbelt`,
/// whatever the originator, the version, the terminal and the suffix.
pub proof fn sandbox_alone_decides_the_proxies(
    originator: &Originator,
    build_version: &str,
    terminal: &str,
    suffix: Option<&str>,
    sandbox: Option<&str>,
    client: CodexHttpClient,
)
    requires
        call_ensures(
            create_client,
            (originator, build_version, terminal, suffix, sandbox),
            Ok::<CodexHttpClient, ClientUnavailable>(client),
        ),
    ensures
        client_settings(client.inner).system_proxies <==> !(sandbox matches Some(value) && value@
            == "seatbelt"@),
{
}

/// Two created clients whose sandbox variable says the same use the proxies of
/// the system alike, however they differ otherwise.
pub proof fn proxies_are_alike_in_one_sandbox(
    one: &Originator,
    other: &Originator,
    build_versions: (&str, &str),
    terminals: (&str, &str),
    suffixes: (Option<&str>, Option<&str>),
    sandboxes: (Option<&str>, Option<&str>),
    of_one: CodexHttpClient,
    of_other: CodexHttpClient,
)
    requires
        text_of_ref(sandboxes.0) == text_of_ref(sandboxes.1),
        call_ensures(
            create_client,
            (one, build_versions.0, terminals.0, suffixes.0, sandboxes.0),
            Ok::<CodexHttpClient, ClientUnavailable>(of_one),
        ),
        call_ensures(
            create_client,
            (other, build_versions.1, terminals.1, suffixes.1, sandboxes.1),
            Ok::<CodexHttpClient, ClientUnavailable>(of_other),
        ),
    ensures
        client_settings(of_one.inner).system_proxies == client_settings(
            of_other.inner,
        ).system_proxies,
{
}

/// A client is set up with the proxies of the system exactly where it is not
/// sandboxed, with the originator's header value, with the octets of the user
/// agent where that is a header value, and with no header beside these but that
/// it accepts any type. It is refused exactly where the user agent is no header
/// value.
pub proof fn configured_client_is_what_was_asked(
    originator: &Originator,
    user_agent: String,
    sandboxed: bool,
    builder: reqwest::ClientBuilder,
)
    requires
        call_ensures(configure_client, (originator, user_agent, sandboxed), builder),
    ensures
        held_settings(builder).system_proxies <==> !sandboxed,
        is_refused(builder) <==> !is_value_text(user_agent@),
        held_settings(builder).headers.dom() == if is_value_text(user_agent@) {
            set!["accept"@, "user-agent"@, "originator"@]
        } else {
            set!["accept"@, "originator"@]
        },
        held_settings(builder).headers["originator"@] == field_value(originator.header_value),
        held_settings(builder).headers["accept"@].octets == encode_utf8("*/*"@),
        !held_settings(builder).headers["accept"@].sensitive,
        is_value_text(user_agent@) ==> held_settings(builder).headers["user-agent"@].octets
            == encode_utf8(user_agent@) && !held_settings(
            builder,
        ).headers["user-agent"@].sensitive,
{
    let asked = codex_settings(field_value(originator.header_value), user_agent@, sandboxed);
    client_sends_originator_and_user_agent(
        field_value(originator.header_value),
        user_agent@,
        sandboxed,
    );
    reveal_strlit("accept");
    reveal_strlit("user-agent");
    reveal_strlit("originator");
    assert("user-agent"@[0] == 'u' && "originator"@[0] == 'o' && "accept"@[0] == 'a');
    assert(asked.headers.remove("user-agent"@).dom() =~= set!["accept"@, "originator"@]);
}

/// The headers of a created client are the originator's header value, the octets
/// of what [`get_codex_user_agent`] returned for the same arguments, and that it
/// accepts any type; no others.
pub proof fn created_client_has_its_headers_alone(
    originator: &Originator,
    build_version: &str,
    terminal: &str,
    suffix: Option<&str>,
    sandbox: Option<&str>,
    client: CodexHttpClient,
)
    requires
        call_ensures(
            create_client,
            (originator, build_version, terminal, suffix, sandbox),
            Ok::<CodexHttpClient, ClientUnavailable>(client),
        ),
    ensures
        ({
            let headers = client_settings(client.inner).headers;
            &&& headers.dom() == set!["accept"@, "user-agent"@, "originator"@]
            &&& headers["originator"@] == field_value(originator.header_value)
            &&& headers["accept"@].octets == encode_utf8("*/*"@)
            &&& !headers["user-agent"@].sensitive
            &&& exists|agent: String|
                #[trigger] call_ensures(
                    get_codex_user_agent,
                    (originator, build_version, terminal, suffix),
                    agent,
                ) && headers["user-agent"@].octets == encode_utf8(agent@)
        }),
{
    let agent = choose|agent: String| #[trigger]
        is_codex_user_agent(originator, build_version, terminal, suffix, agent) && client_settings(
            client.inner,
        ) == codex_settings(
            field_value(originator.header_value),
            agent@,
            names_sandbox(text_of_ref(sandbox)),
        );
    client_sends_originator_and_user_agent(
        field_value(originator.header_value),
        agent@,
        names_sandbox(text_of_ref(sandbox)),
    );
    assert(call_ensures(
        get_codex_user_agent,
        (originator, build_version, terminal, suffix),
        agent,
    ));
}

/// The client of this process has the originator's header value, the octets of
/// what [`get_codex_user_agent`] returned, and no proxy of the system exactly
/// where the sandbox variable says `seatbelt`. It is anything else only where
/// `reqwest` answered that a client set up so cannot be built, and then it is
/// plain: it accepts any type and uses the proxies of the system.
pub proof fn built_client_is_configured_or_plain(
    originator: &Originator,
    build_version: &str,
    terminal: &str,
    suffix: Option<&str>,
    sandbox: Option<&str>,
    client: reqwest::Client,
)
    requires
        call_ensures(
            build_reqwest_client,
            (originator, build_version, terminal, suffix, sandbox),
            Ok::<reqwest::Client, ClientUnavailable>(client),
        ),
    ensures
        ({
            let settings = client_settings(client);
            &&& settings.system_proxies <==> !(sandbox matches Some(value) && value@
                == "seatbelt"@)
            &&& settings.headers.dom() == set!["accept"@, "user-agent"@, "originator"@]
            &&& settings.headers["originator"@] == field_value(originator.header_value)
            &&& exists|agent: String|
                #[trigger] call_ensures(
                    get_codex_user_agent,
                    (originator, build_version, terminal, suffix),
                    agent,
                ) && settings.headers["user-agent"@].octets == encode_utf8(agent@)
        }) || ({
            &&& client_settings(client).system_proxies
            &&& client_settings(client).headers.dom() == set!["accept"@]
            &&& exists|builder: reqwest::ClientBuilder, error: reqwest::Error|
                {
                    &&& #[trigger] call_ensures(
                        reqwest::ClientBuilder::build,
                        (builder,),
                        Err::<reqwest::Client, reqwest::Error>(error),
                    )
                    &&& !is_refused(builder)
                    &&& held_settings(builder).headers["originator"@] == field_value(
                        originator.header_value,
                    )
                    &&& held_settings(builder).system_proxies <==> !(sandbox matches Some(value)
                        && value@ == "seatbelt"@)
                }
        }),
{
    let settings = if is_codex_client(
        originator,
        build_version,
        terminal,
        suffix,
        sandbox,
        client_settings(client),
    ) {
        client_settings(client)
    } else {
        let (failed, error) = choose|failed: ClientSettings, error: reqwest::Error|
            is_codex_client(originator, build_version, terminal, suffix, sandbox, failed)
                && #[trigger] build_failed(failed, error) && client_settings(client)
                == initial_settings();
        failed
    };
    let agent = choose|agent: String| #[trigger]
        is_codex_user_agent(originator, build_version, terminal, suffix, agent) && settings
            == codex_settings(
            field_value(originator.header_value),
            agent@,
            names_sandbox(text_of_ref(sandbox)),
        );
    client_sends_originator_and_user_agent(
        field_value(originator.header_value),
        agent@,
        names_sandbox(text_of_ref(sandbox)),
    );
    assert(call_ensures(
        get_codex_user_agent,
        (originator, build_version, terminal, suffix),
        agent,
    ));
    assert(initial_settings().headers.dom() =~= set!["accept"@]);
}

/// A created client is refused only where `reqwest` answered for a client that
/// was set up as asked that it cannot be built, and with that answer.
pub proof fn created_client_is_refused_only_by_the_machine(
    originator: &Originator,
    build_version: &str,
    terminal: &str,
    suffix: Option<&str>,
    sandbox: Option<&str>,
    unavailable: ClientUnavailable,
)
    requires
        call_ensures(
            create_client,
            (originator, build_version, terminal, suffix, sandbox),
            Err::<CodexHttpClient, ClientUnavailable>(unavailable),
        ),
    ensures
        exists|builder: reqwest::ClientBuilder|
            {
                &&& #[trigger] call_ensures(
                    reqwest::ClientBuilder::build,
                    (builder,),
                    Err::<reqwest::Client, reqwest::Error>(unavailable.error),
                )
                &&& !is_refused(builder)
                &&& held_settings(builder).headers["originator"@] == field_value(
                    originator.header_value,
                )
                &&& held_settings(builder).system_proxies <==> !(sandbox matches Some(value)
                    && value@ == "seatbelt"@)
            },
{
    let settings = choose|settings: ClientSettings| #[trigger]
        is_codex_client(originator, build_version, terminal, suffix, sandbox, settings)
            && build_failed(settings, unavailable.error);
    let agent = choose|agent: String| #[trigger]
        is_codex_user_agent(originator, build_version, terminal, suffix, agent) && settings
            == codex_settings(
            field_value(originator.header_value),
            agent@,
            names_sandbox(text_of_ref(sandbox)),
        );
    client_sends_originator_and_user_agent(
        field_value(originator.header_value),
        agent@,
        names_sandbox(text_of_ref(sandbox)),
    );
}

/// A client that was built is passed on as it is, and a failure to build one
/// with its error.
pub proof fn built_client_is_passed_on(
    built: Result<reqwest::Client, reqwest::Error>,
    r: Result<reqwest::Client, ClientUnavailable>,
    client: reqwest::Client,
    wrapped: CodexHttpClient,
)
    requires
        call_ensures(built_client, (built,), r),
        call_ensures(CodexHttpClient::new, (client,), wrapped),
    ensures
        built matches Ok(client) ==> (r matches Ok(passed) && passed == client),
        built matches Err(error) ==> (r matches Err(unavailable) && unavailable.error == error),
        wrapped.inner == client,
{
}

/// The client of this process is refused only where `reqwest` answered for a
/// plain client that it cannot be built either, and with that answer.
pub proof fn built_client_is_refused_only_by_the_machine(
    originator: &Originator,
    build_version: &str,
    terminal: &str,
    suffix: Option<&str>,
    sandbox: Option<&str>,
    unavailable: ClientUnavailable,
)
    requires
        call_ensures(
            build_reqwest_client,
            (originator, build_version, terminal, suffix, sandbox),
            Err::<reqwest::Client, ClientUnavailable>(unavailable),
        ),
    ensures
        exists|builder: reqwest::ClientBuilder|
            {
                &&& #[trigger] call_ensures(
                    reqwest::ClientBuilder::build,
                    (builder,),
                    Err::<reqwest::Client, reqwest::Error>(unavailable.error),
                )
                &&& !is_refused(builder)
                &&& held_settings(builder).system_proxies
                &&& held_settings(builder).headers.dom() == set!["accept"@]
            },
{
    assert(initial_settings().headers.dom() =~= set!["accept"@]);
}

} // verus!
