//! The `User-Agent` of the client.
use vstd::prelude::*;

use crate::header::is_value_text;
use crate::originator::Originator;

verus! {

/// What the machine says of its operating system.
#[derive(Debug, Clone)]
pub struct OsDescription {
    pub os_type: String,
    pub version: String,
    pub architecture: Option<String>,
}

/// `os_info::get`, its three answers as text. They are the machine's own, so
/// nothing is promised of them.
#[verifier::external_body]
fn current_os() -> OsDescription {
    let info = os_info::get();
    OsDescription {
        os_type: info.os_type().to_string(),
        version: info.version().to_string(),
        architecture: info.architecture().map(|name| name.to_string()),
    }
}

/// `os` is an answer that this machine gave when it was asked.
pub closed spec fn is_machine_os(os: OsDescription) -> bool {
    call_ensures(current_os, (), os)
}

/// `String::push`: the character comes after the others.
pub assume_specification[ String::push ](text: &mut String, c: char)
    ensures
        final(text)@ == old(text)@.push(c),
;

/// A character with the Unicode property `White_Space`.
pub open spec fn is_white_space(c: char) -> bool {
    ||| '\u{9}' <= c && c <= '\u{d}'
    ||| c == ' '
    ||| c == '\u{85}'
    ||| c == '\u{a0}'
    ||| c == '\u{1680}'
    ||| '\u{2000}' <= c && c <= '\u{200a}'
    ||| c == '\u{2028}'
    ||| c == '\u{2029}'
    ||| c == '\u{202f}'
    ||| c == '\u{205f}'
    ||| c == '\u{3000}'
}

pub open spec fn trimmed_start(text: Seq<char>) -> Seq<char>
    decreases text.len(),
{
    if text.len() > 0 && is_white_space(text.first()) {
        trimmed_start(text.drop_first())
    } else {
        text
    }
}

pub open spec fn trimmed_end(text: Seq<char>) -> Seq<char>
    decreases text.len(),
{
    if text.len() > 0 && is_white_space(text.last()) {
        trimmed_end(text.drop_last())
    } else {
        text
    }
}

/// `str::trim`: the text without the white space at its two ends.
pub assume_specification[ str::trim ](text: &str) -> (r: &str)
    ensures
        r@ == trimmed_end(trimmed_start(text@)),
;

/// A character of printable ASCII.
pub open spec fn is_printable(c: char) -> bool {
    ' ' <= c && c <= '~'
}

/// The text with an underscore for every character that is not printable.
pub open spec fn masked(text: Seq<char>) -> Seq<char> {
    text.map_values(|c: char| if is_printable(c) { c } else { '_' })
}

/// The user agent that is sent for `candidate`: the candidate if it can be
/// sent, else the candidate masked, else `fallback`, else the originator.
pub open spec fn sanitized(candidate: Seq<char>, fallback: Seq<char>, originator: Seq<char>) -> Seq<
    char,
> {
    if is_value_text(candidate) {
        candidate
    } else if masked(candidate).len() > 0 && is_value_text(masked(candidate)) {
        masked(candidate)
    } else if is_value_text(fallback) {
        fallback
    } else {
        originator
    }
}

fn mask(text: &str) -> (r: String)
    ensures
        r@ == masked(text@),
{
    let mut out = String::new();
    for c in it: text.chars()
        invariant
            it.seq() == text@,
            out@ == masked(text@.take(it.index() as int)),
    {
        proof {
            assert(text@.take(it.index() + 1) == text@.take(it.index() as int).push(c));
            assert(masked(text@.take(it.index() + 1)) == masked(text@.take(it.index() as int)).push(
                if is_printable(c) { c } else { '_' },
            ));
        }
        if ' ' <= c && c <= '~' {
            out.push(c);
        } else {
            out.push('_');
        }
    }
    assert(text@.take(text@.len() as int) == text@);
    out
}

/// Makes `candidate` fit for a header: characters that are not printable ASCII
/// become underscores where the candidate cannot be sent as it is.
pub fn sanitize_user_agent(candidate: String, fallback: &str, originator: &Originator) -> (r: String)
    ensures
        r@ == sanitized(candidate@, fallback@, originator.value@),
{
    if http::HeaderValue::from_str(candidate.as_str()).is_ok() {
        return candidate;
    }
    let masked_candidate: String = mask(candidate.as_str());
    if !masked_candidate.as_str().is_empty() && http::HeaderValue::from_str(
        masked_candidate.as_str(),
    ).is_ok() {
        masked_candidate
    } else if http::HeaderValue::from_str(fallback).is_ok() {
        fallback.to_owned()
    } else {
        originator.value.clone()
    }
}

/// The part of the user agent that does not depend on the suffix.
pub open spec fn base_user_agent(
    originator: Seq<char>,
    build_version: Seq<char>,
    os: OsDescription,
    terminal: Seq<char>,
) -> Seq<char> {
    let architecture = match os.architecture {
        Some(name) => name@,
        None => "unknown"@,
    };
    originator + "/"@ + build_version + " ("@ + os.os_type@ + " "@ + os.version@ + "; "@
        + architecture + ") "@ + terminal
}

/// The suffix as it is appended: in parentheses after a space, or nothing
/// where it is absent or blank.
pub open spec fn bracketed(suffix: Option<Seq<char>>) -> Seq<char> {
    match suffix {
        Some(text) => {
            let inside = trimmed_end(trimmed_start(text));
            if inside.len() == 0 {
                seq![]
            } else {
                " ("@ + inside + ")"@
            }
        },
        None => seq![],
    }
}

/// The user agent that is asked for on a machine that runs `os`, whether or not
/// it can be sent.
pub open spec fn candidate_user_agent(
    originator: Seq<char>,
    build_version: Seq<char>,
    os: OsDescription,
    terminal: Seq<char>,
    suffix: Option<Seq<char>>,
) -> Seq<char> {
    base_user_agent(originator, build_version, os, terminal) + bracketed(suffix)
}

/// The whole user agent, on a machine that runs `os`.
pub open spec fn user_agent(
    originator: Seq<char>,
    build_version: Seq<char>,
    os: OsDescription,
    terminal: Seq<char>,
    suffix: Option<Seq<char>>,
) -> Seq<char> {
    sanitized(
        candidate_user_agent(originator, build_version, os, terminal, suffix),
        base_user_agent(originator, build_version, os, terminal),
        originator,
    )
}

/// An optional borrowed string as optional text.
pub open spec fn text_of_ref(value: Option<&str>) -> Option<Seq<char>> {
    match value {
        Some(text) => Some(text@),
        None => None,
    }
}

/// A user agent, and whether characters of what was asked for had to be masked
/// in it.
#[derive(Debug, Clone)]
pub struct SanitizedAgent {
    pub text: String,
    pub masked: bool,
}

/// Composes the user agent for a machine that runs `os`, and says whether it had
/// to be masked.
pub fn compose_sanitized_agent(
    originator: &Originator,
    build_version: &str,
    os: &OsDescription,
    terminal: &str,
    suffix: Option<&str>,
) -> (r: SanitizedAgent)
    ensures
        r.text@ == user_agent(
            originator.value@,
            build_version@,
            *os,
            terminal@,
            text_of_ref(suffix),
        ),
        is_value_text(r.text@),
        r.masked == !is_value_text(
            candidate_user_agent(
                originator.value@,
                build_version@,
                *os,
                terminal@,
                text_of_ref(suffix),
            ),
        ),
{
    let architecture: &str = match &os.architecture {
        Some(name) => name.as_str(),
        None => "unknown",
    };
    let prefix: String = originator.value.clone().concat("/").concat(build_version).concat(
        " (",
    ).concat(os.os_type.as_str()).concat(" ").concat(os.version.as_str()).concat("; ").concat(
        architecture,
    ).concat(") ").concat(terminal);
    let mut candidate: String = prefix.clone();
    if let Some(text) = suffix {
        let inside: &str = text.trim();
        if !inside.is_empty() {
            candidate = candidate.concat(" (").concat(inside).concat(")");
        }
    }
    proof {
        let base = base_user_agent(originator.value@, build_version@, *os, terminal@);
        assert(prefix@ == base);
        assert(candidate@ == base + bracketed(text_of_ref(suffix)));
        sanitized_is_sendable(candidate@, base, originator.value@);
    }
    let masked: bool = http::HeaderValue::from_str(candidate.as_str()).is_err();
    SanitizedAgent { text: sanitize_user_agent(candidate, prefix.as_str(), originator), masked }
}

/// Composes the user agent for a machine that runs `os`.
pub fn compose_user_agent(
    originator: &Originator,
    build_version: &str,
    os: &OsDescription,
    terminal: &str,
    suffix: Option<&str>,
) -> (r: String)
    ensures
        r@ == user_agent(
            originator.value@,
            build_version@,
            *os,
            terminal@,
            text_of_ref(suffix),
        ),
        is_value_text(r@),
{
    compose_sanitized_agent(originator, build_version, os, terminal, suffix).text
}

/// The user agent of this process, on the machine that it runs on, and whether
/// it had to be masked.
pub fn sanitized_codex_agent(
    originator: &Originator,
    build_version: &str,
    terminal: &str,
    suffix: Option<&str>,
) -> (r: SanitizedAgent)
    ensures
        exists|os: OsDescription|
            {
                &&& is_machine_os(os)
                &&& r.text@ == #[trigger] user_agent(
                    originator.value@,
                    build_version@,
                    os,
                    terminal@,
                    text_of_ref(suffix),
                )
                &&& r.masked == !is_value_text(
                    candidate_user_agent(
                        originator.value@,
                        build_version@,
                        os,
                        terminal@,
                        text_of_ref(suffix),
                    ),
                )
            },
        is_value_text(r.text@),
{
    let ask = current_os;
    let os: OsDescription = ask();
    compose_sanitized_agent(originator, build_version, &os, terminal, suffix)
}

/// The user agent of this process, on the machine that it runs on.
pub fn get_codex_user_agent(
    originator: &Originator,
    build_version: &str,
    terminal: &str,
    suffix: Option<&str>,
) -> (r: String)
    ensures
        exists|os: OsDescription|
            is_machine_os(os) && r@ == #[trigger] user_agent(
                originator.value@,
                build_version@,
                os,
                terminal@,
                text_of_ref(suffix),
            ),
        is_value_text(r@),
{
    sanitized_codex_agent(originator, build_version, terminal, suffix).text
}

/// `agent` is what [`get_codex_user_agent`] returned for these arguments.
pub open spec fn is_codex_user_agent(
    originator: &Originator,
    build_version: &str,
    terminal: &str,
    suffix: Option<&str>,
    agent: String,
) -> bool {
    call_ensures(get_codex_user_agent, (originator, build_version, terminal, suffix), agent)
}

/// A text that is masked can always be sent.
pub proof fn masked_is_sendable(text: Seq<char>)
    ensures
        is_value_text(masked(text)),
        masked(text).len() == text.len(),
{
}

/// Sanitizing never has to fall back: a candidate that cannot be sent holds a
/// character that masking replaces, and what masking leaves can be sent.
pub proof fn sanitizing_masks_or_keeps(
    candidate: Seq<char>,
    fallback: Seq<char>,
    originator: Seq<char>,
)
    ensures
        sanitized(candidate, fallback, originator) == if is_value_text(candidate) {
            candidate
        } else {
            masked(candidate)
        },
{
    masked_is_sendable(candidate);
}

/// Whatever the candidate, the result can be sent, has the candidate's length,
/// and differs from the candidate only by underscores in place of characters
/// that are not printable.
pub proof fn sanitized_is_sendable(
    candidate: Seq<char>,
    fallback: Seq<char>,
    originator: Seq<char>,
)
    ensures
        is_value_text(sanitized(candidate, fallback, originator)),
        sanitized(candidate, fallback, originator).len() == candidate.len(),
        forall|i: int|
            0 <= i < candidate.len() ==> ({
                let c = #[trigger] sanitized(candidate, fallback, originator)[i];
                c == candidate[i] || (c == '_' && !is_printable(candidate[i]))
            }),
{
    sanitizing_masks_or_keeps(candidate, fallback, originator);
    masked_is_sendable(candidate);
}

/// Sanitizing what is sanitized changes nothing, whatever the fallbacks.
pub proof fn sanitizing_twice_is_once(
    candidate: Seq<char>,
    fallback: Seq<char>,
    originator: Seq<char>,
    other_fallback: Seq<char>,
    other_originator: Seq<char>,
)
    ensures
        sanitized(
            sanitized(candidate, fallback, originator),
            other_fallback,
            other_originator,
        ) == sanitized(candidate, fallback, originator),
{
    sanitized_is_sendable(candidate, fallback, originator);
}

/// The user agent can always be sent as a header.
pub proof fn user_agent_is_sendable(
    originator: Seq<char>,
    build_version: Seq<char>,
    os: OsDescription,
    terminal: Seq<char>,
    suffix: Option<Seq<char>>,
)
    ensures
        is_value_text(user_agent(originator, build_version, os, terminal, suffix)),
{
    let base = base_user_agent(originator, build_version, os, terminal);
    sanitized_is_sendable(base + bracketed(suffix), base, originator);
}

/// The user agent begins with the originator and a slash, unless the originator
/// itself holds a character that had to be masked.
pub proof fn user_agent_begins_with_originator(
    originator: Seq<char>,
    build_version: Seq<char>,
    os: OsDescription,
    terminal: Seq<char>,
    suffix: Option<Seq<char>>,
)
    requires
        is_value_text(
            candidate_user_agent(originator, build_version, os, terminal, suffix),
        ) || forall|i: int| 0 <= i < originator.len() ==> is_printable(#[trigger] originator[i]),
    ensures
        (originator + "/"@).is_prefix_of(
            user_agent(originator, build_version, os, terminal, suffix),
        ),
{
    reveal_strlit("/");
    let base = base_user_agent(originator, build_version, os, terminal);
    let head = originator + "/"@;
    let candidate = base + bracketed(suffix);
    assert(candidate.take(head.len() as int) =~= head);
    sanitizing_masks_or_keeps(candidate, base, originator);
    assert forall|i: int| 0 <= i < head.len() implies candidate[i] == #[trigger] head[i] by {
        assert(candidate.take(head.len() as int)[i] == head[i]);
    }
}

/// Parts that can be sent are sent as they are: the suffix, trimmed, stands in
/// parentheses after a space behind the rest.
pub proof fn sendable_parts_are_kept(
    originator: Seq<char>,
    build_version: Seq<char>,
    os: OsDescription,
    terminal: Seq<char>,
    suffix: Option<Seq<char>>,
)
    requires
        is_value_text(originator),
        is_value_text(build_version),
        is_value_text(os.os_type@),
        is_value_text(os.version@),
        os.architecture matches Some(name) ==> is_value_text(name@),
        is_value_text(terminal),
        suffix matches Some(text) ==> is_value_text(trimmed_end(trimmed_start(text))),
    ensures
        user_agent(originator, build_version, os, terminal, suffix) == candidate_user_agent(
            originator,
            build_version,
            os,
            terminal,
            suffix,
        ),
{
    reveal_strlit("/");
    reveal_strlit(" (");
    reveal_strlit(" ");
    reveal_strlit("; ");
    reveal_strlit(") ");
    reveal_strlit(")");
    reveal_strlit("unknown");
}

/// A suffix of white space alone is no suffix.
pub proof fn blank_suffix_is_no_suffix(
    originator: Seq<char>,
    build_version: Seq<char>,
    os: OsDescription,
    terminal: Seq<char>,
    suffix: Seq<char>,
)
    requires
        forall|i: int| 0 <= i < suffix.len() ==> is_white_space(#[trigger] suffix[i]),
    ensures
        user_agent(originator, build_version, os, terminal, Some(suffix)) == user_agent(
            originator,
            build_version,
            os,
            terminal,
            None,
        ),
{
    lemma_blank_trims_to_nothing(suffix);
}

proof fn lemma_blank_trims_to_nothing(text: Seq<char>)
    requires
        forall|i: int| 0 <= i < text.len() ==> is_white_space(#[trigger] text[i]),
    ensures
        trimmed_start(text).len() == 0,
    decreases text.len(),
{
    if text.len() > 0 {
        lemma_blank_trims_to_nothing(text.drop_first());
    }
}

/// Sanitizing goes character by character: a candidate that can be sent stays
/// as it is, and in any other each character that is not printable ASCII becomes
/// an underscore and each other character stays.
pub proof fn sanitizing_goes_by_character(
    candidate: String,
    fallback: &str,
    originator: &Originator,
    r: String,
)
    requires
        call_ensures(sanitize_user_agent, (candidate, fallback, originator), r),
    ensures
        r@.len() == candidate@.len(),
        is_value_text(r@),
        is_value_text(candidate@) ==> r@ == candidate@,
        !is_value_text(candidate@) ==> forall|i: int|
            0 <= i < candidate@.len() ==> #[trigger] r@[i] == if ' ' <= candidate@[i]
                && candidate@[i] <= '~' {
                candidate@[i]
            } else {
                '_'
            },
{
    sanitized_is_sendable(candidate@, fallback@, originator.value@);
    sanitizing_masks_or_keeps(candidate@, fallback@, originator.value@);
}

/// In ASCII, white space is the space and the characters from the tab to the
/// carriage return, and nothing that shows ink.
pub proof fn white_space_in_ascii(c: char)
    requires
        c as int <= 127,
    ensures
        is_white_space(c) <==> c as int == 32 || 9 <= c as int <= 13,
{
}

/// Every text is white space, then something that neither begins nor ends with
/// white space, then white space.
pub proof fn every_text_has_an_inside(text: Seq<char>) -> (parts: (Seq<char>, Seq<char>, Seq<char>))
    ensures
        text == parts.0 + parts.1 + parts.2,
        forall|i: int| 0 <= i < parts.0.len() ==> is_white_space(#[trigger] parts.0[i]),
        forall|i: int| 0 <= i < parts.2.len() ==> is_white_space(#[trigger] parts.2[i]),
        parts.1.len() > 0 ==> !is_white_space(parts.1.first()) && !is_white_space(parts.1.last()),
    decreases text.len(),
{
    if text.len() > 0 && is_white_space(text.first()) {
        let rest = every_text_has_an_inside(text.drop_first());
        let parts = (seq![text.first()] + rest.0, rest.1, rest.2);
        assert(text =~= seq![text.first()] + text.drop_first());
        assert(text =~= parts.0 + parts.1 + parts.2);
        parts
    } else if text.len() > 0 && is_white_space(text.last()) {
        let rest = every_text_has_an_inside(text.drop_last());
        let parts = (rest.0, rest.1, rest.2.push(text.last()));
        assert(text =~= text.drop_last().push(text.last()));
        assert(text =~= parts.0 + parts.1 + parts.2);
        parts
    } else {
        let parts = (Seq::<char>::empty(), text, Seq::<char>::empty());
        assert(text =~= parts.0 + parts.1 + parts.2);
        parts
    }
}

/// What trimming leaves of white space, something that neither begins nor ends
/// with white space, and white space, is what stands between.
proof fn lemma_trimming_leaves_the_inside(left: Seq<char>, inside: Seq<char>, right: Seq<char>)
    requires
        forall|i: int| 0 <= i < left.len() ==> is_white_space(#[trigger] left[i]),
        forall|i: int| 0 <= i < right.len() ==> is_white_space(#[trigger] right[i]),
        inside.len() > 0 ==> !is_white_space(inside.first()) && !is_white_space(inside.last()),
    ensures
        trimmed_end(trimmed_start(left + inside + right)) == inside,
    decreases left.len() + right.len(),
{
    let text = left + inside + right;
    if left.len() > 0 {
        assert(text.first() == left[0]);
        assert(text.drop_first() =~= left.drop_first() + inside + right);
        lemma_trimming_leaves_the_inside(left.drop_first(), inside, right);
    } else if inside.len() == 0 {
        assert(text =~= right);
        lemma_blank_trims_to_nothing(right);
        assert(trimmed_start(right) =~= inside);
    } else {
        assert(text =~= inside + right);
        assert(text.first() == inside.first());
        if right.len() > 0 {
            assert(text.last() == right.last());
            assert(right[right.len() - 1] == right.last());
            assert(text.drop_last() =~= left + inside + right.drop_last());
            lemma_trimming_leaves_the_inside(left, inside, right.drop_last());
            assert(text.drop_last().first() == inside.first());
        } else {
            assert(text =~= inside);
        }
    }
}

proof fn lemma_laid_out(
    originator: Seq<char>,
    build_version: Seq<char>,
    os: OsDescription,
    terminal: Seq<char>,
    suffix: Option<Seq<char>>,
    left: Seq<char>,
    inside: Seq<char>,
    right: Seq<char>,
)
    requires
        suffix matches Some(text) ==> text == left + inside + right,
        suffix is None ==> inside.len() == 0,
        forall|i: int| 0 <= i < left.len() ==> is_white_space(#[trigger] left[i]),
        forall|i: int| 0 <= i < right.len() ==> is_white_space(#[trigger] right[i]),
        inside.len() > 0 ==> !is_white_space(inside.first()) && !is_white_space(inside.last()),
    ensures
        ({
            let system = os.os_type@ + " "@ + os.version@ + "; "@ + match os.architecture {
                Some(name) => name@,
                None => "unknown"@,
            };
            let tail = if inside.len() > 0 {
                " ("@ + inside + ")"@
            } else {
                seq![]
            };
            let whole = originator + "/"@ + build_version + " ("@ + system + ") "@ + terminal
                + tail;
            let agent = user_agent(originator, build_version, os, terminal, suffix);
            &&& candidate_user_agent(originator, build_version, os, terminal, suffix) == whole
            &&& is_value_text(whole) ==> agent == whole
            &&& agent.len() == whole.len()
            &&& forall|i: int|
                0 <= i < whole.len() ==> #[trigger] agent[i] == if is_value_text(whole) || (' '
                    <= whole[i] && whole[i] <= '~') {
                    whole[i]
                } else {
                    '_'
                }
        }),
{
    let system = os.os_type@ + " "@ + os.version@ + "; "@ + match os.architecture {
        Some(name) => name@,
        None => "unknown"@,
    };
    let tail = if inside.len() > 0 {
        " ("@ + inside + ")"@
    } else {
        seq![]
    };
    let whole = originator + "/"@ + build_version + " ("@ + system + ") "@ + terminal + tail;
    let base = base_user_agent(originator, build_version, os, terminal);
    let candidate = candidate_user_agent(originator, build_version, os, terminal, suffix);
    if suffix is Some {
        lemma_trimming_leaves_the_inside(left, inside, right);
    }
    assert(candidate =~= whole);
    sanitizing_masks_or_keeps(candidate, base, originator);
    sanitized_is_sendable(candidate, base, originator);
}

/// The user agent, laid out: the originator, a slash, the version, in brackets
/// the type, version and architecture of the system, the terminal, and in
/// brackets what is inside the white space of the suffix, if anything is. It is
/// just that where all of it can be sent, and else that with an underscore for
/// each character that is not printable ASCII; which of the two it is is told.
pub proof fn user_agent_is_laid_out(
    originator: &Originator,
    build_version: &str,
    os: &OsDescription,
    terminal: &str,
    suffix: Option<&str>,
    left: Seq<char>,
    inside: Seq<char>,
    right: Seq<char>,
    agent: String,
    told: SanitizedAgent,
)
    requires
        call_ensures(
            compose_user_agent,
            (originator, build_version, os, terminal, suffix),
            agent,
        ),
        call_ensures(
            compose_sanitized_agent,
            (originator, build_version, os, terminal, suffix),
            told,
        ),
        suffix matches Some(text) ==> text@ == left + inside + right,
        suffix is None ==> inside.len() == 0,
        forall|i: int| 0 <= i < left.len() ==> is_white_space(#[trigger] left[i]),
        forall|i: int| 0 <= i < right.len() ==> is_white_space(#[trigger] right[i]),
        inside.len() > 0 ==> !is_white_space(inside.first()) && !is_white_space(inside.last()),
    ensures
        ({
            let system = os.os_type@ + " "@ + os.version@ + "; "@ + match os.architecture {
                Some(name) => name@,
                None => "unknown"@,
            };
            let tail = if inside.len() > 0 {
                " ("@ + inside + ")"@
            } else {
                seq![]
            };
            let whole = originator.value@ + "/"@ + build_version@ + " ("@ + system + ") "@
                + terminal@ + tail;
            &&& told.text@ == agent@
            &&& told.masked == !is_value_text(whole)
            &&& is_value_text(whole) ==> agent@ == whole
            &&& agent@.len() == whole.len()
            &&& forall|i: int|
                0 <= i < whole.len() ==> #[trigger] agent@[i] == if is_value_text(whole) || (' '
                    <= whole[i] && whole[i] <= '~') {
                    whole[i]
                } else {
                    '_'
                }
        }),
{
    lemma_laid_out(
        originator.value@,
        build_version@,
        *os,
        terminal@,
        text_of_ref(suffix),
        left,
        inside,
        right,
    );
}

/// What the process says of itself is the user agent laid out for an answer that
/// the machine gave about its system.
pub proof fn user_agent_tells_of_this_machine(
    originator: &Originator,
    build_version: &str,
    terminal: &str,
    suffix: Option<&str>,
    left: Seq<char>,
    inside: Seq<char>,
    right: Seq<char>,
    agent: String,
)
    requires
        call_ensures(get_codex_user_agent, (originator, build_version, terminal, suffix), agent),
        suffix matches Some(text) ==> text@ == left + inside + right,
        suffix is None ==> inside.len() == 0,
        forall|i: int| 0 <= i < left.len() ==> is_white_space(#[trigger] left[i]),
        forall|i: int| 0 <= i < right.len() ==> is_white_space(#[trigger] right[i]),
        inside.len() > 0 ==> !is_white_space(inside.first()) && !is_white_space(inside.last()),
    ensures
        exists|os: OsDescription| #[trigger]
            is_machine_os(os) && ({
                let system = os.os_type@ + " "@ + os.version@ + "; "@ + match os.architecture {
                    Some(name) => name@,
                    None => "unknown"@,
                };
                let tail = if inside.len() > 0 {
                    " ("@ + inside + ")"@
                } else {
                    seq![]
                };
                let whole = originator.value@ + "/"@ + build_version@ + " ("@ + system + ") "@
                    + terminal@ + tail;
                &&& is_value_text(whole) ==> agent@ == whole
                &&& agent@.len() == whole.len()
                &&& forall|i: int|
                    0 <= i < whole.len() ==> #[trigger] agent@[i] == if is_value_text(whole) || (' '
                        <= whole[i] && whole[i] <= '~') {
                        whole[i]
                    } else {
                        '_'
                    }
            }),
{
    let os = choose|os: OsDescription|
        {
            &&& is_machine_os(os)
            &&& agent@ == #[trigger] user_agent(
                originator.value@,
                build_version@,
                os,
                terminal@,
                text_of_ref(suffix),
            )
        };
    lemma_laid_out(
        originator.value@,
        build_version@,
        os,
        terminal@,
        text_of_ref(suffix),
        left,
        inside,
        right,
    );
    machine_answers_for_itself(os);
    assert(is_machine_os(os));
}

/// The same holds where it is told whether the user agent had to be masked, and
/// that is told truly.
pub proof fn masking_is_told_truly(
    originator: &Originator,
    build_version: &str,
    terminal: &str,
    suffix: Option<&str>,
    left: Seq<char>,
    inside: Seq<char>,
    right: Seq<char>,
    agent: SanitizedAgent,
)
    requires
        call_ensures(sanitized_codex_agent, (originator, build_version, terminal, suffix), agent),
        suffix matches Some(text) ==> text@ == left + inside + right,
        suffix is None ==> inside.len() == 0,
        forall|i: int| 0 <= i < left.len() ==> is_white_space(#[trigger] left[i]),
        forall|i: int| 0 <= i < right.len() ==> is_white_space(#[trigger] right[i]),
        inside.len() > 0 ==> !is_white_space(inside.first()) && !is_white_space(inside.last()),
    ensures
        exists|os: OsDescription| #[trigger]
            is_machine_os(os) && ({
                let system = os.os_type@ + " "@ + os.version@ + "; "@ + match os.architecture {
                    Some(name) => name@,
                    None => "unknown"@,
                };
                let tail = if inside.len() > 0 {
                    " ("@ + inside + ")"@
                } else {
                    seq![]
                };
                let whole = originator.value@ + "/"@ + build_version@ + " ("@ + system + ") "@
                    + terminal@ + tail;
                &&& agent.masked == !is_value_text(whole)
                &&& is_value_text(whole) ==> agent.text@ == whole
                &&& agent.text@.len() == whole.len()
                &&& forall|i: int|
                    0 <= i < whole.len() ==> #[trigger] agent.text@[i] == if is_value_text(whole) || (' '
                        <= whole[i] && whole[i] <= '~') {
                        whole[i]
                    } else {
                        '_'
                    }
            }),
{
    let os = choose|os: OsDescription|
        {
            &&& is_machine_os(os)
            &&& agent.text@ == #[trigger] user_agent(
                originator.value@,
                build_version@,
                os,
                terminal@,
                text_of_ref(suffix),
            )
            &&& agent.masked == !is_value_text(
                candidate_user_agent(
                    originator.value@,
                    build_version@,
                    os,
                    terminal@,
                    text_of_ref(suffix),
                ),
            )
        };
    lemma_laid_out(
        originator.value@,
        build_version@,
        os,
        terminal@,
        text_of_ref(suffix),
        left,
        inside,
        right,
    );
    machine_answers_for_itself(os);
    assert(is_machine_os(os));
}

/// Only the beginning of the user agent depends on the originator: what follows
/// it is the same for every two originators, as long as both user agents can be
/// sent as they are asked for.
pub proof fn rest_is_the_same_for_every_originator(
    one: &Originator,
    other: &Originator,
    build_version: &str,
    os: &OsDescription,
    terminal: &str,
    suffix: Option<&str>,
    of_one: SanitizedAgent,
    of_other: SanitizedAgent,
)
    requires
        call_ensures(
            compose_sanitized_agent,
            (one, build_version, os, terminal, suffix),
            of_one,
        ),
        call_ensures(
            compose_sanitized_agent,
            (other, build_version, os, terminal, suffix),
            of_other,
        ),
        !of_one.masked,
        !of_other.masked,
    ensures
        one.value@.is_prefix_of(of_one.text@),
        other.value@.is_prefix_of(of_other.text@),
        of_one.text@.skip(one.value@.len() as int) == of_other.text@.skip(
            other.value@.len() as int,
        ),
{
    let rest = base_user_agent(seq![], build_version@, *os, terminal@) + bracketed(
        text_of_ref(suffix),
    );
    assert(of_one.text@ =~= one.value@ + rest);
    assert(of_other.text@ =~= other.value@ + rest);
    assert(of_one.text@.skip(one.value@.len() as int) =~= rest);
    assert(of_other.text@.skip(other.value@.len() as int) =~= rest);
}

/// An answer of the machine is one that asking it gave, and nothing else is.
proof fn machine_answers_for_itself(os: OsDescription)
    ensures
        is_machine_os(os) <==> call_ensures(current_os, (), os),
{
}

} // verus!
