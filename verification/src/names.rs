//! Header names: what they are, and which of them a request may have.
use vstd::prelude::*;
use vstd::seq_lib::seq_to_set_is_finite;

verus! {

/// A character of a header name.
pub open spec fn is_name_char(c: char) -> bool {
    ||| 'a' <= c && c <= 'z'
    ||| 'A' <= c && c <= 'Z'
    ||| '0' <= c && c <= '9'
    ||| c == '!' || c == '#' || c == '$' || c == '%' || c == '&' || c == '\'' || c == '*'
    ||| c == '+' || c == '-' || c == '.' || c == '^' || c == '_' || c == '`' || c == '|' || c == '~'
}

pub open spec fn lower(c: char) -> char {
    if 'A' <= c && c <= 'Z' {
        (c as int + 32) as char
    } else {
        c
    }
}

/// A text with its letters of the Latin alphabet in lower case.
pub open spec fn lowered(text: Seq<char>) -> Seq<char> {
    text.map_values(|c: char| lower(c))
}

/// The header name that a text stands for, in lower case, and none where the
/// text is no header name.
pub open spec fn header_name(text: Seq<char>) -> Option<Seq<char>> {
    if 0 < text.len() <= 65535 && forall|i: int|
        0 <= i < text.len() ==> is_name_char(#[trigger] text[i]) {
        Some(lowered(text))
    } else {
        None
    }
}

/// Writes a text in lower case.
fn lower_case(text: &str) -> (r: String)
    ensures
        r@ == lowered(text@),
{
    let mut out = String::new();
    for c in it: text.chars()
        invariant
            it.seq() == text@,
            out@ == lowered(text@.take(it.index())),
    {
        let small: char = if 'A' <= c && c <= 'Z' {
            ((c as u8) + 32u8) as char
        } else {
            c
        };
        proof {
            assert(text@.take(it.index() + 1) =~= text@.take(it.index()).push(c));
            assert(lowered(text@.take(it.index() + 1)) =~= lowered(text@.take(it.index())).push(
                small,
            ));
        }
        out.push(small);
    }
    assert(text@.take(text@.len() as int) =~= text@);
    out
}

/// The texts of some strings.
spec fn texts_of(list: Seq<String>) -> Seq<Seq<char>> {
    list.map_values(|name: String| name@)
}

/// A set of header names, without regard to case.
#[derive(Debug)]
pub struct NameSet {
    list: Vec<String>,
}

impl View for NameSet {
    type V = Set<Seq<char>>;

    closed spec fn view(&self) -> Set<Seq<char>> {
        texts_of(self.list@).to_set()
    }
}

impl NameSet {
    #[verifier::type_invariant]
    spec fn inv(self) -> bool {
        texts_of(self.list@).no_duplicates()
    }

    /// The set of one name.
    pub fn of(name: &str) -> (r: Self)
        ensures
            r@ == set![lowered(name@)],
    {
        let mut list: Vec<String> = Vec::new();
        list.push(lower_case(name));
        proof {
            assert(texts_of(list@)[0] == lowered(name@));
            assert(texts_of(list@).to_set() =~= set![lowered(name@)]);
        }
        NameSet { list }
    }

    /// How many names there are.
    pub fn len(&self) -> (r: usize)
        ensures
            self@.finite(),
            r == self@.len(),
    {
        proof {
            use_type_invariant(self);
            seq_to_set_is_finite(texts_of(self.list@));
            texts_of(self.list@).unique_seq_to_set();
        }
        self.list.len()
    }

    /// The set with one more name, unless the name is there already.
    pub fn with(self, name: &str) -> (r: Self)
        ensures
            r@ == self@.insert(lowered(name@)),
    {
        proof {
            use_type_invariant(&self);
        }
        let mut list: Vec<String> = self.list;
        let ghost before = texts_of(list@);
        let small: String = lower_case(name);
        let mut i: usize = 0;
        while i < list.len()
            invariant
                i <= list.len(),
                before == texts_of(list@),
                self@ == before.to_set(),
                before.no_duplicates(),
                small@ == lowered(name@),
                forall|j: int| 0 <= j < i ==> #[trigger] before[j] != small@,
            decreases list.len() - i,
        {
            if list[i] == small {
                proof {
                    assert(before[i as int] == small@);
                    assert(before.to_set().insert(small@) =~= before.to_set());
                }
                return NameSet { list };
            }
            i = i + 1;
        }
        list.push(small);
        proof {
            assert(texts_of(list@) =~= before.push(lowered(name@)));
            before.lemma_push_to_set_commute(lowered(name@));
        }
        NameSet { list }
    }
}

/// A header name is the same in whatever case it is written.
pub proof fn header_names_ignore_case(text: Seq<char>)
    ensures
        header_name(text) matches Some(name) ==> header_name(name) == Some(name),
{
    if let Some(name) = header_name(text) {
        assert(lowered(name) =~= name);
    }
}

/// A header name is refused exactly where it is empty, too long, or has a
/// character that is not one of a name; else it is itself, each capital letter as
/// the small one and every other character as it is.
pub proof fn header_name_goes_by_character(text: Seq<char>)
    ensures
        header_name(text) is Some <==> 0 < text.len() <= 65535 && forall|i: int|
            0 <= i < text.len() ==> is_name_char(#[trigger] text[i]),
        header_name(text) matches Some(name) ==> name.len() == text.len() && forall|i: int|
            0 <= i < text.len() ==> if 'A' <= text[i] && text[i] <= 'Z' {
                #[trigger] name[i] as int == text[i] as int + 32
            } else {
                name[i] == text[i]
            },
{
}

/// A character may stand in a header name exactly where it is ASCII, shows ink,
/// and is none of the delimiters.
pub proof fn name_characters(c: char)
    ensures
        is_name_char(c) <==> 33 <= c as int <= 126 && c != '"' && c != '(' && c != ')' && c != ','
            && c != '/' && c != ':' && c != ';' && c != '<' && c != '=' && c != '>' && c != '?'
            && c != '@' && c != '[' && c != '\\' && c != ']' && c != '{' && c != '}',
{
}

/// A set of names counts each name once, in whatever case it is written: a name
/// that is added makes it larger by one where it is new, and leaves it as it is
/// where it is not.
pub proof fn names_are_counted_once(
    names: NameSet,
    count: usize,
    name: &str,
    more: NameSet,
    new_count: usize,
)
    requires
        call_ensures(NameSet::len, (&names,), count),
        call_ensures(NameSet::with, (names, name), more),
        call_ensures(NameSet::len, (&more,), new_count),
    ensures
        more@.contains(lowered(name@)),
        forall|other: Seq<char>|
            other != lowered(name@) ==> (#[trigger] more@.contains(other) <==> names@.contains(
                other,
            )),
        names@.contains(lowered(name@)) ==> new_count == count,
        !names@.contains(lowered(name@)) ==> new_count == count + 1,
{
    if names@.contains(lowered(name@)) {
        assert(more@ =~= names@);
    }
}

} // verus!
