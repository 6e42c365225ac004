//! The keyword filter that decides whether a message starts a notice.

use vstd::prelude::*;

verus! {

/// `k` occurs in `t` as a run of consecutive characters.
pub open spec fn occurs_in(t: Seq<char>, k: Seq<char>) -> bool {
    exists|i: int| 0 <= i && i + k.len() <= t.len() && #[trigger] t.subrange(i, i + k.len()) == k
}

/// One of `words` occurs in `t`.
pub open spec fn occurs_any(t: Seq<char>, words: Seq<Seq<char>>) -> bool {
    exists|j: int| 0 <= j < words.len() && occurs_in(t, #[trigger] words[j])
}

/// A character with a special meaning in a regular expression.
pub open spec fn is_regex_meta(c: char) -> bool {
    c == '\\' || c == '.' || c == '+' || c == '*' || c == '?' || c == '(' || c == ')' || c == '|'
        || c == '[' || c == ']' || c == '{' || c == '}' || c == '^' || c == '$' || c == '#'
        || c == '&' || c == '-' || c == '~'
}

/// `k` is a non-empty text that a regular expression reads literally.
pub open spec fn is_plain_literal(k: Seq<char>) -> bool {
    &&& k.len() > 0
    &&& forall|i: int| 0 <= i < k.len() ==> !is_regex_meta(#[trigger] k[i])
}

/// `words` separated by `|`.
pub open spec fn alternatives(words: Seq<Seq<char>>) -> Seq<char>
    decreases words.len(),
{
    if words.len() == 0 {
        Seq::empty()
    } else if words.len() == 1 {
        words[0]
    } else {
        alternatives(words.drop_last()) + seq!['|'] + words.last()
    }
}

/// The regular expression that matches any one of `words`: `(w1|w2|...)`.
pub open spec fn alternation(words: Seq<Seq<char>>) -> Seq<char> {
    seq!['('] + alternatives(words) + seq![')']
}

/// The keywords that start a notice.
pub open spec fn trigger_words() -> Seq<Seq<char>> {
    seq!["草"@, "cao"@, "焯"@, "🌱"@, "🌿"@, "☘️"@, "🍀"@, "艹"@]
}

/// Why a regular expression could not be compiled.
#[verifier::external_type_specification]
#[verifier::external_body]
pub struct ExRegexError(regex::Error);

/// `pattern` is `(w1|w2|...)` for a non-empty list `words` of plain literals.
pub open spec fn is_literal_alternation(pattern: Seq<char>, words: Seq<Seq<char>>) -> bool {
    &&& words.len() > 0
    &&& alternation(words) == pattern
    &&& forall|j: int| 0 <= j < words.len() ==> is_plain_literal(#[trigger] words[j])
}

/// Relies on regex::Regex::new, which compiles `pattern`, and on
/// regex::Regex::is_match, which tells whether the compiled expression matches
/// anywhere in `text`. An alternation of one or more plain literals is valid
/// syntax and matches exactly where one of the literals occurs. `Regex::new`
/// fails only on invalid syntax or on a program over the default size limit
/// of 10 MiB, which a literal alternation of at most 256 characters stays far
/// below.
#[verifier::external_body]
fn regex_is_match(pattern: &str, text: &str) -> (r: Result<bool, regex::Error>)
    ensures
        forall|words: Seq<Seq<char>>|
            #[trigger] is_literal_alternation(pattern@, words) ==> (r matches Ok(found) ==> found
                == occurs_any(text@, words)),
        forall|words: Seq<Seq<char>>|
            #[trigger] is_literal_alternation(pattern@, words) && pattern@.len() <= 256 ==> r is Ok,
{
    match regex::Regex::new(pattern) {
        Ok(re) => Ok(re.is_match(text)),
        Err(e) => Err(e),
    }
}

/// Whether `text` contains one of the trigger keywords, as a plain substring
/// anywhere in it.
pub fn is_trigger(text: &str) -> (r: bool)
    ensures
        r == occurs_any(text@, trigger_words()),
{
    let pattern = "(草|cao|焯|🌱|🌿|☘️|🍀|艹)";
    proof {
        reveal_strlit("(草|cao|焯|🌱|🌿|☘️|🍀|艹)");
        reveal_strlit("草");
        reveal_strlit("cao");
        reveal_strlit("焯");
        reveal_strlit("🌱");
        reveal_strlit("🌿");
        reveal_strlit("☘️");
        reveal_strlit("🍀");
        reveal_strlit("艹");
        let words = trigger_words();
        reveal_with_fuel(alternatives, 9);
        assert(pattern@ =~= alternation(words));
        assert forall|j: int| 0 <= j < words.len() implies is_plain_literal(#[trigger] words[j]) by {
            let w = words[j];
            assert forall|i: int| 0 <= i < w.len() implies !is_regex_meta(#[trigger] w[i]) by {}
        }
        assert(is_literal_alternation(pattern@, words));
    }
    match regex_is_match(pattern, text) {
        Ok(found) => found,
        Err(_) => {
            assert(false);
            false
        },
    }
}

} // verus!
