//! Compiled regular expressions, as the rest of the library sees them.
use vstd::prelude::*;
use regex::Regex;

verus! {

#[verifier::external_type_specification]
#[verifier::external_body]
pub struct ExRegex(regex::Regex);

#[verifier::external_type_specification]
#[verifier::external_body]
pub struct ExRegexError(regex::Error);

/// The pattern text a compiled expression was built from.
pub uninterp spec fn regex_source(r: Regex) -> Seq<char>;

/// Whether the pattern text is a valid expression.
pub uninterp spec fn regex_compiles(pattern: Seq<char>) -> bool;

/// Whether the expression matches somewhere in the text.
pub uninterp spec fn regex_is_match(pattern: Seq<char>, text: Seq<char>) -> bool;

/// The successive non-overlapping matches of the expression in the text, each
/// given by its first capture group, if it took part: byte offset and text.
pub uninterp spec fn regex_group_one(pattern: Seq<char>, text: Seq<char>) -> Seq<Option<(int, Seq<char>)>>;

/// A regular-expression meta character, which `regex::escape` prefixes with a backslash.
pub open spec fn meta_char(c: char) -> bool {
    c == '\\' || c == '.' || c == '+' || c == '*' || c == '?' || c == '(' || c == ')'
        || c == '|' || c == '[' || c == ']' || c == '{' || c == '}' || c == '^' || c == '$'
        || c == '#' || c == '&' || c == '-' || c == '~'
}

/// `s` with a backslash in front of each meta character.
pub open spec fn escaped(s: Seq<char>) -> Seq<char>
    decreases s.len(),
{
    if s.len() == 0 {
        Seq::empty()
    } else {
        let rest = escaped(s.drop_last());
        let c = s.last();
        if meta_char(c) {
            rest.push('\\').push(c)
        } else {
            rest.push(c)
        }
    }
}

pub open spec fn group_view(v: Seq<Option<(usize, String)>>) -> Seq<Option<(int, Seq<char>)>> {
    v.map_values(|o: Option<(usize, String)>| match o {
        Some(p) => Some((p.0 as int, p.1@)),
        None => None,
    })
}

/// Relies on `regex::Regex::new`: it succeeds exactly on valid patterns, and the
/// expression it returns remembers its pattern text.
#[verifier::external_body]
pub(crate) fn compile(pattern: &str) -> (r: Result<Regex, regex::Error>)
    ensures
        r is Ok <==> regex_compiles(pattern@),
        r matches Ok(re) ==> regex_source(re) == pattern@,
{
    Regex::new(pattern)
}

/// Relies on `regex::Regex::is_match`.
#[verifier::external_body]
pub(crate) fn is_match(re: &Regex, text: &str) -> (r: bool)
    ensures
        r == regex_is_match(regex_source(*re), text@),
{
    re.is_match(text)
}

/// Relies on `regex::Regex::captures_iter`, keeping of each match its first group.
#[verifier::external_body]
pub(crate) fn group_one_captures(re: &Regex, text: &str) -> (r: Vec<Option<(usize, String)>>)
    ensures
        group_view(r@) == regex_group_one(regex_source(*re), text@),
{
    re.captures_iter(text).map(|cap| cap.get(1).map(|m| (m.start(), m.as_str().to_string()))).collect()
}

/// Relies on `regex::escape`: a backslash before each meta character.
#[verifier::external_body]
pub(crate) fn escape(s: &str) -> (r: String)
    ensures
        r@ == escaped(s@),
{
    regex::escape(s)
}

} // verus!
