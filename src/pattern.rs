use vstd::prelude::*;

verus! {

#[verifier::external_type_specification]
#[verifier::external_body]
pub struct ExRegex(regex::Regex);

/// Whether the regex crate accepts a pattern (it refuses invalid syntax and
/// patterns over its default size limit).
pub uninterp spec fn regex_compiles(pattern: Seq<char>) -> bool;

/// Whether the regex crate finds a match of a pattern anywhere in a text.
pub uninterp spec fn regex_matches(pattern: Seq<char>, text: Seq<char>) -> bool;

/// A compiled regular expression, kept with the pattern it was compiled from.
pub struct EmotePattern {
    source: String,
    regex: regex::Regex,
}

impl EmotePattern {
    /// The pattern this was compiled from.
    pub closed spec fn view(&self) -> Seq<char> {
        self.source@
    }

    /// Relies on `regex::Regex::new`, which compiles a pattern or refuses it.
    #[verifier::external_body]
    pub(crate) fn compile(source: String) -> (r: Option<EmotePattern>)
        ensures
            r is Some <==> regex_compiles(source@),
            r matches Some(p) ==> p@ == source@,
    {
        match regex::Regex::new(&source) {
            Ok(regex) => Some(EmotePattern { source, regex }),
            Err(_) => None,
        }
    }

    /// Relies on `regex::Regex::is_match`, which tells whether the pattern
    /// matches somewhere in the text.
    #[verifier::external_body]
    pub(crate) fn is_match(&self, text: &str) -> (r: bool)
        ensures
            r == regex_matches(self@, text@),
    {
        self.regex.is_match(text)
    }
}

} // verus!
