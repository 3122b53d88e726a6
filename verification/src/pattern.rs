use regex::Regex;
use vstd::prelude::*;

verus! {

#[verifier::external_type_specification]
#[verifier::external_body]
pub struct ExRegex(Regex);

#[verifier::external_type_specification]
#[verifier::external_body]
pub struct ExRegexError(regex::Error);

/// The pattern text that a compiled expression reports as its own
/// (`regex::Regex::as_str`).
pub uninterp spec fn source_of(re: &Regex) -> Seq<char>;

/// Whether the expression written as `pattern` matches anywhere in `text`.
pub uninterp spec fn found_in(pattern: Seq<char>, text: Seq<char>) -> bool;

/// The successive non-overlapping matches of `pattern` in `text`, from the left.
pub uninterp spec fn all_matches(pattern: Seq<char>, text: Seq<char>) -> Seq<Seq<char>>;

/// `text` with every non-overlapping match of `pattern` replaced by the
/// expansion of `with`.
pub uninterp spec fn replaced_all(pattern: Seq<char>, text: Seq<char>, with: Seq<char>) -> Seq<
    char,
>;

/// The stretches of `text` that the matches of `pattern` delimit.
pub uninterp spec fn split_pieces(pattern: Seq<char>, text: Seq<char>) -> Seq<Seq<char>>;

/// The capture groups of the leftmost match of `pattern` in `text`, the
/// whole match first; a group that took no part in the match is `None`.
pub uninterp spec fn capture_groups(pattern: Seq<char>, text: Seq<char>) -> Option<
    Seq<Option<Seq<char>>>,
>;

/// Whether the pattern engine, as it is built into this library, accepts a
/// pattern text: the syntax of the text and the size of what it compiles
/// to decide.
pub uninterp spec fn compiles(pattern: Seq<char>) -> bool;

/// `regex::Regex::new`: whether a pattern is accepted depends on its text
/// alone, and an accepted one is the source of the expression returned.
#[verifier::external_body]
fn compile(pattern: &str) -> (r: Result<Regex, regex::Error>)
    ensures
        r is Ok <==> compiles(pattern@),
        r matches Ok(re) ==> source_of(&re) == pattern@,
{
    Regex::new(pattern)
}

/// An expression compiled from a pattern text with the engine's settings
/// left as they are, so that what it matches depends on its text alone.
/// `Pattern::new` is the only way to one.
pub struct Pattern {
    re: Regex,
}

impl View for Pattern {
    type V = Seq<char>;

    /// The pattern text.
    closed spec fn view(&self) -> Seq<char> {
        source_of(&self.re)
    }
}

impl Pattern {
    /// Compiles a pattern; `None` where the engine turns it down.
    pub fn new(pattern: &str) -> (r: Option<Pattern>)
        ensures
            r is Some <==> compiles(pattern@),
            r matches Some(p) ==> p@ == pattern@,
    {
        match compile(pattern) {
            Ok(re) => Some(Pattern { re }),
            Err(_) => None,
        }
    }

    /// `regex::Regex::is_match`: whether there is a match depends on the
    /// pattern text and the text searched alone.
    #[verifier::external_body]
    pub(crate) fn is_match(&self, text: &str) -> (b: bool)
        ensures
            b == found_in(self@, text@),
    {
        self.re.is_match(text)
    }

    /// `regex::Regex::find_iter`, each match handed out as the text it
    /// covers: the matches depend on the pattern text and the text searched
    /// alone.
    #[verifier::external_body]
    pub(crate) fn find_all(&self, text: &str) -> (v: Vec<String>)
        ensures
            v.deep_view() == all_matches(self@, text@),
    {
        self.re.find_iter(text).map(|m| m.as_str().to_string()).collect()
    }

    /// `regex::Regex::replace_all` with a replacement given as text: the
    /// outcome depends on the pattern text, the text searched and the
    /// replacement alone.
    #[verifier::external_body]
    pub(crate) fn replace_all(&self, text: &str, with: &str) -> (s: String)
        ensures
            s@ == replaced_all(self@, text@, with@),
    {
        self.re.replace_all(text, with).into_owned()
    }

    /// `regex::Regex::split`, each piece handed out as owned text: the
    /// pieces depend on the pattern text and the text searched alone.
    #[verifier::external_body]
    pub(crate) fn split(&self, text: &str) -> (v: Vec<String>)
        ensures
            v.deep_view() == split_pieces(self@, text@),
    {
        self.re.split(text).map(|piece| piece.to_string()).collect()
    }

    /// `regex::Regex::captures`, each group handed out as the text it
    /// covers: whether there is a match, and its groups, depend on the
    /// pattern text and the text searched alone.
    #[verifier::external_body]
    pub(crate) fn captures(&self, text: &str) -> (r: Option<Vec<Option<String>>>)
        ensures
            r.deep_view() == capture_groups(self@, text@),
    {
        self.re.captures(text).map(
            |caps| caps.iter().map(|group| group.map(|m| m.as_str().to_string())).collect(),
        )
    }
}

} // verus!
