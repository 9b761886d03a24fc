use vstd::prelude::*;
use unicode_segmentation::UnicodeSegmentation;

verus! {

/// What `str::trim` leaves of a string: the same characters with leading and
/// trailing whitespace removed. The exact set of whitespace characters is
/// Unicode's, so the result is named rather than spelled out.
pub uninterp spec fn trimmed(s: Seq<char>) -> Seq<char>;

/// How many extended grapheme clusters (user-perceived characters) a string
/// holds. Unicode segmentation takes pages to state, so the count is named
/// rather than spelled out; it depends on the characters alone.
pub uninterp spec fn grapheme_count(s: Seq<char>) -> nat;

/// Characters that a subscriber name must not contain.
pub open spec fn forbidden_char(c: char) -> bool {
    c == '/' || c == '(' || c == ')' || c == '"' || c == '<' || c == '>' || c == '\\'
        || c == '{' || c == '}'
}

pub open spec fn has_forbidden_char(s: Seq<char>) -> bool {
    exists|i: int| 0 <= i < s.len() && forbidden_char(#[trigger] s[i])
}

/// A name is acceptable when it is non-empty after trimming whitespace, holds
/// at most 256 graphemes, and contains no forbidden character.
pub open spec fn is_valid_name(s: Seq<char>) -> bool {
    &&& trimmed(s).len() != 0
    &&& grapheme_count(s) <= 256
    &&& !has_forbidden_char(s)
}

/// Relies on `str::trim`: returns the string with leading and trailing
/// whitespace removed, a function of the characters alone. The result is a
/// substring of the input, so it is never longer, and the empty string stays
/// empty.
#[verifier::external_body]
fn trim_str<'a>(s: &'a str) -> (r: &'a str)
    ensures
        r@ == trimmed(s@),
        r@.len() <= s@.len(),
        s@.len() == 0 ==> r@.len() == 0,
{
    s.trim()
}

/// Relies on `unicode_segmentation`'s `graphemes(true)`: iterates the extended
/// grapheme clusters of the string, a function of the characters alone.
#[verifier::external_body]
fn count_graphemes(s: &str) -> (n: usize)
    ensures
        n as nat == grapheme_count(s@),
{
    s.graphemes(true).count()
}

fn contains_forbidden_char(s: &str) -> (b: bool)
    ensures
        b == has_forbidden_char(s@),
{
    let mut found = false;
    for c in it: s.chars()
        invariant
            it.seq() == s@,
            found == (exists|i: int| 0 <= i < it.index() && forbidden_char(#[trigger] it.seq()[i])),
    {
        if c == '/' || c == '(' || c == ')' || c == '"' || c == '<' || c == '>' || c == '\\'
            || c == '{' || c == '}' {
            found = true;
        }
    }
    found
}

/// A subscriber's display name, only constructible through `parse`, so every
/// value of this type satisfies `is_valid_name`.
#[derive(Debug)]
pub struct SubscriberName(String);

impl View for SubscriberName {
    type V = Seq<char>;

    closed spec fn view(&self) -> Seq<char> {
        self.0@
    }
}

impl SubscriberName {
    /// Every value of this type carries a valid name.
    #[verifier::type_invariant]
    pub open spec fn type_inv(self) -> bool {
        is_valid_name(self.view())
    }

    /// The single validation point: accepts exactly the strings that
    /// `is_valid_name` allows and hands the text back unchanged.
    pub fn parse(s: String) -> (r: Result<SubscriberName, String>)
        ensures
            match r {
                Ok(name) => name@ == s@ && is_valid_name(s@),
                Err(m) => !is_valid_name(s@) && m@ == s@ + " is not a valid subscriber name. "@,
            },
            s@.len() == 0 ==> r is Err,
    {
        let is_empty_or_whitespace = trim_str(s.as_str()).is_empty();
        let is_too_long = count_graphemes(s.as_str()) > 256;
        let contains_forbidden_chars = contains_forbidden_char(s.as_str());
        if is_empty_or_whitespace || is_too_long || contains_forbidden_chars {
            let mut message = s;
            message.push_str(" is not a valid subscriber name. ");
            Err(message)
        } else {
            Ok(SubscriberName(s))
        }
    }

    /// Read-only access to the validated text.
    pub fn as_ref(&self) -> (r: &str)
        ensures
            r@ == self@,
    {
        self.0.as_str()
    }
}

/// The acceptance rules, spelled out one by one: a name whose trimmed form is
/// empty is invalid, one of more than 256 graphemes is invalid, one holding a
/// forbidden character is invalid, and a name failing none of these checks is
/// valid.
pub proof fn lemma_name_acceptance(s: Seq<char>)
    ensures
        trimmed(s).len() == 0 ==> !is_valid_name(s),
        grapheme_count(s) > 256 ==> !is_valid_name(s),
        has_forbidden_char(s) ==> !is_valid_name(s),
        (trimmed(s).len() != 0 && grapheme_count(s) <= 256 && !has_forbidden_char(s))
            ==> is_valid_name(s),
{
}

} // verus!
