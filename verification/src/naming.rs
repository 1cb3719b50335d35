use regex::Regex;
use vstd::prelude::*;
use vstd::string::*;
use vstd::utf8::*;

verus! {

/// `regex::Regex`, a compiled regular expression.
#[verifier::external_type_specification]
#[verifier::external_body]
pub struct ExRegex(regex::Regex);

/// `regex::Error`, the error of a pattern that does not compile. Nothing is
/// read from it.
#[verifier::external_type_specification]
#[verifier::external_body]
pub struct ExRegexError(regex::Error);

/// What `regex::Regex::new` returns for a pattern: the compiled expression,
/// or the error where the pattern is not valid or compiles to too large a
/// program.
pub uninterp spec fn compiled(pattern: Seq<char>) -> Result<regex::Regex, regex::Error>;

/// What `regex::Regex::is_match` returns: whether the expression matches
/// somewhere in the haystack.
pub uninterp spec fn accepts(re: regex::Regex, haystack: Seq<char>) -> bool;

/// `regex::Regex::new` compiles a pattern with the default options. Its
/// result depends on the pattern alone; nothing more is claimed of it.
pub assume_specification[ regex::Regex::new ](re: &str) -> (r: Result<regex::Regex, regex::Error>)
    ensures
        r == compiled(re@),
;

/// `regex::Regex::is_match` searches the haystack from its start and does
/// not panic. Its result depends on the expression and the haystack alone;
/// nothing more is claimed of it.
pub assume_specification[ regex::Regex::is_match ](re: &regex::Regex, haystack: &str) -> (b: bool)
    ensures
        b == accepts(*re, haystack@),
;

/// The name of a migration that is not released yet.
pub const UNRELEASED: &'static str = "Unreleased";

/// The pattern of a released migration's name: a capital `V` and four
/// digits, with nothing before or after.
pub const VERSION_PATTERN: &'static str = r"^V\d{4}$";

/// Whether the version pattern matches a name.
pub open spec fn is_version(name: Seq<char>) -> bool {
    compiled(VERSION_PATTERN@) matches Ok(re) && accepts(re, name)
}

/// The naming convention, given whether the version pattern matches: a name
/// conforms if it is `Unreleased` or the pattern matches it.
pub open spec fn conforms_given(name: Seq<char>, version_match: bool) -> bool {
    name == UNRELEASED@ || version_match
}

/// The naming convention: a name conforms if it is `Unreleased` or the
/// version pattern matches it.
pub open spec fn conforming_name(name: Seq<char>) -> bool {
    conforms_given(name, is_version(name))
}

/// Whether two strings hold the same characters.
pub fn same_text(a: &str, b: &str) -> (same: bool)
    ensures
        same == (a@ == b@),
{
    let x = a.as_bytes();
    let y = b.as_bytes();
    proof {
        encode_utf8_decode_utf8(a@);
        encode_utf8_decode_utf8(b@);
    }
    if x.len() != y.len() {
        return false;
    }
    let mut i: usize = 0;
    while i < x.len()
        invariant
            i <= x.len(),
            x.len() == y.len(),
            x@ == a.spec_bytes(),
            y@ == b.spec_bytes(),
            x@.take(i as int) == y@.take(i as int),
        decreases x.len() - i,
    {
        if x[i] != y[i] {
            return false;
        }
        assert(x@.take(i + 1) =~= x@.take(i as int).push(x@[i as int]));
        assert(y@.take(i + 1) =~= y@.take(i as int).push(y@[i as int]));
        i += 1;
    }
    assert(x@ =~= x@.take(i as int));
    assert(y@ =~= y@.take(i as int));
    true
}

/// Judges a name once it is known whether the version pattern matches it.
pub fn conforms(name: &str, version_match: bool) -> (r: bool)
    ensures
        r == conforms_given(name@, version_match),
{
    same_text(name, UNRELEASED) || version_match
}

/// Judges a name against a compiled version pattern. A pattern that did not
/// compile matches nothing.
pub fn conforms_to(rule: &Result<Regex, regex::Error>, name: &str) -> (r: bool)
    ensures
        r == conforms_given(name@, *rule matches Ok(re) && accepts(re, name@)),
{
    let version_match = match rule {
        Ok(re) => re.is_match(name),
        Err(_) => false,
    };
    conforms(name, version_match)
}

/// Whether a name follows the naming convention: it is `Unreleased`, or a
/// capital `V` and four digits. The whole name is judged, as it stands.
pub fn is_conforming(name: &str) -> (r: bool)
    ensures
        r == conforming_name(name@),
{
    let rule = Regex::new(VERSION_PATTERN);
    conforms_to(&rule, name)
}

} // verus!
