//! Regular-expression support, backed by the `regex` crate.
//!
//! What a regex matches is the `regex` crate's business: this module names
//! the results of `Regex::new` and `Regex::replace_all` instead of restating
//! the regex engine, and the rest of the library is proved against those
//! names. `regex::escape` is simple enough to be stated exactly.

use vstd::prelude::*;

verus! {

#[verifier::external_type_specification]
#[verifier::external_body]
pub struct ExRegex(regex::Regex);

#[verifier::external_type_specification]
#[verifier::external_body]
pub struct ExRegexError(regex::Error);

/// Whether `regex::Regex::new(pattern)` succeeds.
pub uninterp spec fn regex_compiles(pattern: Seq<char>) -> bool;

/// The text that `Regex::replace_all(text, rep)` returns for the regex
/// compiled from `pattern`, where `rep` is a replacement string (so `$1`,
/// `$name` and `$$` in it are expanded as the `regex` crate documents).
pub uninterp spec fn regex_replace_all(pattern: Seq<char>, text: Seq<char>, rep: Seq<char>) -> Seq<
    char,
>;

/// A compiled regex together with the pattern it was compiled from.
/// Only `compile` builds one, so `source` always is that pattern.
pub struct CompiledPattern {
    regex: regex::Regex,
    source: Ghost<Seq<char>>,
}

impl View for CompiledPattern {
    type V = Seq<char>;

    /// The pattern the regex was compiled from.
    closed spec fn view(&self) -> Seq<char> {
        self.source@
    }
}

/// `regex::Regex::new`: the contract states that it succeeds exactly when
/// the pattern compiles, and that the compiled value remembers its pattern.
#[verifier::external_body]
fn regex_new(pattern: &str) -> (res: Result<CompiledPattern, regex::Error>)
    ensures
        res is Ok <==> regex_compiles(pattern@),
        res matches Ok(p) ==> p@ == pattern@,
{
    match regex::Regex::new(pattern) {
        Ok(r) => Ok(CompiledPattern { regex: r, source: Ghost(pattern@) }),
        Err(e) => Err(e),
    }
}

/// `regex::Regex::replace_all` with a replacement string, made owned.
/// The contract only ties the result to the pattern, the text and the
/// replacement through the name `regex_replace_all`.
#[verifier::external_body]
fn regex_replace(p: &CompiledPattern, text: &str, rep: &str) -> (res: String)
    ensures
        res@ == regex_replace_all(p@, text@, rep@),
{
    p.regex.replace_all(text, rep).into_owned()
}

/// The characters `regex::escape` puts a backslash in front of
/// (`regex_syntax::is_meta_character`).
pub open spec fn is_regex_meta(c: char) -> bool {
    c == '\\' || c == '.' || c == '+' || c == '*' || c == '?' || c == '(' || c == ')' || c == '|'
        || c == '[' || c == ']' || c == '{' || c == '}' || c == '^' || c == '$' || c == '#' || c
        == '&' || c == '-' || c == '~'
}

/// `regex::escape(s)`: every meta character gets a backslash in front of it.
pub open spec fn regex_escape(s: Seq<char>) -> Seq<char>
    decreases s.len(),
{
    if s.len() == 0 {
        Seq::empty()
    } else if is_regex_meta(s.last()) {
        regex_escape(s.drop_last()).push('\\').push(s.last())
    } else {
        regex_escape(s.drop_last()).push(s.last())
    }
}

/// `regex::escape`: the contract restates its whole behaviour: a backslash
/// before each meta character, everything else copied.
#[verifier::external_body]
pub(crate) fn escape(s: &str) -> (res: String)
    ensures
        res@ == regex_escape(s@),
{
    regex::escape(s)
}

/// A replacement string that stands for `s` literally: every `$` doubled,
/// since `replace_all` reads `$$` as one `$` and other `$` as group
/// references.
pub open spec fn literal_replacement(s: Seq<char>) -> Seq<char>
    decreases s.len(),
{
    if s.len() == 0 {
        Seq::empty()
    } else if s.last() == '$' {
        literal_replacement(s.drop_last()).push('$').push('$')
    } else {
        literal_replacement(s.drop_last()).push(s.last())
    }
}

/// The replacement string that inserts `s` as it is.
pub fn literal_replacement_of(s: &str) -> (res: String)
    ensures
        res@ == literal_replacement(s@),
{
    let v = crate::text::chars_of(s);
    let mut out: Vec<char> = Vec::new();
    let mut i: usize = 0;
    while i < v.len()
        invariant
            i <= v.len(),
            v@ == s@,
            out@ == literal_replacement(v@.take(i as int)),
        decreases v.len() - i,
    {
        proof {
            assert(v@.take(i + 1).drop_last() == v@.take(i as int));
            assert(v@.take(i + 1).last() == v@[i as int]);
        }
        if v[i] == '$' {
            out.push('$');
            out.push('$');
        } else {
            out.push(v[i]);
        }
        i += 1;
    }
    assert(v@.take(v.len() as int) == v@);
    crate::text::string_of(&out)
}

/// Replacing every match of `pattern` in `text` by `rep`; a pattern that the
/// `regex` crate rejects leaves the text as it is.
pub open spec fn replace_or_keep(pattern: Seq<char>, text: Seq<char>, rep: Seq<char>) -> Seq<char> {
    if regex_compiles(pattern) {
        regex_replace_all(pattern, text, rep)
    } else {
        text
    }
}

/// Compiles `pattern` and replaces all of its matches in `text` by `rep`.
/// When the pattern does not compile the text is returned unchanged.
pub fn replace_matches(pattern: &str, text: &str, rep: &str) -> (res: String)
    ensures
        res@ == replace_or_keep(pattern@, text@, rep@),
{
    match regex_new(pattern) {
        Ok(p) => regex_replace(&p, text, rep),
        Err(_) => text.to_owned(),
    }
}

} // verus!
