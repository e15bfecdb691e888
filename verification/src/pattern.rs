//! Regular expressions, which the `regex` crate compiles and matches. What that crate
//! does is taken on trust, in the few functions of this file that call it; the rest is
//! proved from their contracts.

use crate::error::PatternError;
use crate::text::text_lines;
use vstd::prelude::*;

verus! {

/// A compiled regular expression, `regex::Regex`. Verus sees nothing inside it.
#[verifier::external_type_specification]
#[verifier::external_body]
pub struct ExRegex(regex::Regex);

/// The error of a pattern that does not compile, `regex::Error`.
#[verifier::external_type_specification]
#[verifier::external_body]
pub struct ExRegexError(regex::Error);

/// What `Regex::split` yields for the regular expression that `Regex::new` makes of
/// `pattern`, and for `text`: the parts of the text between the matches, from left to
/// right. Matches do not overlap; two matches side by side, or a match at either end
/// of the text, leave an empty part.
pub uninterp spec fn split_tokens(pattern: Seq<char>, text: Seq<char>) -> Seq<Seq<char>>;

/// The character sequences of the tokens.
pub open spec fn token_views(tokens: Seq<&str>) -> Seq<Seq<char>> {
    Seq::new(tokens.len(), |i: int| tokens[i]@)
}

/// The parts put together again, with nothing between them.
pub open spec fn joined(parts: Seq<Seq<char>>) -> Seq<char>
    decreases parts.len(),
{
    if parts.len() == 0 {
        Seq::empty()
    } else {
        joined(parts.drop_last()) + parts.last()
    }
}

/// Whether row `i` of the grid holds the tokens of line `i`, for every line.
pub open spec fn splits_lines(grid: Seq<Vec<&str>>, pattern: Seq<char>, lines: Seq<Seq<char>>) -> bool {
    &&& grid.len() == lines.len()
    &&& forall|i: int|
        0 <= i < lines.len() ==> token_views((#[trigger] grid[i])@) == split_tokens(pattern, lines[i])
}

/// A pattern together with the regular expression compiled from it. The two are made
/// in one place only, [`Matcher::new`], and never change.
pub struct Matcher {
    pattern: String,
    compiled: regex::Regex,
}

impl View for Matcher {
    type V = Seq<char>;

    /// The pattern.
    closed spec fn view(&self) -> Seq<char> {
        self.pattern@
    }
}

/// `Regex::new`: compiles a pattern, and keeps the pattern beside what came of it.
/// Whether a pattern compiles is for the crate to say.
#[verifier::external_body]
fn compile(pattern: &str) -> (r: Result<Matcher, regex::Error>)
    ensures
        r matches Ok(m) ==> m@ == pattern@,
{
    match regex::Regex::new(pattern) {
        Ok(compiled) => Ok(Matcher { pattern: pattern.to_string(), compiled }),
        Err(e) => Err(e),
    }
}

/// Tells the variants of `regex::Error` apart and moves what they hold.
#[verifier::external_body]
fn fault_of(e: regex::Error) -> PatternError {
    match e {
        regex::Error::Syntax(message) => PatternError::Syntax(message),
        regex::Error::CompiledTooBig(limit) => PatternError::TooBig(limit),
        _ => PatternError::Other,
    }
}

/// `Regex::split`, its parts collected: the parts of `text` between the matches.
#[verifier::external_body]
fn split_with<'a>(m: &Matcher, text: &'a str) -> (tokens: Vec<&'a str>)
    ensures
        token_views(tokens@) == split_tokens(m@, text@),
{
    m.compiled.split(text).collect()
}

/// `Regex::replace_all` with an empty replacement: the text without the matches. It
/// walks the same matches as `Regex::split` and keeps what lies between them, so the
/// result is the parts of the split, put together.
#[verifier::external_body]
fn remove_matches(m: &Matcher, text: &str) -> (rest: String)
    ensures
        rest@ == joined(split_tokens(m@, text@)),
{
    m.compiled.replace_all(text, "").to_string()
}

/// `str::lines` of the standard library, its lines collected.
#[verifier::external_body]
fn lines_in<'a>(text: &'a str) -> (lines: Vec<&'a str>)
    ensures
        token_views(lines@) == text_lines(text@),
{
    text.lines().collect()
}

impl Matcher {
    /// Compiles a pattern. One that does not compile is reported.
    pub fn new(pattern: &str) -> (r: Result<Matcher, PatternError>)
        ensures
            r matches Ok(m) ==> m@ == pattern@,
    {
        // Whether the pattern compiles is for the `regex` crate to say. What becomes
        // of its answer is the library's part.
        let compiled = compile(pattern);
        Matcher::from_compiled(compiled)
    }

    /// Splits `text` at the matches of the pattern. Empty tokens are kept.
    pub fn split<'a>(&self, text: &'a str) -> (tokens: Vec<&'a str>)
        ensures
            token_views(tokens@) == split_tokens(self@, text@),
    {
        split_with(self, text)
    }

    /// Removes every match of the pattern from `text`. What lies between the matches
    /// stays, in its order: the result is what [`Matcher::split`] yields, put together.
    pub fn filter(&self, text: &str) -> (rest: String)
        ensures
            rest@ == joined(split_tokens(self@, text@)),
    {
        remove_matches(self, text)
    }

    /// Splits each line of `text` at the matches of the pattern: one row of tokens for
    /// each line. No match reaches over a line ending.
    pub fn split_lines<'a>(&self, text: &'a str) -> (grid: Vec<Vec<&'a str>>)
        ensures
            splits_lines(grid@, self@, text_lines(text@)),
    {
        let lines = lines_in(text);
        let mut grid: Vec<Vec<&'a str>> = Vec::new();
        let mut i: usize = 0;
        while i < lines.len()
            invariant
                i <= lines.len(),
                token_views(lines@) == text_lines(text@),
                splits_lines(grid@, self@, text_lines(text@).take(i as int)),
            decreases lines.len() - i,
        {
            assert(token_views(lines@)[i as int] == lines[i as int]@);
            let tokens = split_with(self, lines[i]);
            grid.push(tokens);
            i += 1;
        }
        assert(text_lines(text@).take(lines.len() as int) == text_lines(text@));
        grid
    }

    /// What becomes of an attempt to compile a pattern: the matcher, where there is one,
    /// comes back as it is; where there is none, the error is reported in the library's
    /// own terms.
    pub fn from_compiled(compiled: Result<Matcher, regex::Error>) -> (r: Result<
        Matcher,
        PatternError,
    >)
        ensures
            compiled matches Ok(m) ==> r == Ok::<Matcher, PatternError>(m),
            compiled is Err ==> r is Err,
    {
        match compiled {
            Ok(m) => Ok(m),
            Err(e) => Err(fault_of(e)),
        }
    }
}

} // verus!
