//! Word-bounded keyword patterns and their matching.
//!
//! A keyword is a literal. It is matched as a whole word and without regard
//! to case: the keyword and the message text are both put in lower case, and
//! the characters of the keyword that mean something in a pattern are
//! escaped. The pattern language and the matching are those of
//! `fancy_regex`; what it returns is named here, not defined.

use fancy_regex::Error;
use fancy_regex::Regex;
use vstd::prelude::*;
use vstd::string::StringExecFns;

verus! {

/// Declares `fancy_regex::Regex`, a compiled expression, so that it can be
/// held and handed on. Nothing is known of its inside.
#[verifier::external_type_specification]
#[verifier::external_body]
pub struct ExRegex(fancy_regex::Regex);

/// Declares `fancy_regex::Error`, so that a failed compilation or search can
/// be told from a result. Nothing is known of its inside.
#[verifier::external_type_specification]
#[verifier::external_body]
pub struct ExRegexError(fancy_regex::Error);

/// What `fancy_regex::Regex::new` returns for `pattern`.
pub uninterp spec fn compiled(pattern: Seq<char>) -> Result<Regex, Error>;

/// What `fancy_regex::Regex::is_match` returns for `re` on `text`.
pub uninterp spec fn verdict(re: Regex, text: Seq<char>) -> Result<bool, Error>;

/// What `str::to_lowercase` returns for `text`.
pub uninterp spec fn lowercase(text: Seq<char>) -> Seq<char>;

/// What `fancy_regex::escape` returns for `text`: the pattern that matches
/// exactly `text`.
pub uninterp spec fn escaped(text: Seq<char>) -> Seq<char>;

/// Compiles `pattern` with the default options.
///
/// Trusted: the body is `fancy_regex::Regex::new`. The contract only names
/// its result: the same pattern always compiles to the same outcome.
#[verifier::external_body]
pub(crate) fn compile(pattern: &str) -> (r: Result<Regex, Error>)
    ensures
        r == compiled(pattern@),
{
    Regex::new(pattern)
}

/// Searches `text` for a match of `re`.
///
/// Trusted: the body is `fancy_regex::Regex::is_match`. The contract only
/// names its result: it depends on the compiled expression and the text alone.
#[verifier::external_body]
pub(crate) fn is_match(re: &Regex, text: &str) -> (r: Result<bool, Error>)
    ensures
        r == verdict(*re, text@),
{
    re.is_match(text)
}

/// The lower-case form of `text`.
///
/// Trusted: the body is `str::to_lowercase`. The contract only names its
/// result, which follows the Unicode tables.
#[verifier::external_body]
pub(crate) fn to_lowercase(text: &str) -> (r: String)
    ensures
        r@ == lowercase(text@),
{
    text.to_lowercase()
}

/// The pattern that matches exactly `text`.
///
/// Trusted: the body is `fancy_regex::escape`, which puts a backslash before
/// the characters that mean something in a pattern. The contract only names
/// its result.
#[verifier::external_body]
pub(crate) fn escape(text: &str) -> (r: String)
    ensures
        r@ == escaped(text@),
{
    fancy_regex::escape(text).into_owned()
}

/// The word-boundary assertion that stands on both sides of a keyword.
pub const ANCHOR: &'static str = "\\b";

/// The two characters of [`ANCHOR`].
pub open spec fn anchor_text() -> Seq<char> {
    seq!['\\', 'b']
}

/// The pattern that matches `keyword` as a whole word: between two anchors,
/// the keyword in lower case, escaped so that every character stands for
/// itself.
pub open spec fn word_pattern_text(keyword: Seq<char>) -> Seq<char> {
    anchor_text() + escaped(lowercase(keyword)) + anchor_text()
}

/// Whether the pattern engine takes the pattern of `keyword`.
pub open spec fn keyword_compiles(keyword: Seq<char>) -> bool {
    compiled(word_pattern_text(keyword)) is Ok
}

/// Whether `keyword` occurs as a whole word in `lowered`, read as it stands.
/// A keyword whose pattern does not compile, or whose search fails, is found
/// nowhere.
pub open spec fn found_in(keyword: Seq<char>, lowered: Seq<char>) -> bool {
    &&& compiled(word_pattern_text(keyword)) matches Ok(re)
    &&& verdict(re, lowered) matches Ok(found)
    &&& found
}

/// Whether `keyword` occurs as a whole word in `text`, whatever the case of
/// the letters on either side: the keyword in lower case is sought in the
/// lower-case form of the text.
pub open spec fn hits(keyword: Seq<char>, text: Seq<char>) -> bool {
    found_in(keyword, lowercase(text))
}

/// The anchor is a backslash and the letter b.
pub proof fn lemma_anchor_text()
    ensures
        ANCHOR@ == anchor_text(),
{
    reveal_strlit("\\b");
    assert(ANCHOR@ =~= anchor_text());
}

/// Builds the pattern that matches `keyword` as a whole word.
pub fn word_pattern(keyword: &str) -> (pattern: String)
    ensures
        pattern@ == word_pattern_text(keyword@),
{
    proof {
        lemma_anchor_text();
    }
    let lowered = to_lowercase(keyword);
    let literal = escape(lowered.as_str());
    let mut pattern = String::from_str(ANCHOR);
    pattern.append(literal.as_str());
    pattern.append(ANCHOR);
    pattern
}

/// Whether `s` begins with the two characters of the anchor.
pub open spec fn starts_with_anchor(s: Seq<char>) -> bool {
    s.len() >= 2 && s[0] == '\\' && s[1] == 'b'
}

/// `s` with every anchor taken out, reading from the left.
pub open spec fn without_anchors(s: Seq<char>) -> Seq<char>
    decreases s.len(),
{
    if s.len() == 0 {
        s
    } else if starts_with_anchor(s) {
        without_anchors(s.skip(2))
    } else {
        seq![s[0]] + without_anchors(s.skip(1))
    }
}

/// Takes every anchor out of `text`: a keyword that was given between
/// anchors comes out bare.
pub fn strip_anchors(text: &str) -> (stripped: String)
    ensures
        stripped@ == without_anchors(text@),
{
    let chars = crate::text::to_chars(text);
    let mut stripped = String::new();
    let mut i: usize = 0;
    assert(chars@.skip(0) =~= chars@);
    assert(stripped@ + without_anchors(chars@) =~= without_anchors(chars@));
    while i < chars.len()
        invariant
            i <= chars.len(),
            chars@ == text@,
            stripped@ + without_anchors(chars@.skip(i as int)) == without_anchors(chars@),
        decreases chars.len() - i,
    {
        let ghost rest = chars@.skip(i as int);
        let ghost before = stripped@;
        if chars[i] == '\\' && i + 1 < chars.len() && chars[i + 1] == 'b' {
            assert(starts_with_anchor(rest));
            assert(rest.skip(2) =~= chars@.skip(i + 2));
            i += 2;
        } else {
            assert(!starts_with_anchor(rest));
            assert(rest.skip(1) =~= chars@.skip(i + 1));
            crate::text::push_char(&mut stripped, chars[i]);
            assert(stripped@ + without_anchors(rest.skip(1)) =~= before + (seq![rest[0]]
                + without_anchors(rest.skip(1))));
            i += 1;
        }
    }
    assert(chars@.skip(chars@.len() as int) =~= Seq::<char>::empty());
    assert(stripped@ + Seq::<char>::empty() =~= stripped@);
    stripped
}

/// A keyword with its compiled pattern.
pub struct KeywordMatcher {
    keyword: String,
    regex: Regex,
}

impl KeywordMatcher {
    /// The compiled pattern is the one the keyword stands for.
    pub closed spec fn wf(&self) -> bool {
        compiled(word_pattern_text(self.keyword@)) == Ok::<Regex, Error>(self.regex)
    }

    /// What every well-formed matcher has: a keyword that compiles.
    pub proof fn lemma_wf(&self)
        requires
            self.wf(),
        ensures
            keyword_compiles(self.keyword_text()),
    {
    }

    /// The keyword, as it was given.
    pub closed spec fn keyword_text(&self) -> Seq<char> {
        self.keyword@
    }

    /// Compiles the pattern of `keyword`; `None` where the pattern engine
    /// refuses it.
    pub fn new(keyword: &str) -> (made: Option<KeywordMatcher>)
        ensures
            made is Some <==> keyword_compiles(keyword@),
            made matches Some(m) ==> m.wf() && m.keyword_text() == keyword@,
    {
        let pattern = word_pattern(keyword);
        match compile(pattern.as_str()) {
            Ok(regex) => Some(KeywordMatcher { keyword: keyword.to_owned(), regex }),
            Err(_) => None,
        }
    }

    /// The keyword, as it was given.
    pub fn keyword(&self) -> (keyword: &String)
        ensures
            keyword@ == self.keyword_text(),
    {
        &self.keyword
    }

    /// Whether the keyword occurs as a whole word in `lowered`, a text that
    /// the caller has put in lower case.
    pub fn is_found_in(&self, lowered: &str) -> (found: bool)
        requires
            self.wf(),
        ensures
            found == found_in(self.keyword_text(), lowered@),
    {
        match is_match(&self.regex, lowered) {
            Ok(found) => found,
            Err(_) => false,
        }
    }

    /// Whether the keyword occurs as a whole word in `text`, whatever the
    /// case of the letters on either side.
    pub fn is_hit(&self, text: &str) -> (hit: bool)
        requires
            self.wf(),
        ensures
            hit == hits(self.keyword_text(), text@),
    {
        let lowered = to_lowercase(text);
        self.is_found_in(lowered.as_str())
    }
}

} // verus!
