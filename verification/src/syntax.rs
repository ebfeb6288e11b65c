//! Syntax profiles: the rule table of a file type, the compiled patterns made
//! from it, and the classification of a rendered line.

use vstd::prelude::*;
use regex::Regex;
use crate::highlight::Highlight;
use crate::text::{append_str, byte_start, char_width, chars_of, ends_with, is_suffix, string_of};
use crate::text::{lemma_byte_start_monotonic, lemma_byte_start_step};

verus! {

/// A compiled regular expression of the `regex` crate; opaque here.
#[verifier::external_type_specification]
#[verifier::external_body]
pub struct ExRegex(regex::Regex);

/// The error that the `regex` crate reports for a pattern it rejects; opaque
/// here.
#[verifier::external_type_specification]
#[verifier::external_body]
pub struct ExRegexError(regex::Error);

/// Whether the pattern compiler accepts `pattern`.
pub uninterp spec fn compiles(pattern: Seq<char>) -> bool;

/// The pattern text that a compiled expression was built from.
pub uninterp spec fn regex_source(re: Regex) -> Seq<char>;

/// For every successive non-overlapping match of `re` in `text`, in order,
/// the byte range of the match's first capture group, or `None` where that
/// group took no part in the match.
pub uninterp spec fn group_spans(re: Regex, text: Seq<char>) -> Seq<Option<(usize, usize)>>;

/// Compiles a pattern.
///
/// Trusted: wraps `regex::Regex::new`. The contract names whether the
/// pattern is accepted, which depends on the pattern alone, and claims that
/// a compiled expression remembers the pattern it was given, as the crate's
/// source stores it.
#[verifier::external_body]
fn compile(pattern: &str) -> (res: Result<Regex, regex::Error>)
    ensures
        res is Ok <==> compiles(pattern@),
        res matches Ok(re) ==> regex_source(re) == pattern@,
{
    Regex::new(pattern)
}

/// The pattern text of a compiled expression.
///
/// Trusted: wraps `regex::Regex::as_str`, documented to return the pattern
/// string that the expression was built from.
#[verifier::external_body]
fn source_of(re: &Regex) -> (s: &str)
    ensures
        s@ == regex_source(*re),
{
    re.as_str()
}

/// Runs an expression over a text and reports the first capture group of
/// every match.
///
/// Trusted: wraps `regex::Regex::captures_iter`, with `Captures::get(1)`,
/// `Match::start` and `Match::end` to turn each match into plain numbers. The
/// contract only names the outcome, which depends on the expression and the
/// text alone.
#[verifier::external_body]
fn find_groups(re: &Regex, text: &str) -> (spans: Vec<Option<(usize, usize)>>)
    ensures
        spans@ == group_spans(*re, text@),
{
    let mut spans = Vec::new();
    for caps in re.captures_iter(text) {
        spans.push(caps.get(1).map(|m| (m.start(), m.end())));
    }
    spans
}

/// The rule table of one file type.
pub struct Syntax {
    pub filetype: String,
    pub filenames: Vec<String>,
    pub keywords: Vec<String>,
    pub important_keywords: String,
    pub types: Vec<String>,
    pub numbers: String,
    pub comments: String,
}

/// The character sequences of a list of strings.
pub open spec fn words(list: Seq<String>) -> Seq<Seq<char>> {
    Seq::new(list.len(), |i: int| list[i]@)
}

impl Syntax {
    /// Whether this is the empty rule table.
    pub open spec fn is_empty(&self) -> bool {
        &&& self.filetype@.len() == 0
        &&& self.filenames@.len() == 0
        &&& self.keywords@.len() == 0
        &&& self.important_keywords@.len() == 0
        &&& self.types@.len() == 0
        &&& self.numbers@.len() == 0
        &&& self.comments@.len() == 0
    }

    /// Whether one of this table's filename suffixes ends `filename`.
    pub open spec fn applies_to(&self, filename: Seq<char>) -> bool {
        exists|j: int| 0 <= j < self.filenames@.len() && is_suffix(#[trigger] self.filenames@[j]@, filename)
    }

    /// The empty rule table: no file type, no keywords, no patterns.
    pub fn new() -> (syntax: Syntax)
        ensures
            syntax.is_empty(),
    {
        Syntax {
            filetype: String::new(),
            filenames: Vec::new(),
            keywords: Vec::new(),
            important_keywords: String::new(),
            types: Vec::new(),
            numbers: String::new(),
            comments: String::new(),
        }
    }

    /// Decides whether one of this table's filename suffixes ends `filename`.
    pub fn matches_filename(&self, filename: &Vec<char>) -> (b: bool)
        ensures
            b == self.applies_to(filename@),
    {
        let mut j: usize = 0;
        while j < self.filenames.len()
            invariant
                j <= self.filenames.len(),
                forall|t: int| 0 <= t < j ==> !is_suffix(#[trigger] self.filenames@[t]@, filename@),
            decreases self.filenames.len() - j,
        {
            let ending = chars_of(self.filenames[j].as_str());
            if ends_with(filename, &ending) {
                return true;
            }
            j += 1;
        }
        false
    }
}

/// Whether `found` is the position of the first table in `candidates` that
/// applies to `filename`.
pub open spec fn is_first_applicable(candidates: Seq<Syntax>, filename: Seq<char>, found: Option<int>) -> bool {
    match found {
        Some(i) => 0 <= i < candidates.len() && candidates[i].applies_to(filename) && forall|t: int|
            0 <= t < i ==> !(#[trigger] candidates[t]).applies_to(filename),
        None => forall|t: int| 0 <= t < candidates.len() ==> !(#[trigger] candidates[t]).applies_to(filename),
    }
}

/// Picks the rule table for a file: the first candidate one of whose filename
/// suffixes ends `filename`, or the empty table when there is none.
pub fn select_syntax(filename: &str, candidates: Vec<Syntax>) -> (syntax: Syntax)
    ensures
        forall|i: int| #[trigger]
            is_first_applicable(candidates@, filename@, Some(i)) ==> syntax == candidates@[i],
        is_first_applicable(candidates@, filename@, None) ==> syntax.is_empty(),
{
    let name = chars_of(filename);
    let mut rest = candidates;
    let ghost all = rest@;
    let mut i: usize = 0;
    while i < rest.len()
        invariant
            rest@ == all,
            all == candidates@,
            name@ == filename@,
            i <= rest.len(),
            forall|t: int| 0 <= t < i ==> !(#[trigger] all[t]).applies_to(filename@),
        decreases rest.len() - i,
    {
        if rest[i].matches_filename(&name) {
            let chosen = rest.swap_remove(i);
            proof {
                assert(chosen == all[i as int]);
                assert forall|f: int| #[trigger]
                    is_first_applicable(all, filename@, Some(f)) implies f == i by {
                    if f < i {
                        assert(!all[f].applies_to(filename@));
                    }
                }
            }
            return chosen;
        }
        i += 1;
    }
    Syntax::new()
}

/// The words of `list`, separated by `sep`.
pub open spec fn joined(list: Seq<Seq<char>>, sep: char) -> Seq<char>
    decreases list.len(),
{
    if list.len() == 0 {
        Seq::empty()
    } else if list.len() == 1 {
        list[0]
    } else {
        joined(list.drop_last(), sep).push(sep) + list.last()
    }
}

/// The pattern that matches any of `list` as a whole word: the alternation of
/// the words, in one group between two word boundaries.
pub open spec fn keyword_pattern_text(list: Seq<Seq<char>>) -> Seq<char> {
    "\\b("@ + joined(list, '|') + ")\\b"@
}

/// The pattern of a token that follows a colon, with an optional reference
/// marker; the token is the pattern's first group.
pub open spec fn type_pattern_text() -> Seq<char> {
    "[^:]:\\s?(&?\\w+)"@
}

/// Builds the whole-word alternation pattern for a keyword list.
pub fn keyword_pattern(keywords: &Vec<String>) -> (pattern: String)
    ensures
        pattern@ == keyword_pattern_text(words(keywords@)),
{
    let mut buf: Vec<char> = Vec::new();
    append_str(&mut buf, "\\b(");
    let ghost head = buf@;
    let mut i: usize = 0;
    while i < keywords.len()
        invariant
            i <= keywords.len(),
            head == "\\b("@,
            buf@ == head + joined(words(keywords@).take(i as int), '|'),
        decreases keywords.len() - i,
    {
        let ghost before = words(keywords@).take(i as int);
        let ghost after = words(keywords@).take(i + 1);
        proof {
            assert(after.drop_last() =~= before);
            assert(after.last() == keywords@[i as int]@);
        }
        if i > 0 {
            buf.push('|');
        }
        append_str(&mut buf, keywords[i].as_str());
        proof {
            if i == 0 {
                assert(before =~= Seq::<Seq<char>>::empty());
                assert(buf@ =~= head + joined(after, '|'));
            } else {
                assert(buf@ =~= head + joined(after, '|'));
            }
        }
        i += 1;
    }
    proof {
        assert(words(keywords@).take(keywords.len() as int) =~= words(keywords@));
    }
    append_str(&mut buf, ")\\b");
    string_of(&buf)
}

/// Which of a profile's patterns the pattern compiler rejected.
#[derive(Clone, Copy, Debug, PartialEq, Eq, Structural)]
pub enum SyntaxError {
    Numbers,
    Types,
    Keywords,
}

/// The compiled patterns of a syntax profile. It is built once and never
/// changed afterwards.
pub struct SyntaxRe {
    numbers: Option<Regex>,
    types: Regex,
    keywords: Option<Regex>,
}

/// Whether byte range `span` holds the first byte of character `i` of `text`.
pub open spec fn covers(text: Seq<char>, span: Option<(usize, usize)>, i: int) -> bool {
    span matches Some((start, end)) && start <= byte_start(text, i) < end
}

/// Whether one of `spans` holds the first byte of character `i` of `text`.
pub open spec fn covered(text: Seq<char>, spans: Seq<Option<(usize, usize)>>, i: int) -> bool {
    exists|k: int| 0 <= k < spans.len() && covers(text, #[trigger] spans[k], i)
}

/// `base` with every character that `spans` cover reclassified as `kind`.
pub open spec fn painted(
    base: Seq<Highlight>,
    text: Seq<char>,
    spans: Seq<Option<(usize, usize)>>,
    kind: Highlight,
) -> Seq<Highlight> {
    Seq::new(
        base.len(),
        |i: int|
            if covered(text, spans, i) {
                kind
            } else {
                base[i]
            },
    )
}

/// Reclassifies as `kind` the characters of `text` whose first byte lies in
/// the byte range from `start` to `end`.
fn paint_span(highlight: &mut Vec<Highlight>, text: &Vec<char>, start: usize, end: usize, kind: Highlight)
    requires
        old(highlight).len() == text.len(),
    ensures
        final(highlight)@ == Seq::new(
            text.len() as nat,
            |j: int|
                if start <= byte_start(text@, j) < end {
                    kind
                } else {
                    old(highlight)@[j]
                },
        ),
{
    let mut i: usize = 0;
    let mut offset: u128 = 0;
    while i < text.len() && offset < end as u128
        invariant
            i <= text.len(),
            highlight.len() == text.len(),
            offset == byte_start(text@, i as int),
            offset <= 4 * i,
            forall|j: int|
                0 <= j < i ==> highlight@[j] == if start <= byte_start(text@, j) < end {
                    kind
                } else {
                    old(highlight)@[j]
                },
            forall|j: int| i <= j < text.len() ==> highlight@[j] == old(highlight)@[j],
        decreases text.len() - i,
    {
        proof {
            lemma_byte_start_step(text@, i as int);
        }
        if offset >= start as u128 {
            highlight.set(i, kind);
        }
        offset = offset + char_width(text[i]) as u128;
        i += 1;
    }
    proof {
        assert forall|j: int| 0 <= j < text.len() implies highlight@[j] == if start <= byte_start(
            text@,
            j,
        ) < end {
            kind
        } else {
            old(highlight)@[j]
        } by {
            if j >= i {
                lemma_byte_start_monotonic(text@, i as int, j);
            }
        }
        assert(highlight@ =~= Seq::new(
            text.len() as nat,
            |j: int|
                if start <= byte_start(text@, j) < end {
                    kind
                } else {
                    old(highlight)@[j]
                },
        ));
    }
}

/// Reclassifies as `kind` every character of `text` that one of `spans`
/// covers, and leaves the others as they were.
pub fn paint(
    highlight: &mut Vec<Highlight>,
    text: &Vec<char>,
    spans: &Vec<Option<(usize, usize)>>,
    kind: Highlight,
)
    requires
        old(highlight).len() == text.len(),
    ensures
        final(highlight)@ == painted(old(highlight)@, text@, spans@, kind),
{
    let mut k: usize = 0;
    proof {
        assert(highlight@ =~= painted(old(highlight)@, text@, spans@.take(0), kind));
    }
    while k < spans.len()
        invariant
            k <= spans.len(),
            highlight.len() == text.len(),
            highlight@ == painted(old(highlight)@, text@, spans@.take(k as int), kind),
        decreases spans.len() - k,
    {
        let ghost before = highlight@;
        match spans[k] {
            Some((start, end)) => {
                paint_span(highlight, text, start, end, kind);
            },
            None => {},
        }
        proof {
            let seen = spans@.take(k as int);
            let next = spans@.take(k + 1);
            assert forall|j: int| 0 <= j < text.len() implies highlight@[j] == painted(
                old(highlight)@,
                text@,
                next,
                kind,
            )[j] by {
                if covers(text@, spans@[k as int], j) {
                    assert(next[k as int] == spans@[k as int]);
                    assert(covered(text@, next, j));
                } else if covered(text@, seen, j) {
                    let w = choose|w: int| 0 <= w < seen.len() && covers(text@, #[trigger] seen[w], j);
                    assert(next[w] == seen[w]);
                    assert(covered(text@, next, j));
                } else {
                    if covered(text@, next, j) {
                        let w = choose|w: int| 0 <= w < next.len() && covers(text@, #[trigger] next[w], j);
                        if w < k {
                            assert(seen[w] == next[w]);
                        }
                    }
                    assert(!covered(text@, next, j));
                }
            }
            assert(highlight@ =~= painted(old(highlight)@, text@, next, kind));
        }
        k += 1;
    }
    proof {
        assert(spans@.take(spans.len() as int) =~= spans@);
    }
}

/// The classification of every character of `text` under `profile`: normal
/// by default, then numbers, then types, then keywords, each later class
/// painted over the earlier ones.
pub open spec fn highlight_of(profile: SyntaxRe, text: Seq<char>) -> Seq<Highlight> {
    let plain = Seq::new(text.len(), |i: int| Highlight::Normal);
    let numbered = match profile.numbers() {
        Some(re) => painted(plain, text, group_spans(re, text), Highlight::Number),
        None => plain,
    };
    let typed = painted(numbered, text, group_spans(profile.types(), text), Highlight::Type);
    match profile.keywords() {
        Some(re) => painted(typed, text, group_spans(re, text), Highlight::Keyword),
        None => typed,
    }
}

/// A classification holds one class for every character of the text.
pub proof fn lemma_highlight_len(profile: SyntaxRe, text: Seq<char>)
    ensures
        highlight_of(profile, text).len() == text.len(),
{
}

impl SyntaxRe {
    /// The pattern for numeric literals, where the profile has one.
    pub closed spec fn numbers(&self) -> Option<Regex> {
        self.numbers
    }

    /// The pattern for type tokens.
    pub closed spec fn types(&self) -> Regex {
        self.types
    }

    /// The pattern for keywords, where the profile has any.
    pub closed spec fn keywords(&self) -> Option<Regex> {
        self.keywords
    }

    /// Whether these are the patterns of `syntax`: its numeric pattern where
    /// it is not empty, the fixed type pattern, and the whole-word
    /// alternation of its keywords where it has any.
    pub open spec fn compiled_from(&self, syntax: &Syntax) -> bool {
        &&& match self.numbers() {
            Some(re) => syntax.numbers@.len() > 0 && regex_source(re) == syntax.numbers@,
            None => syntax.numbers@.len() == 0,
        }
        &&& regex_source(self.types()) == type_pattern_text()
        &&& match self.keywords() {
            Some(re) => syntax.keywords@.len() > 0 && regex_source(re) == keyword_pattern_text(
                words(syntax.keywords@),
            ),
            None => syntax.keywords@.len() == 0,
        }
    }

    /// Assembles a profile from the outcomes of compiling its patterns. The
    /// first rejected pattern, in the order numbers, types, keywords, is
    /// reported.
    pub fn from_compiled(
        numbers: Option<Result<Regex, regex::Error>>,
        types: Result<Regex, regex::Error>,
        keywords: Option<Result<Regex, regex::Error>>,
    ) -> (res: Result<SyntaxRe, SyntaxError>)
        ensures
            match res {
                Ok(profile) => {
                    &&& !(numbers matches Some(Err(_)))
                    &&& types is Ok
                    &&& !(keywords matches Some(Err(_)))
                    &&& profile.numbers() == match numbers {
                        Some(Ok(re)) => Some(re),
                        _ => None,
                    }
                    &&& Ok::<Regex, regex::Error>(profile.types()) == types
                    &&& profile.keywords() == match keywords {
                        Some(Ok(re)) => Some(re),
                        _ => None,
                    }
                },
                Err(SyntaxError::Numbers) => numbers matches Some(Err(_)),
                Err(SyntaxError::Types) => !(numbers matches Some(Err(_))) && types is Err,
                Err(SyntaxError::Keywords) => !(numbers matches Some(Err(_))) && types is Ok
                    && keywords matches Some(Err(_)),
            },
    {
        let numbers = match numbers {
            Some(Ok(re)) => Some(re),
            Some(Err(_)) => {
                return Err(SyntaxError::Numbers);
            },
            None => None,
        };
        let types = match types {
            Ok(re) => re,
            Err(_) => {
                return Err(SyntaxError::Types);
            },
        };
        let keywords = match keywords {
            Some(Ok(re)) => Some(re),
            Some(Err(_)) => {
                return Err(SyntaxError::Keywords);
            },
            None => None,
        };
        Ok(SyntaxRe { numbers, types, keywords })
    }

    /// Whether the pattern compiler accepts every pattern of `syntax`: its
    /// numeric pattern where it is not empty, the fixed type pattern, and
    /// the whole-word alternation of its keywords where it has any.
    pub open spec fn accepted(syntax: &Syntax) -> bool {
        &&& syntax.numbers@.len() == 0 || compiles(syntax.numbers@)
        &&& compiles(type_pattern_text())
        &&& syntax.keywords@.len() == 0 || compiles(keyword_pattern_text(words(syntax.keywords@)))
    }

    /// Compiles the patterns of `syntax`. It succeeds exactly where the
    /// pattern compiler accepts them all, and the result then holds exactly
    /// the patterns of `syntax`. Otherwise the first rejected pattern, in the
    /// order numbers, types, keywords, is reported.
    pub fn new(syntax: &Syntax) -> (res: Result<SyntaxRe, SyntaxError>)
        ensures
            res is Ok <==> SyntaxRe::accepted(syntax),
            res matches Ok(profile) ==> profile.compiled_from(syntax),
            res == Err::<SyntaxRe, SyntaxError>(SyntaxError::Numbers) <==> syntax.numbers@.len() > 0
                && !compiles(syntax.numbers@),
            res == Err::<SyntaxRe, SyntaxError>(SyntaxError::Types) <==> (syntax.numbers@.len() == 0
                || compiles(syntax.numbers@)) && !compiles(type_pattern_text()),
            res == Err::<SyntaxRe, SyntaxError>(SyntaxError::Keywords) <==> (syntax.numbers@.len() == 0
                || compiles(syntax.numbers@)) && compiles(type_pattern_text()) && syntax.keywords@.len()
                > 0 && !compiles(keyword_pattern_text(words(syntax.keywords@))),
    {
        let numbers = if syntax.numbers.as_str().is_empty() {
            None
        } else {
            Some(compile(syntax.numbers.as_str()))
        };
        let types = compile("[^:]:\\s?(&?\\w+)");
        let keywords = if syntax.keywords.len() > 0 {
            let pattern = keyword_pattern(&syntax.keywords);
            Some(compile(pattern.as_str()))
        } else {
            None
        };
        SyntaxRe::from_compiled(numbers, types, keywords)
    }

    /// The texts of the patterns held: numbers, types, keywords.
    pub fn patterns(&self) -> (texts: (Option<String>, String, Option<String>))
        ensures
            match (texts.0, self.numbers()) {
                (Some(text), Some(re)) => text@ == regex_source(re),
                (None, None) => true,
                _ => false,
            },
            texts.1@ == regex_source(self.types()),
            match (texts.2, self.keywords()) {
                (Some(text), Some(re)) => text@ == regex_source(re),
                (None, None) => true,
                _ => false,
            },
    {
        let numbers = match &self.numbers {
            Some(re) => Some(source_of(re).to_owned()),
            None => None,
        };
        let types = source_of(&self.types).to_owned();
        let keywords = match &self.keywords {
            Some(re) => Some(source_of(re).to_owned()),
            None => None,
        };
        (numbers, types, keywords)
    }

    /// Classifies every character of a rendered line.
    pub fn classify(&self, render: &Vec<char>) -> (highlight: Vec<Highlight>)
        ensures
            highlight@ == highlight_of(*self, render@),
    {
        let text = string_of(render);
        let mut highlight: Vec<Highlight> = Vec::new();
        let mut i: usize = 0;
        while i < render.len()
            invariant
                i <= render.len(),
                highlight@ == Seq::new(i as nat, |j: int| Highlight::Normal),
            decreases render.len() - i,
        {
            highlight.push(Highlight::Normal);
            proof {
                assert(highlight@ =~= Seq::new((i + 1) as nat, |j: int| Highlight::Normal));
            }
            i += 1;
        }
        match &self.numbers {
            Some(re) => {
                let spans = find_groups(re, text.as_str());
                paint(&mut highlight, render, &spans, Highlight::Number);
            },
            None => {},
        }
        let spans = find_groups(&self.types, text.as_str());
        paint(&mut highlight, render, &spans, Highlight::Type);
        match &self.keywords {
            Some(re) => {
                let spans = find_groups(re, text.as_str());
                paint(&mut highlight, render, &spans, Highlight::Keyword);
            },
            None => {},
        }
        highlight
    }
}

} // verus!
