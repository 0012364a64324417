//! Conservative local text-cleanup suggestions for recent dictation text.
//!
//! This module deliberately does not claim semantic grammar understanding. It returns
//! byte-addressed, Unicode-safe edits so that each change can be reviewed before it is applied.
//! Nothing here mutates an input context automatically.

use crate::text::{
    ascii_alphanumeric, ascii_lower, byte_count, byte_length, byte_offsets, contains,
    contains_text, begins, from_chars, hex_digits, is_ascii_lower, is_white_space, join2,
    lemma_byte_length_grows, lower_ascii, lowered, same_text, starts_with, to_chars,
    to_lower_ascii, white_space, write_hex,
};
use vstd::prelude::*;
use vstd::string::*;
use vstd::utf8::*;

verus! {

#[derive(Clone, Copy, Debug, Eq, PartialEq, Structural)]
pub enum EditSafety {
    Safe,
    Review,
}

#[derive(Clone, Copy, Debug, Eq, PartialEq, Structural)]
pub enum EditConfidence {
    High,
    Medium,
}

impl EditSafety {
    pub open spec fn word(self) -> Seq<char> {
        match self {
            EditSafety::Safe => "safe"@,
            EditSafety::Review => "review"@,
        }
    }

    /// The word that clients are told.
    pub fn name(self) -> (r: &'static str)
        ensures
            r@ == self.word(),
    {
        match self {
            EditSafety::Safe => "safe",
            EditSafety::Review => "review",
        }
    }
}

impl EditConfidence {
    pub open spec fn word(self) -> Seq<char> {
        match self {
            EditConfidence::High => "high"@,
            EditConfidence::Medium => "medium"@,
        }
    }

    /// The word that clients are told.
    pub fn name(self) -> (r: &'static str)
        ensures
            r@ == self.word(),
    {
        match self {
            EditConfidence::High => "high",
            EditConfidence::Medium => "medium",
        }
    }
}

#[derive(Clone, Debug, Eq, PartialEq)]
pub struct CleanupEdit {
    pub start_byte: usize,
    pub end_byte: usize,
    pub original: String,
    pub replacement: String,
    pub rule_id: &'static str,
    pub message: &'static str,
    pub safety: EditSafety,
    pub confidence: EditConfidence,
}

#[derive(Clone, Debug, Eq, PartialEq)]
pub struct GrammarReport {
    pub schema: u8,
    pub clean: bool,
    pub original_fingerprint: String,
    pub original_bytes: usize,
    pub original_characters: usize,
    pub suggested: String,
    pub safe_edit_count: usize,
    pub review_edit_count: usize,
    pub edits: Vec<CleanupEdit>,
}

impl GrammarReport {
    pub fn is_clean(&self) -> (r: bool)
        ensures
            r == self.clean,
    {
        self.clean
    }
}

/// The rules, in the order in which they take precedence.
#[derive(Clone, Copy, Debug, Eq, PartialEq, Structural)]
pub enum Rule {
    LeadingSpace,
    TrailingSpace,
    RepeatedWord,
    PunctuationSpacing,
    RepeatedPunctuation,
    RepeatedSpace,
    SentenceCase,
}

impl Rule {
    pub open spec fn id(self) -> Seq<char> {
        match self {
            Rule::LeadingSpace => "cleanup.outer-whitespace"@,
            Rule::TrailingSpace => "cleanup.outer-whitespace"@,
            Rule::RepeatedWord => "cleanup.repeated-word"@,
            Rule::PunctuationSpacing => "cleanup.punctuation-spacing"@,
            Rule::RepeatedPunctuation => "cleanup.repeated-punctuation"@,
            Rule::RepeatedSpace => "cleanup.repeated-whitespace"@,
            Rule::SentenceCase => "cleanup.sentence-case"@,
        }
    }

    pub open spec fn text(self) -> Seq<char> {
        match self {
            Rule::LeadingSpace => "Remove leading horizontal whitespace"@,
            Rule::TrailingSpace => "Remove trailing horizontal whitespace"@,
            Rule::RepeatedWord => "Remove an adjacent repeated word"@,
            Rule::PunctuationSpacing => "Remove horizontal whitespace before punctuation"@,
            Rule::RepeatedPunctuation => "Collapse repeated punctuation"@,
            Rule::RepeatedSpace => "Collapse repeated horizontal whitespace"@,
            Rule::SentenceCase => "Capitalize an ASCII sentence beginning"@,
        }
    }

    pub open spec fn caution(self) -> EditSafety {
        match self {
            Rule::LeadingSpace => EditSafety::Safe,
            Rule::TrailingSpace => EditSafety::Safe,
            Rule::RepeatedWord => EditSafety::Review,
            Rule::PunctuationSpacing => EditSafety::Safe,
            Rule::RepeatedPunctuation => EditSafety::Review,
            Rule::RepeatedSpace => EditSafety::Review,
            Rule::SentenceCase => EditSafety::Review,
        }
    }

    pub open spec fn certainty(self) -> EditConfidence {
        match self {
            Rule::LeadingSpace => EditConfidence::High,
            Rule::TrailingSpace => EditConfidence::High,
            Rule::RepeatedWord => EditConfidence::Medium,
            Rule::PunctuationSpacing => EditConfidence::High,
            Rule::RepeatedPunctuation => EditConfidence::Medium,
            Rule::RepeatedSpace => EditConfidence::High,
            Rule::SentenceCase => EditConfidence::Medium,
        }
    }

    /// The rank of the rule; a lower one takes precedence.
    pub open spec fn rank(self) -> nat {
        match self {
            Rule::LeadingSpace => 0,
            Rule::TrailingSpace => 0,
            Rule::RepeatedWord => 1,
            Rule::PunctuationSpacing => 2,
            Rule::RepeatedPunctuation => 3,
            Rule::RepeatedSpace => 4,
            Rule::SentenceCase => 5,
        }
    }

    pub fn rule_id(self) -> (r: &'static str)
        ensures
            r@ == self.id(),
    {
        match self {
            Rule::LeadingSpace => "cleanup.outer-whitespace",
            Rule::TrailingSpace => "cleanup.outer-whitespace",
            Rule::RepeatedWord => "cleanup.repeated-word",
            Rule::PunctuationSpacing => "cleanup.punctuation-spacing",
            Rule::RepeatedPunctuation => "cleanup.repeated-punctuation",
            Rule::RepeatedSpace => "cleanup.repeated-whitespace",
            Rule::SentenceCase => "cleanup.sentence-case",
        }
    }

    pub fn message(self) -> (r: &'static str)
        ensures
            r@ == self.text(),
    {
        match self {
            Rule::LeadingSpace => "Remove leading horizontal whitespace",
            Rule::TrailingSpace => "Remove trailing horizontal whitespace",
            Rule::RepeatedWord => "Remove an adjacent repeated word",
            Rule::PunctuationSpacing => "Remove horizontal whitespace before punctuation",
            Rule::RepeatedPunctuation => "Collapse repeated punctuation",
            Rule::RepeatedSpace => "Collapse repeated horizontal whitespace",
            Rule::SentenceCase => "Capitalize an ASCII sentence beginning",
        }
    }

    pub fn safety(self) -> (r: EditSafety)
        ensures
            r == self.caution(),
    {
        match self {
            Rule::LeadingSpace => EditSafety::Safe,
            Rule::TrailingSpace => EditSafety::Safe,
            Rule::RepeatedWord => EditSafety::Review,
            Rule::PunctuationSpacing => EditSafety::Safe,
            Rule::RepeatedPunctuation => EditSafety::Review,
            Rule::RepeatedSpace => EditSafety::Review,
            Rule::SentenceCase => EditSafety::Review,
        }
    }

    pub fn confidence(self) -> (r: EditConfidence)
        ensures
            r == self.certainty(),
    {
        match self {
            Rule::LeadingSpace => EditConfidence::High,
            Rule::TrailingSpace => EditConfidence::High,
            Rule::RepeatedWord => EditConfidence::Medium,
            Rule::PunctuationSpacing => EditConfidence::High,
            Rule::RepeatedPunctuation => EditConfidence::Medium,
            Rule::RepeatedSpace => EditConfidence::High,
            Rule::SentenceCase => EditConfidence::Medium,
        }
    }
}

/// A proposed change: the characters from `start` up to `end` give way to `insert`.
pub struct Mark {
    pub start: int,
    pub end: int,
    pub rule: Rule,
    pub insert: Option<char>,
}

#[derive(Clone, Copy)]
struct Candidate {
    start: usize,
    end: usize,
    rule: Rule,
    insert: Option<char>,
}

impl Candidate {
    spec fn view(&self) -> Mark {
        Mark {
            start: self.start as int,
            end: self.end as int,
            rule: self.rule,
            insert: self.insert,
        }
    }
}

spec fn marks(candidates: Seq<Candidate>) -> Seq<Mark> {
    candidates.map_values(|c: Candidate| c@)
}

proof fn lemma_marks_push(
    before: Seq<Mark>,
    list: Seq<Mark>,
    candidates: Seq<Candidate>,
    added: Candidate,
)
    requires
        marks(candidates) == before + list,
    ensures
        marks(candidates.push(added)) == before + list.push(added@),
{
    assert(marks(candidates.push(added)) =~= marks(candidates).push(added@));
    assert((before + list).push(added@) =~= before + list.push(added@));
}

/// The change lies in the text and takes no line break out of it.
pub open spec fn proper(text: Seq<char>, mark: Mark) -> bool {
    &&& 0 <= mark.start <= mark.end <= text.len()
    &&& forall|i: int| mark.start <= i < mark.end ==> #[trigger] text[i] != '\n'
    &&& mark.insert != Some('\n')
}

spec fn all_proper(text: Seq<char>, candidates: Seq<Candidate>) -> bool {
    forall|i: int| 0 <= i < candidates.len() ==> proper(text, (#[trigger] candidates[i])@)
}

pub open spec fn horizontal(c: char) -> bool {
    c == ' ' || c == '\t' || c == '\u{00a0}' || c == '\u{3000}'
}

fn is_horizontal_whitespace(c: char) -> (r: bool)
    ensures
        r == horizontal(c),
{
    c == ' ' || c == '\t' || c == '\u{00a0}' || c == '\u{3000}'
}

pub open spec fn collapsible(c: char) -> bool {
    c == ',' || c == ';' || c == ':' || c == '!' || c == '?' || c == '，' || c == '；' || c == '：'
        || c == '！' || c == '？'
}

fn is_collapsible_punctuation(c: char) -> (r: bool)
    ensures
        r == collapsible(c),
{
    c == ',' || c == ';' || c == ':' || c == '!' || c == '?' || c == '，' || c == '；' || c == '：'
        || c == '！' || c == '？'
}

pub open spec fn sentence_punctuation(c: char) -> bool {
    collapsible(c) || c == '.' || c == '。'
}

fn is_sentence_punctuation(c: char) -> (r: bool)
    ensures
        r == sentence_punctuation(c),
{
    is_collapsible_punctuation(c) || c == '.' || c == '。'
}

pub open spec fn opening_quote(c: char) -> bool {
    c == '"' || c == '\'' || c == '“' || c == '‘' || c == '(' || c == '[' || c == '{'
}

fn is_opening_quote(c: char) -> (r: bool)
    ensures
        r == opening_quote(c),
{
    c == '"' || c == '\'' || c == '“' || c == '‘' || c == '(' || c == '[' || c == '{'
}

pub open spec fn sentence_terminator(c: char) -> bool {
    c == '.' || c == '!' || c == '?' || c == '。' || c == '！' || c == '？'
}

fn is_sentence_terminator(c: char) -> (r: bool)
    ensures
        r == sentence_terminator(c),
{
    c == '.' || c == '!' || c == '?' || c == '。' || c == '！' || c == '？'
}

/// What `char::is_alphanumeric` says of a character.
pub uninterp spec fn alphanumeric(c: char) -> bool;

/// `char::is_alphanumeric` of the standard library: whether Unicode calls the character a letter
/// or a number. Of an ASCII character that is the case for letters and digits.
#[verifier::external_body]
fn is_alphanumeric(c: char) -> (r: bool)
    ensures
        r == alphanumeric(c),
        c as u32 <= 127 ==> r == ascii_alphanumeric(c),
{
    c.is_alphanumeric()
}

/// Where the run of horizontal white space that begins at `i` ends.
pub open spec fn spaces_end(text: Seq<char>, i: int) -> int
    decreases text.len() - i,
{
    if 0 <= i < text.len() && horizontal(text[i]) {
        spaces_end(text, i + 1)
    } else {
        i
    }
}

/// Where the run of horizontal white space that ends at `i` begins.
pub open spec fn spaces_start(text: Seq<char>, i: int) -> int
    decreases i,
{
    if 0 < i <= text.len() && horizontal(text[i - 1]) {
        spaces_start(text, i - 1)
    } else {
        i
    }
}

/// Where the run of one and the same character that holds `i` begins.
pub open spec fn same_start(text: Seq<char>, i: int) -> int
    decreases i,
{
    if 0 < i < text.len() && text[i - 1] == text[i] {
        same_start(text, i - 1)
    } else {
        i
    }
}

/// Where the token that holds `i` begins.
pub open spec fn token_start(text: Seq<char>, i: int) -> int
    decreases i,
{
    if 0 < i < text.len() && !white_space(text[i - 1]) {
        token_start(text, i - 1)
    } else {
        i
    }
}

fn find_spaces_end(text: &[char], from: usize) -> (r: usize)
    requires
        from <= text@.len(),
    ensures
        r == spaces_end(text@, from as int),
        from <= r <= text@.len(),
        forall|j: int| from <= j < r ==> horizontal(#[trigger] text@[j]),
{
    let mut at: usize = from;
    while at < text.len() && is_horizontal_whitespace(text[at])
        invariant
            from <= at <= text@.len(),
            spaces_end(text@, from as int) == spaces_end(text@, at as int),
            forall|j: int| from <= j < at ==> horizontal(#[trigger] text@[j]),
        decreases text@.len() - at,
    {
        at += 1;
    }
    at
}

fn find_spaces_start(text: &[char], from: usize) -> (r: usize)
    requires
        from <= text@.len(),
    ensures
        r == spaces_start(text@, from as int),
        r <= from,
        forall|j: int| r <= j < from ==> horizontal(#[trigger] text@[j]),
{
    let mut at: usize = from;
    while at > 0 && is_horizontal_whitespace(text[at - 1])
        invariant
            at <= from <= text@.len(),
            spaces_start(text@, from as int) == spaces_start(text@, at as int),
            forall|j: int| at <= j < from ==> horizontal(#[trigger] text@[j]),
        decreases at,
    {
        at -= 1;
    }
    at
}

fn find_same_start(text: &[char], from: usize) -> (r: usize)
    requires
        from < text@.len(),
    ensures
        r == same_start(text@, from as int),
        r <= from,
        forall|j: int| r <= j <= from ==> #[trigger] text@[j] == text@[from as int],
{
    let mut at: usize = from;
    while at > 0 && text[at - 1] == text[at]
        invariant
            at <= from < text@.len(),
            same_start(text@, from as int) == same_start(text@, at as int),
            forall|j: int| at <= j <= from ==> #[trigger] text@[j] == text@[from as int],
        decreases at,
    {
        at -= 1;
    }
    at
}

fn find_token_start(text: &[char], from: usize) -> (r: usize)
    requires
        from < text@.len(),
        !white_space(text@[from as int]),
    ensures
        r == token_start(text@, from as int),
        r <= from,
        forall|j: int| r <= j <= from ==> !white_space(#[trigger] text@[j]),
        r > 0 ==> white_space(text@[r - 1]),
{
    let mut at: usize = from;
    while at > 0 && !is_white_space(text[at - 1])
        invariant
            at <= from < text@.len(),
            token_start(text@, from as int) == token_start(text@, at as int),
            forall|j: int| at <= j <= from ==> !white_space(#[trigger] text@[j]),
        decreases at,
    {
        at -= 1;
    }
    at
}

/// White space at the beginning and at the end goes.
pub open spec fn outer_marks(text: Seq<char>) -> Seq<Mark> {
    let leading = spaces_end(text, 0);
    let trailing = spaces_start(text, text.len() as int);
    let first = if leading > 0 {
        seq![Mark { start: 0, end: leading, rule: Rule::LeadingSpace, insert: None }]
    } else {
        Seq::empty()
    };
    let last = if trailing < text.len() && trailing >= leading {
        seq![
            Mark {
                start: trailing,
                end: text.len() as int,
                rule: Rule::TrailingSpace,
                insert: None,
            },
        ]
    } else {
        Seq::empty()
    };
    first + last
}

fn outer_horizontal_whitespace(text: &[char], candidates: &mut Vec<Candidate>)
    requires
        all_proper(text@, old(candidates)@),
    ensures
        all_proper(text@, final(candidates)@),
        marks(final(candidates)@) == marks(old(candidates)@) + outer_marks(text@),
{
    let leading: usize = find_spaces_end(text, 0);
    let trailing: usize = find_spaces_start(text, text.len());
    if leading > 0 {
        candidates.push(
            Candidate { start: 0, end: leading, rule: Rule::LeadingSpace, insert: None },
        );
    }
    if trailing < text.len() && trailing >= leading {
        candidates.push(
            Candidate {
                start: trailing,
                end: text.len(),
                rule: Rule::TrailingSpace,
                insert: None,
            },
        );
    }
}

/// The first `n` characters end a token at their last one.
pub open spec fn token_ends(text: Seq<char>, n: int) -> bool {
    0 < n <= text.len() && !white_space(text[n - 1]) && (n == text.len() || white_space(text[n]))
}

/// The tokens that end within the first `n` characters, each from its start to its end.
pub open spec fn tokens(text: Seq<char>, n: int) -> Seq<(int, int)>
    decreases n,
{
    if n <= 0 {
        Seq::empty()
    } else if token_ends(text, n) {
        tokens(text, n - 1).push((token_start(text, n - 1), n))
    } else {
        tokens(text, n - 1)
    }
}

#[derive(Clone, Copy)]
struct Span {
    start: usize,
    end: usize,
}

spec fn spans_are(spans: Seq<Span>, model: Seq<(int, int)>) -> bool {
    &&& spans.len() == model.len()
    &&& forall|k: int|
        0 <= k < spans.len() ==> (#[trigger] spans[k]).start == model[k].0 && spans[k].end
            == model[k].1
}

spec fn span_ok(text: Seq<char>, span: Span) -> bool {
    &&& span.start < span.end <= text.len()
    &&& forall|j: int| span.start <= j < span.end ==> !white_space(#[trigger] text[j])
}

fn token_spans(text: &[char]) -> (spans: Vec<Span>)
    ensures
        spans_are(spans@, tokens(text@, text@.len() as int)),
        forall|k: int| 0 <= k < spans@.len() ==> span_ok(text@, #[trigger] spans@[k]),
        forall|k: int, l: int|
            0 <= k < l < spans@.len() ==> (#[trigger] spans@[k]).end <= (#[trigger] spans@[l]).start,
{
    let mut spans: Vec<Span> = Vec::new();
    let total: usize = text.len();
    for i in 0..total
        invariant
            total == text@.len(),
            spans_are(spans@, tokens(text@, i as int)),
            forall|k: int| 0 <= k < spans@.len() ==> span_ok(text@, #[trigger] spans@[k]),
            forall|k: int| 0 <= k < spans@.len() ==> (#[trigger] spans@[k]).end <= i,
            forall|k: int|
                0 <= k < spans@.len() && (#[trigger] spans@[k]).end < total ==> white_space(
                    text@[spans@[k].end as int],
                ),
            forall|k: int, l: int|
                0 <= k < l < spans@.len() ==> (#[trigger] spans@[k]).end
                    <= (#[trigger] spans@[l]).start,
    {
        if !is_white_space(text[i]) && (i + 1 == total || is_white_space(text[i + 1])) {
            let start: usize = find_token_start(text, i);
            proof {
                assert forall|k: int| 0 <= k < spans@.len() implies (#[trigger] spans@[k]).end
                    <= start by {
                    if spans@[k].end > start {
                        assert(!white_space(text@[spans@[k].end as int]));
                    }
                }
            }
            spans.push(Span { start, end: i + 1 });
        }
    }
    spans
}

/// Where the part of a token between its outer punctuation marks begins.
pub open spec fn core_start(text: Seq<char>, start: int, end: int) -> int
    decreases end - start,
{
    if start < end && sentence_punctuation(text[start]) {
        core_start(text, start + 1, end)
    } else {
        start
    }
}

/// Where the part of a token between its outer punctuation marks ends.
pub open spec fn core_end(text: Seq<char>, start: int, end: int) -> int
    decreases end - start,
{
    if start < end && sentence_punctuation(text[end - 1]) {
        core_end(text, start, end - 1)
    } else {
        end
    }
}

/// The word that a token holds: the token without its outer punctuation marks.
pub open spec fn word_of(text: Seq<char>, token: (int, int)) -> (int, int) {
    let start = core_start(text, token.0, token.1);
    (start, core_end(text, start, token.1))
}

/// A letter or a number stands between `start` and `end`.
pub open spec fn has_letter(text: Seq<char>, start: int, end: int) -> bool {
    exists|j: int| start <= j < end && alphanumeric(#[trigger] text[j])
}

/// A line break stands between `start` and `end`.
pub open spec fn has_newline(text: Seq<char>, start: int, end: int) -> bool {
    exists|j: int| start <= j < end && #[trigger] text[j] == '\n'
}

/// The second token repeats the word of the first one on the same line.
pub open spec fn repeats(text: Seq<char>, first: (int, int), second: (int, int)) -> bool {
    let a = word_of(text, first);
    let b = word_of(text, second);
    &&& has_letter(text, a.0, a.1)
    &&& has_letter(text, b.0, b.1)
    &&& lowered(text.subrange(a.0, a.1)) == lowered(text.subrange(b.0, b.1))
    &&& !has_newline(text, first.1, second.0)
    &&& b.0 == second.0
}

/// The second of two equal words in a row goes, with the space before it.
pub open spec fn repeated_word_marks(
    text: Seq<char>,
    spans: Seq<(int, int)>,
    n: int,
) -> Seq<Mark>
    decreases n,
{
    if n < 2 {
        Seq::empty()
    } else if repeats(text, spans[n - 2], spans[n - 1]) {
        repeated_word_marks(text, spans, n - 1).push(
            Mark {
                start: spans[n - 2].1,
                end: word_of(text, spans[n - 1]).1,
                rule: Rule::RepeatedWord,
                insert: None,
            },
        )
    } else {
        repeated_word_marks(text, spans, n - 1)
    }
}

fn find_word(text: &[char], span: Span) -> (r: Span)
    requires
        span.start <= span.end <= text@.len(),
    ensures
        (r.start as int, r.end as int) == word_of(text@, (span.start as int, span.end as int)),
        span.start <= r.start <= r.end <= span.end,
{
    let mut start: usize = span.start;
    while start < span.end && is_sentence_punctuation(text[start])
        invariant
            span.start <= start <= span.end <= text@.len(),
            core_start(text@, span.start as int, span.end as int) == core_start(
                text@,
                start as int,
                span.end as int,
            ),
        decreases span.end - start,
    {
        start += 1;
    }
    let mut end: usize = span.end;
    while start < end && is_sentence_punctuation(text[end - 1])
        invariant
            start <= end <= span.end <= text@.len(),
            core_end(text@, start as int, span.end as int) == core_end(
                text@,
                start as int,
                end as int,
            ),
        decreases end,
    {
        end -= 1;
    }
    Span { start, end }
}

fn any_letter(text: &[char], span: Span) -> (r: bool)
    requires
        span.start <= span.end <= text@.len(),
    ensures
        r == has_letter(text@, span.start as int, span.end as int),
{
    for i in span.start..span.end
        invariant
            span.end <= text@.len(),
            forall|j: int| span.start <= j < i ==> !alphanumeric(#[trigger] text@[j]),
    {
        if is_alphanumeric(text[i]) {
            return true;
        }
    }
    false
}

fn any_newline(text: &[char], start: usize, end: usize) -> (r: bool)
    requires
        start <= end <= text@.len(),
    ensures
        r == has_newline(text@, start as int, end as int),
{
    for i in start..end
        invariant
            end <= text@.len(),
            forall|j: int| start <= j < i ==> #[trigger] text@[j] != '\n',
    {
        if text[i] == '\n' {
            return true;
        }
    }
    false
}

/// Two parts of the text are the same apart from the case of ASCII letters.
fn same_lowered(text: &[char], a: Span, b: Span) -> (r: bool)
    requires
        a.start <= a.end <= text@.len(),
        b.start <= b.end <= text@.len(),
    ensures
        r == (lowered(text@.subrange(a.start as int, a.end as int)) == lowered(
            text@.subrange(b.start as int, b.end as int),
        )),
{
    let ghost left = lowered(text@.subrange(a.start as int, a.end as int));
    let ghost right = lowered(text@.subrange(b.start as int, b.end as int));
    if a.end - a.start != b.end - b.start {
        assert(left.len() != right.len());
        return false;
    }
    for i in 0..a.end - a.start
        invariant
            a.start <= a.end <= text@.len(),
            b.start <= b.end <= text@.len(),
            a.end - a.start == b.end - b.start,
            left == lowered(text@.subrange(a.start as int, a.end as int)),
            right == lowered(text@.subrange(b.start as int, b.end as int)),
            forall|j: int| 0 <= j < i ==> left[j] == right[j],
    {
        assert(left[i as int] == lower_ascii(text@[a.start + i]));
        assert(right[i as int] == lower_ascii(text@[b.start + i]));
        if to_lower_ascii(text[a.start + i]) != to_lower_ascii(text[b.start + i]) {
            return false;
        }
    }
    assert(left =~= right);
    true
}

fn repeated_words(text: &[char], candidates: &mut Vec<Candidate>)
    requires
        all_proper(text@, old(candidates)@),
    ensures
        all_proper(text@, final(candidates)@),
        marks(final(candidates)@) == marks(old(candidates)@) + ({
            let spans = tokens(text@, text@.len() as int);
            repeated_word_marks(text@, spans, spans.len() as int)
        }),
{
    let spans = token_spans(text);
    let ghost model = tokens(text@, text@.len() as int);
    let ghost before = marks(candidates@);
    let mut i: usize = 1;
    assert(marks(candidates@) =~= before + repeated_word_marks(text@, model, 1));
    while i < spans.len()
        invariant
            1 <= i,
            i <= spans@.len() || i == 1,
            spans_are(spans@, model),
            forall|k: int| 0 <= k < spans@.len() ==> span_ok(text@, #[trigger] spans@[k]),
            forall|k: int, l: int|
                0 <= k < l < spans@.len() ==> (#[trigger] spans@[k]).end
                    <= (#[trigger] spans@[l]).start,
            all_proper(text@, candidates@),
            marks(candidates@) == before + repeated_word_marks(text@, model, i as int),
        decreases spans@.len() - i,
    {
        let previous = spans[i - 1];
        let current = spans[i];
        assert(span_ok(text@, spans@[i - 1]));
        assert(span_ok(text@, spans@[i as int]));
        assert(spans@[i - 1].end <= spans@[i as int].start);
        let first = find_word(text, previous);
        let second = find_word(text, current);
        if any_letter(text, first) && any_letter(text, second) && same_lowered(text, first, second)
            && !any_newline(text, previous.end, current.start) && second.start == current.start {
            let added = Candidate {
                start: previous.end,
                end: second.end,
                rule: Rule::RepeatedWord,
                insert: None,
            };
            proof {
                assert forall|j: int| added.start <= j < added.end implies #[trigger] text@[j]
                    != '\n' by {
                    if j < current.start {
                        assert(!has_newline(text@, previous.end as int, current.start as int));
                    } else {
                        assert(!white_space(text@[j]));
                    }
                }
                assert(proper(text@, added@));
            }
            proof {
                lemma_marks_push(
                    before,
                    repeated_word_marks(text@, model, i as int),
                    candidates@,
                    added,
                );
            }
            candidates.push(added);
        }
        i += 1;
    }
    proof {
        if model.len() == 0 {
            assert(repeated_word_marks(text@, model, 1) =~= repeated_word_marks(text@, model, 0));
        }
    }
}

/// White space before a punctuation mark goes.
pub open spec fn spacing_marks(text: Seq<char>, n: int) -> Seq<Mark>
    decreases n,
{
    if n <= 0 {
        Seq::empty()
    } else {
        let i = n - 1;
        if sentence_punctuation(text[i]) && spaces_start(text, i) < i {
            spacing_marks(text, i).push(
                Mark {
                    start: spaces_start(text, i),
                    end: i,
                    rule: Rule::PunctuationSpacing,
                    insert: None,
                },
            )
        } else {
            spacing_marks(text, i)
        }
    }
}

fn punctuation_spacing(text: &[char], candidates: &mut Vec<Candidate>)
    requires
        all_proper(text@, old(candidates)@),
    ensures
        all_proper(text@, final(candidates)@),
        marks(final(candidates)@) == marks(old(candidates)@) + spacing_marks(
            text@,
            text@.len() as int,
        ),
{
    let ghost before = marks(candidates@);
    for i in 0..text.len()
        invariant
            all_proper(text@, candidates@),
            marks(candidates@) == before + spacing_marks(text@, i as int),
    {
        if is_sentence_punctuation(text[i]) {
            let start: usize = find_spaces_start(text, i);
            if start < i {
                let added = Candidate { start, end: i, rule: Rule::PunctuationSpacing, insert: None };
                proof {
                    lemma_marks_push(before, spacing_marks(text@, i as int), candidates@, added);
                }
                candidates.push(added);
            }
        }
    }
}

/// A run of one punctuation mark becomes one mark.
pub open spec fn punctuation_marks(text: Seq<char>, n: int) -> Seq<Mark>
    decreases n,
{
    if n <= 0 {
        Seq::empty()
    } else {
        let i = n - 1;
        let start = same_start(text, i);
        if (n == text.len() || text[n] != text[i]) && start < i && collapsible(text[i]) {
            punctuation_marks(text, i).push(
                Mark { start, end: n, rule: Rule::RepeatedPunctuation, insert: Some(text[i]) },
            )
        } else {
            punctuation_marks(text, i)
        }
    }
}

fn repeated_punctuation(text: &[char], candidates: &mut Vec<Candidate>)
    requires
        all_proper(text@, old(candidates)@),
    ensures
        all_proper(text@, final(candidates)@),
        marks(final(candidates)@) == marks(old(candidates)@) + punctuation_marks(
            text@,
            text@.len() as int,
        ),
{
    let ghost before = marks(candidates@);
    let total: usize = text.len();
    for i in 0..total
        invariant
            total == text@.len(),
            all_proper(text@, candidates@),
            marks(candidates@) == before + punctuation_marks(text@, i as int),
    {
        if (i + 1 == total || text[i + 1] != text[i]) && is_collapsible_punctuation(text[i]) {
            let start: usize = find_same_start(text, i);
            if start < i {
                let added = Candidate {
                        start,
                        end: i + 1,
                        rule: Rule::RepeatedPunctuation,
                        insert: Some(text[i]),
                    };
                proof {
                    lemma_marks_push(before, punctuation_marks(text@, i as int), candidates@, added);
                }
                candidates.push(added);
            }
        }
    }
}

/// A run of horizontal white space within a line becomes one space.
pub open spec fn space_marks(text: Seq<char>, n: int) -> Seq<Mark>
    decreases n,
{
    if n <= 0 {
        Seq::empty()
    } else {
        let start = spaces_start(text, n);
        if n < text.len() && !horizontal(text[n]) && n - start > 1 && start > 0 && text[start - 1]
            != '\n' {
            space_marks(text, n - 1).push(
                Mark { start, end: n, rule: Rule::RepeatedSpace, insert: Some(' ') },
            )
        } else {
            space_marks(text, n - 1)
        }
    }
}

fn repeated_horizontal_whitespace(text: &[char], candidates: &mut Vec<Candidate>)
    requires
        all_proper(text@, old(candidates)@),
    ensures
        all_proper(text@, final(candidates)@),
        marks(final(candidates)@) == marks(old(candidates)@) + space_marks(
            text@,
            text@.len() as int,
        ),
{
    let ghost before = marks(candidates@);
    let total: usize = text.len();
    for i in 0..total
        invariant
            total == text@.len(),
            all_proper(text@, candidates@),
            marks(candidates@) == before + space_marks(text@, i as int),
    {
        let end: usize = i + 1;
        if end < total && !is_horizontal_whitespace(text[end]) {
            let start: usize = find_spaces_start(text, end);
            if end - start > 1 && start > 0 && text[start - 1] != '\n' {
                let added = Candidate { start, end, rule: Rule::RepeatedSpace, insert: Some(' ') };
                proof {
                    lemma_marks_push(before, space_marks(text@, i as int), candidates@, added);
                }
                candidates.push(added);
            }
        }
    }
}

/// A token that is an address of some kind and keeps its case.
pub open spec fn is_address(token: Seq<char>) -> bool {
    contains_text(token, "://"@) || contains_text(token, "@"@) || begins(token, "www."@)
}

/// `i` lies in one of the first `n` tokens that is an address.
pub open spec fn addressed(text: Seq<char>, spans: Seq<(int, int)>, n: int, i: int) -> bool {
    exists|k: int|
        0 <= k < n && (#[trigger] spans[k]).0 <= i < spans[k].1 && is_address(
            text.subrange(spans[k].0, spans[k].1),
        )
}

/// `i` lies in a token that is an address.
pub open spec fn in_address(text: Seq<char>, i: int) -> bool {
    let spans = tokens(text, text.len() as int);
    addressed(text, spans, spans.len() as int, i)
}

spec fn covered(spans: Seq<Span>, i: int) -> bool {
    exists|p: int| 0 <= p < spans.len() && (#[trigger] spans[p]).start <= i < spans[p].end
}

/// Before character `i` a sentence begins.
pub open spec fn sentence_open(text: Seq<char>, i: int) -> bool
    decreases i,
{
    if i <= 0 {
        true
    } else {
        let c = text[i - 1];
        if in_address(text, i - 1) {
            false
        } else if sentence_open(text, i - 1) {
            !ascii_lower(c) && (white_space(c) || opening_quote(c))
        } else {
            sentence_terminator(c)
        }
    }
}

/// The capital form of a lower-case ASCII letter.
pub open spec fn upper_ascii(c: char) -> char {
    (c as u32 - 32) as char
}

/// A lower-case ASCII letter at the beginning of a sentence becomes a capital.
pub open spec fn case_marks(text: Seq<char>, n: int) -> Seq<Mark>
    decreases n,
{
    if n <= 0 {
        Seq::empty()
    } else {
        let i = n - 1;
        if !in_address(text, i) && sentence_open(text, i) && ascii_lower(text[i]) {
            case_marks(text, i).push(
                Mark {
                    start: i,
                    end: n,
                    rule: Rule::SentenceCase,
                    insert: Some(upper_ascii(text[i])),
                },
            )
        } else {
            case_marks(text, i)
        }
    }
}

fn uppercase_ascii(c: char) -> (r: char)
    requires
        ascii_lower(c),
    ensures
        r == upper_ascii(c),
        r != '\n',
{
    ((c as u8) - 32) as char
}

fn address_token(text: &[char], span: Span) -> (r: bool)
    requires
        span.start <= span.end <= text@.len(),
    ensures
        r == is_address(text@.subrange(span.start as int, span.end as int)),
{
    let token = from_chars(vstd::slice::slice_subrange(text, span.start, span.end));
    contains(token.as_str(), "://") || contains(token.as_str(), "@") || starts_with(
        token.as_str(),
        "www.",
    )
}

fn protected_token_spans(text: &[char]) -> (protected: Vec<Span>)
    ensures
        forall|i: int| #[trigger] covered(protected@, i) == in_address(text@, i),
{
    let spans = token_spans(text);
    let ghost model = tokens(text@, text@.len() as int);
    let mut protected: Vec<Span> = Vec::new();
    let mut k: usize = 0;
    while k < spans.len()
        invariant
            k <= spans@.len(),
            spans_are(spans@, model),
            forall|j: int| 0 <= j < spans@.len() ==> span_ok(text@, #[trigger] spans@[j]),
            forall|i: int|
                #[trigger] covered(protected@, i) == addressed(text@, model, k as int, i),
        decreases spans@.len() - k,
    {
        let span = spans[k];
        assert(span_ok(text@, spans@[k as int]));
        let ghost earlier = protected@;
        let address = address_token(text, span);
        if address {
            protected.push(span);
        }
        proof {
            assert forall|i: int| #[trigger] covered(protected@, i) == addressed(
                text@,
                model,
                k + 1,
                i,
            ) by {
                assert(covered(earlier, i) == addressed(text@, model, k as int, i));
                if covered(protected@, i) {
                    let p = choose|p: int|
                        0 <= p < protected@.len() && (#[trigger] protected@[p]).start <= i
                            < protected@[p].end;
                    if p < earlier.len() {
                        assert(earlier[p] == protected@[p]);
                        assert(covered(earlier, i));
                        assert(addressed(text@, model, k as int, i));
                    } else {
                        assert(model[k as int].0 <= i < model[k as int].1);
                    }
                }
                if addressed(text@, model, k + 1, i) {
                    let j = choose|j: int|
                        0 <= j < k + 1 && (#[trigger] model[j]).0 <= i < model[j].1 && is_address(
                            text@.subrange(model[j].0, model[j].1),
                        );
                    if j < k {
                        assert(addressed(text@, model, k as int, i));
                        let p = choose|p: int|
                            0 <= p < earlier.len() && (#[trigger] earlier[p]).start <= i
                                < earlier[p].end;
                        assert(protected@[p] == earlier[p]);
                    } else {
                        assert(protected@[earlier.len() as int].start <= i);
                    }
                }
            }
        }
        k += 1;
    }
    protected
}

fn is_covered(spans: &Vec<Span>, i: usize) -> (r: bool)
    ensures
        r == covered(spans@, i as int),
{
    for p in 0..spans.len()
        invariant
            forall|q: int|
                0 <= q < p ==> !((#[trigger] spans@[q]).start <= i < spans@[q].end),
    {
        if spans[p].start <= i && i < spans[p].end {
            return true;
        }
    }
    false
}

fn sentence_case(text: &[char], candidates: &mut Vec<Candidate>)
    requires
        all_proper(text@, old(candidates)@),
    ensures
        all_proper(text@, final(candidates)@),
        marks(final(candidates)@) == marks(old(candidates)@) + case_marks(
            text@,
            text@.len() as int,
        ),
{
    let protected = protected_token_spans(text);
    let ghost before = marks(candidates@);
    let mut open = true;
    for i in 0..text.len()
        invariant
            forall|j: int| #[trigger] covered(protected@, j) == in_address(text@, j),
            open == sentence_open(text@, i as int),
            all_proper(text@, candidates@),
            marks(candidates@) == before + case_marks(text@, i as int),
    {
        let c: char = text[i];
        if is_covered(&protected, i) {
            open = false;
        } else if open {
            if is_ascii_lower(c) {
                let added = Candidate {
                        start: i,
                        end: i + 1,
                        rule: Rule::SentenceCase,
                        insert: Some(uppercase_ascii(c)),
                    };
                proof {
                    lemma_marks_push(before, case_marks(text@, i as int), candidates@, added);
                }
                candidates.push(added);
                open = false;
            } else {
                open = is_white_space(c) || is_opening_quote(c);
            }
        } else {
            open = is_sentence_terminator(c);
        }
    }
}

/// Everything that the rules propose, in the order of precedence.
pub open spec fn proposals(text: Seq<char>) -> Seq<Mark> {
    let n = text.len() as int;
    let spans = tokens(text, n);
    outer_marks(text) + repeated_word_marks(text, spans, spans.len() as int) + spacing_marks(
        text,
        n,
    ) + punctuation_marks(text, n) + space_marks(text, n) + case_marks(text, n)
}

pub open spec fn overlap(a: Mark, b: Mark) -> bool {
    a.start < b.end && b.start < a.end
}

/// The change is empty or meets one that was taken before.
pub open spec fn clashes(taken: Seq<Mark>, mark: Mark) -> bool {
    mark.start >= mark.end || exists|i: int|
        0 <= i < taken.len() && overlap(#[trigger] taken[i], mark)
}

/// How many of the changes begin at or before the start of `mark`, counted from the left.
pub open spec fn place(taken: Seq<Mark>, mark: Mark) -> int
    decreases taken.len(),
{
    if taken.len() == 0 {
        0
    } else if taken.last().start <= mark.start {
        taken.len() as int
    } else {
        place(taken.drop_last(), mark)
    }
}

/// The changes that are taken of those proposed: each one that meets none taken before it, in
/// the order of the text.
pub open spec fn chosen(proposed: Seq<Mark>) -> Seq<Mark>
    decreases proposed.len(),
{
    if proposed.len() == 0 {
        Seq::empty()
    } else {
        let taken = chosen(proposed.drop_last());
        let mark = proposed.last();
        if clashes(taken, mark) {
            taken
        } else {
            taken.insert(place(taken, mark), mark)
        }
    }
}

proof fn lemma_place_bound(taken: Seq<Mark>, mark: Mark)
    ensures
        0 <= place(taken, mark) <= taken.len(),
        forall|i: int| place(taken, mark) <= i < taken.len() ==> (#[trigger] taken[i]).start
            > mark.start,
        place(taken, mark) > 0 ==> taken[place(taken, mark) - 1].start <= mark.start,
    decreases taken.len(),
{
    if taken.len() > 0 && taken.last().start > mark.start {
        lemma_place_bound(taken.drop_last(), mark);
        assert forall|i: int| place(taken, mark) <= i < taken.len() implies (
        #[trigger] taken[i]).start > mark.start by {
            if i < taken.len() - 1 {
                assert(taken.drop_last()[i] == taken[i]);
            }
        }
    }
}

/// The changes are in the order of the text and none meets another.
pub open spec fn apart(taken: Seq<Mark>) -> bool {
    &&& forall|i: int| 0 <= i < taken.len() ==> (#[trigger] taken[i]).start < taken[i].end
    &&& forall|i: int, j: int|
        0 <= i < j < taken.len() ==> (#[trigger] taken[i]).end <= (#[trigger] taken[j]).start
}

proof fn lemma_insert_apart(taken: Seq<Mark>, mark: Mark)
    requires
        apart(taken),
        !clashes(taken, mark),
    ensures
        apart(taken.insert(place(taken, mark), mark)),
{
    lemma_place_bound(taken, mark);
    let p = place(taken, mark);
    let after = taken.insert(p, mark);
    assert forall|i: int, j: int| 0 <= i < j < after.len() implies (#[trigger] after[i]).end <= (
    #[trigger] after[j]).start by {
        if j == p {
            assert(after[i] == taken[i]);
            assert(!overlap(taken[i], mark));
            assert(taken[p - 1].start <= mark.start);
            if i < p - 1 {
                assert(taken[i].end <= taken[p - 1].start);
            }
        } else if i == p {
            assert(after[j] == taken[j - 1]);
            assert(!overlap(taken[j - 1], mark));
        }
    }
}

/// The changes that are taken are in the order of the text and none meets another.
pub proof fn law_taken_changes_are_apart(proposed: Seq<Mark>)
    ensures
        apart(chosen(proposed)),
    decreases proposed.len(),
{
    if proposed.len() > 0 {
        law_taken_changes_are_apart(proposed.drop_last());
        let taken = chosen(proposed.drop_last());
        if !clashes(taken, proposed.last()) {
            lemma_insert_apart(taken, proposed.last());
        }
    }
}

/// A proposed change that meets no other proposed one is taken: one that is left out meets one
/// that was proposed before it, or it is empty.
pub proof fn law_left_out_only_for_a_clash(proposed: Seq<Mark>, k: int)
    requires
        0 <= k < proposed.len(),
    ensures
        chosen(proposed).contains(proposed[k]) || clashes(
            chosen(proposed.take(k)),
            proposed[k],
        ),
    decreases proposed.len(),
{
    let n = proposed.len() - 1;
    let taken = chosen(proposed.drop_last());
    if k == n {
        assert(proposed.take(k) =~= proposed.drop_last());
        if !clashes(taken, proposed[k]) {
            lemma_place_bound(taken, proposed[k]);
            assert(chosen(proposed)[place(taken, proposed[k])] == proposed[k]);
        }
    } else {
        law_left_out_only_for_a_clash(proposed.drop_last(), k);
        assert(proposed.drop_last().take(k) =~= proposed.take(k));
        if taken.contains(proposed[k]) && !clashes(taken, proposed.last()) {
            lemma_place_bound(taken, proposed.last());
            let p = place(taken, proposed.last());
            let i = choose|i: int| 0 <= i < taken.len() && taken[i] == proposed[k];
            let j = if i < p {
                i
            } else {
                i + 1
            };
            assert(chosen(proposed)[j] == proposed[k]);
        }
    }
}

fn select(text: Ghost<Seq<char>>, candidates: &Vec<Candidate>) -> (selected: Vec<Candidate>)
    requires
        all_proper(text@, candidates@),
    ensures
        marks(selected@) == chosen(marks(candidates@)),
        all_proper(text@, selected@),
        apart(marks(selected@)),
{
    let mut selected: Vec<Candidate> = Vec::new();
    assert(marks(selected@) =~= chosen(marks(candidates@).take(0)));
    for k in 0..candidates.len()
        invariant
            all_proper(text@, candidates@),
            all_proper(text@, selected@),
            marks(selected@) == chosen(marks(candidates@).take(k as int)),
            apart(marks(selected@)),
    {
        let candidate = candidates[k];
        let ghost taken = marks(selected@);
        let mut clash = candidate.start >= candidate.end;
        for i in 0..selected.len()
            invariant
                taken == marks(selected@),
                clash == (candidate.start >= candidate.end || exists|j: int|
                    0 <= j < i && overlap(#[trigger] taken[j], candidate@)),
        {
            assert(taken[i as int] == selected@[i as int]@);
            if candidate.start < selected[i].end && selected[i].start < candidate.end {
                clash = true;
            }
        }
        proof {
            assert(marks(candidates@).take(k + 1).drop_last() =~= marks(candidates@).take(
                k as int,
            ));
            assert(marks(candidates@).take(k + 1).last() == candidate@);
            assert(proper(text@, candidates@[k as int]@));
        }
        if !clash {
            let mut at: usize = selected.len();
            assert(taken.take(taken.len() as int) =~= taken);
            while at > 0 && selected[at - 1].start > candidate.start
                invariant
                    at <= selected@.len(),
                    taken == marks(selected@),
                    place(taken, candidate@) == place(taken.take(at as int), candidate@),
                decreases at,
            {
                assert(taken.take(at as int).last() == selected@[at - 1]@);
                assert(taken.take(at as int).drop_last() =~= taken.take(at - 1));
                at -= 1;
            }
            proof {
                if at > 0 {
                    assert(taken.take(at as int).last() == selected@[at - 1]@);
                }
                lemma_insert_apart(taken, candidate@);
            }
            let ghost before = selected@;
            selected.insert(at, candidate);
            proof {
                assert(marks(selected@) =~= taken.insert(at as int, candidate@));
                assert forall|i: int| 0 <= i < selected@.len() implies proper(
                    text@,
                    (#[trigger] selected@[i])@,
                ) by {
                    if i < at {
                        assert(proper(text@, before[i]@));
                    } else if i > at {
                        assert(proper(text@, before[i - 1]@));
                    }
                }
            }
        }
    }
    assert(marks(candidates@).take(candidates@.len() as int) =~= marks(candidates@));
    selected
}

/// `at` is a character boundary of the text, in bytes.
pub open spec fn boundary(text: Seq<char>, at: nat) -> bool {
    exists|k: int| 0 <= k <= text.len() && #[trigger] byte_length(text.take(k)) == at
}

/// The character that begins at byte `at`.
pub open spec fn position(text: Seq<char>, at: nat) -> int {
    choose|k: int| 0 <= k <= text.len() && #[trigger] byte_length(text.take(k)) == at
}

proof fn lemma_position(text: Seq<char>, k: int)
    requires
        0 <= k <= text.len(),
    ensures
        boundary(text, byte_length(text.take(k))),
        position(text, byte_length(text.take(k))) == k,
{
    let p = position(text, byte_length(text.take(k)));
    assert(boundary(text, byte_length(text.take(k))));
    if p < k {
        lemma_byte_length_grows(text, p, k);
    } else if k < p {
        lemma_byte_length_grows(text, k, p);
    }
}

proof fn lemma_position_order(text: Seq<char>, a: nat, b: nat)
    requires
        boundary(text, a),
        boundary(text, b),
    ensures
        0 <= position(text, a) <= text.len(),
        byte_length(text.take(position(text, a))) == a,
        a <= b <==> position(text, a) <= position(text, b),
{
    let p = position(text, a);
    let q = position(text, b);
    if p <= q {
        lemma_byte_length_grows(text, p, q);
    } else {
        lemma_byte_length_grows(text, q, p);
    }
}

/// The edit fits the text behind the byte `previous`: it begins and ends at character
/// boundaries and replaces what the text holds there.
pub open spec fn edit_fits(text: Seq<char>, previous: nat, edit: CleanupEdit) -> bool {
    &&& previous <= edit.start_byte <= edit.end_byte <= byte_length(text)
    &&& boundary(text, edit.start_byte as nat)
    &&& boundary(text, edit.end_byte as nat)
    &&& text.subrange(
        position(text, edit.start_byte as nat),
        position(text, edit.end_byte as nat),
    ) == edit.original@
}

/// Where the first `n` edits end, in bytes.
pub open spec fn edits_end(edits: Seq<CleanupEdit>, n: int) -> nat {
    if n <= 0 {
        0
    } else {
        edits[n - 1].end_byte as nat
    }
}

/// Every edit fits the text behind the one before it.
pub open spec fn edits_fit(text: Seq<char>, edits: Seq<CleanupEdit>) -> bool {
    forall|i: int|
        0 <= i < edits.len() ==> edit_fits(text, edits_end(edits, i), #[trigger] edits[i])
}

/// The text up to the end of the first `n` edits, with these edits made.
pub open spec fn edited_prefix(text: Seq<char>, edits: Seq<CleanupEdit>, n: int) -> Seq<char>
    decreases n,
{
    if n <= 0 {
        Seq::empty()
    } else {
        edited_prefix(text, edits, n - 1) + text.subrange(
            position(text, edits_end(edits, n - 1)),
            position(text, edits[n - 1].start_byte as nat),
        ) + edits[n - 1].replacement@
    }
}

/// The text with all edits made.
pub open spec fn edited(text: Seq<char>, edits: Seq<CleanupEdit>) -> Seq<char> {
    let n = edits.len() as int;
    edited_prefix(text, edits, n) + text.skip(position(text, edits_end(edits, n)))
}

fn find_offset(text: Ghost<Seq<char>>, offsets: &Vec<usize>, at: usize) -> (r: Option<usize>)
    requires
        offsets@.len() == text@.len() + 1,
        forall|i: int|
            0 <= i <= text@.len() ==> #[trigger] offsets@[i] == byte_length(text@.take(i)),
    ensures
        match r {
            Some(k) => k <= text@.len() && boundary(text@, at as nat) && position(
                text@,
                at as nat,
            ) == k,
            None => !boundary(text@, at as nat),
        },
{
    for k in 0..offsets.len()
        invariant
            offsets@.len() == text@.len() + 1,
            forall|i: int|
                0 <= i <= text@.len() ==> #[trigger] offsets@[i] == byte_length(text@.take(i)),
            forall|j: int| 0 <= j < k ==> #[trigger] offsets@[j] != at,
    {
        if offsets[k] == at {
            proof {
                lemma_position(text@, k as int);
            }
            return Some(k);
        }
    }
    assert forall|k: int| 0 <= k <= text@.len() implies #[trigger] byte_length(text@.take(k))
        != at by {
        assert(offsets@[k] != at);
    }
    None
}

/// Where the edit stands in the text, in characters, if it fits behind the byte `previous`.
fn place_edit(
    text: &str,
    offsets: &Vec<usize>,
    total: usize,
    previous: usize,
    edit: &CleanupEdit,
) -> (r: Option<(usize, usize)>)
    requires
        offsets@.len() == text@.len() + 1,
        forall|i: int|
            0 <= i <= text@.len() ==> #[trigger] offsets@[i] == byte_length(text@.take(i)),
        total == byte_length(text@),
    ensures
        match r {
            Some((start, end)) => {
                &&& edit_fits(text@, previous as nat, *edit)
                &&& start == position(text@, edit.start_byte as nat)
                &&& end == position(text@, edit.end_byte as nat)
                &&& start <= end <= text@.len()
            },
            None => !edit_fits(text@, previous as nat, *edit),
        },
{
    if edit.start_byte < previous || edit.start_byte > edit.end_byte || edit.end_byte > total {
        return None;
    }
    let start = match find_offset(Ghost(text@), offsets, edit.start_byte) {
        Some(k) => k,
        None => {
            return None;
        },
    };
    let end = match find_offset(Ghost(text@), offsets, edit.end_byte) {
        Some(k) => k,
        None => {
            return None;
        },
    };
    proof {
        lemma_position_order(text@, edit.start_byte as nat, edit.end_byte as nat);
    }
    let original = text.substring_char(start, end);
    if same_text(original, edit.original.as_str()) {
        Some((start, end))
    } else {
        None
    }
}

/// Appends the text that is kept before an edit, and what the edit puts in.
fn append_edit(output: &mut String, text: &str, cursor: usize, start: usize, replacement: &str)
    requires
        cursor <= start <= text@.len(),
    ensures
        final(output)@ == old(output)@ + text@.subrange(cursor as int, start as int) + replacement@,
{
    output.append(text.substring_char(cursor, start));
    output.append(replacement);
}

/// Applies a set of non-overlapping edits only when every original span still matches, so that
/// a stale report is never applied.
#[verifier::spinoff_prover]
#[verifier::rlimit(40)]
pub fn apply_edits(text: &str, edits: &[CleanupEdit]) -> (r: Option<String>)
    ensures
        match r {
            Some(output) => edits_fit(text@, edits@) && output@ == edited(text@, edits@),
            None => !edits_fit(text@, edits@),
        },
{
    let offsets = byte_offsets(text);
    let total: usize = byte_count(text);
    let length: usize = text.unicode_len();
    let mut output = String::new();
    let mut cursor: usize = 0;
    let mut previous_end: usize = 0;
    proof {
        lemma_position(text@, 0);
        assert(text@.take(0) =~= Seq::<char>::empty());
    }
    for i in 0..edits.len()
        invariant
            length == text@.len(),
            offsets@.len() == text@.len() + 1,
            forall|j: int|
                0 <= j <= text@.len() ==> #[trigger] offsets@[j] == byte_length(text@.take(j)),
            total == byte_length(text@),
            previous_end == edits_end(edits@, i as int),
            boundary(text@, previous_end as nat),
            cursor == position(text@, previous_end as nat),
            cursor <= length,
            forall|j: int|
                0 <= j < i ==> edit_fits(text@, edits_end(edits@, j), #[trigger] edits@[j]),
            output@ == edited_prefix(text@, edits@, i as int),
    {
        match place_edit(text, &offsets, total, previous_end, &edits[i]) {
            Some((start, end)) => {
                proof {
                    lemma_position_order(
                        text@,
                        previous_end as nat,
                        edits@[i as int].start_byte as nat,
                    );
                }
                append_edit(&mut output, text, cursor, start, edits[i].replacement.as_str());
                cursor = end;
                previous_end = edits[i].end_byte;
            },
            None => {
                return None;
            },
        }
    }
    output.append(text.substring_char(cursor, length));
    proof {
        assert(text@.subrange(cursor as int, text@.len() as int) =~= text@.skip(cursor as int));
    }
    Some(output)
}

/// One step of the 64-bit FNV-1a hash.
pub open spec fn hash_step(hash: u64, byte: u8) -> u64 {
    (hash ^ (byte as u64)).wrapping_mul(0x0000_0100_0000_01b3)
}

/// The 64-bit FNV-1a hash of some bytes.
pub open spec fn hash_of(bytes: Seq<u8>) -> u64
    decreases bytes.len(),
{
    if bytes.len() == 0 {
        0xcbf2_9ce4_8422_2325
    } else {
        hash_step(hash_of(bytes.drop_last()), bytes.last())
    }
}

/// The name of the text by its hash.
pub open spec fn fingerprint_of(text: Seq<char>) -> Seq<char> {
    "fnv1a64:"@ + hex_digits(hash_of(encode_utf8(text)) as nat, 16)
}

fn fingerprint(text: &str) -> (r: String)
    ensures
        r@ == fingerprint_of(text@),
{
    let bytes = text.as_bytes();
    let mut hash: u64 = 0xcbf2_9ce4_8422_2325;
    for i in 0..bytes.len()
        invariant
            hash == hash_of(bytes@.take(i as int)),
    {
        assert(bytes@.take(i + 1).drop_last() =~= bytes@.take(i as int));
        hash = (hash ^ (bytes[i] as u64)).wrapping_mul(0x0000_0100_0000_01b3);
    }
    assert(bytes@.take(bytes@.len() as int) =~= bytes@);
    let digits = write_hex(hash, 16);
    join2("fnv1a64:", digits.as_str())
}

/// What takes the place of the marked characters.
pub open spec fn inserted(mark: Mark) -> Seq<char> {
    match mark.insert {
        Some(c) => seq![c],
        None => Seq::empty(),
    }
}

/// The edit that makes the change.
pub open spec fn edit_of(text: Seq<char>, mark: Mark, edit: CleanupEdit) -> bool {
    &&& edit.start_byte == byte_length(text.take(mark.start))
    &&& edit.end_byte == byte_length(text.take(mark.end))
    &&& edit.original@ == text.subrange(mark.start, mark.end)
    &&& edit.replacement@ == inserted(mark)
    &&& edit.rule_id@ == mark.rule.id()
    &&& edit.message@ == mark.rule.text()
    &&& edit.safety == mark.rule.caution()
    &&& edit.confidence == mark.rule.certainty()
}

/// The edits make exactly these changes.
pub open spec fn edits_of(text: Seq<char>, taken: Seq<Mark>, edits: Seq<CleanupEdit>) -> bool {
    &&& edits.len() == taken.len()
    &&& forall|i: int| 0 <= i < edits.len() ==> edit_of(text, taken[i], #[trigger] edits[i])
}

/// How many of the changes are safe.
pub open spec fn safe_count(taken: Seq<Mark>) -> nat
    decreases taken.len(),
{
    if taken.len() == 0 {
        0
    } else {
        safe_count(taken.drop_last()) + (if taken.last().rule.caution() == EditSafety::Safe {
            1nat
        } else {
            0nat
        })
    }
}

/// The report is the report on the text.
pub open spec fn report_on(text: Seq<char>, report: GrammarReport) -> bool {
    let taken = chosen(proposals(text));
    &&& report.schema == 1
    &&& report.clean == (taken.len() == 0)
    &&& report.original_fingerprint@ == fingerprint_of(text)
    &&& report.original_bytes == byte_length(text)
    &&& report.original_characters == text.len()
    &&& forall|i: int| 0 <= i < taken.len() ==> proper(text, #[trigger] taken[i])
    &&& edits_of(text, taken, report.edits@)
    &&& edits_fit(text, report.edits@)
    &&& report.suggested@ == edited(text, report.edits@)
    &&& report.safe_edit_count == safe_count(taken)
    &&& report.review_edit_count == taken.len() - safe_count(taken)
    &&& forall|i: int|
        0 <= i < report.edits@.len() ==> !(#[trigger] report.edits@[i]).original@.contains('\n')
}

/// Changes that lie apart in the text make edits that fit it.
pub proof fn lemma_edits_fit(text: Seq<char>, taken: Seq<Mark>, edits: Seq<CleanupEdit>)
    requires
        apart(taken),
        forall|i: int| 0 <= i < taken.len() ==> proper(text, #[trigger] taken[i]),
        edits_of(text, taken, edits),
    ensures
        edits_fit(text, edits),
{
    assert forall|i: int| 0 <= i < edits.len() implies edit_fits(
        text,
        edits_end(edits, i),
        #[trigger] edits[i],
    ) by {
        let m = taken[i];
        assert(proper(text, m));
        lemma_position(text, m.start);
        lemma_position(text, m.end);
        lemma_byte_length_grows(text, m.start, m.end);
        lemma_byte_length_grows(text, m.end, text.len() as int);
        assert(text.take(text.len() as int) =~= text);
        if i > 0 {
            let p = taken[i - 1];
            assert(proper(text, p));
            assert(edit_of(text, p, edits[i - 1]));
            assert(p.end <= m.start);
            lemma_byte_length_grows(text, p.end, m.start);
        }
    }
}

/// Produces conservative, reviewable cleanup suggestions.
pub fn check(text: &str) -> (report: GrammarReport)
    ensures
        report_on(text@, report),
{
    let chars = to_chars(text);
    let offsets = byte_offsets(text);
    let mut candidates: Vec<Candidate> = Vec::new();
    outer_horizontal_whitespace(&chars, &mut candidates);
    repeated_words(&chars, &mut candidates);
    punctuation_spacing(&chars, &mut candidates);
    repeated_punctuation(&chars, &mut candidates);
    repeated_horizontal_whitespace(&chars, &mut candidates);
    sentence_case(&chars, &mut candidates);
    assert(marks(candidates@) =~= proposals(text@));
    let selected = select(Ghost(text@), &candidates);
    let ghost taken = chosen(proposals(text@));

    let mut edits: Vec<CleanupEdit> = Vec::new();
    let mut safe_edit_count: usize = 0;
    for i in 0..selected.len()
        invariant
            chars@ == text@,
            offsets@.len() == text@.len() + 1,
            forall|j: int|
                0 <= j <= text@.len() ==> #[trigger] offsets@[j] == byte_length(text@.take(j)),
            taken == marks(selected@),
            all_proper(text@, selected@),
            edits@.len() == i,
            forall|j: int|
                0 <= j < i ==> edit_of(text@, taken[j], #[trigger] edits@[j])
                    && !edits@[j].original@.contains('\n'),
            safe_edit_count == safe_count(taken.take(i as int)),
            safe_edit_count <= i,
    {
        let candidate = selected[i];
        assert(proper(text@, selected@[i as int]@));
        let mut replacement = String::new();
        match candidate.insert {
            Some(c) => replacement.push(c),
            None => {},
        }
        let safety = candidate.rule.safety();
        match safety {
            EditSafety::Safe => {
                safe_edit_count = safe_edit_count + 1;
            },
            EditSafety::Review => {},
        }
        proof {
            assert(taken.take(i + 1).drop_last() =~= taken.take(i as int));
            assert(taken.take(i + 1).last() == candidate@);
        }
        let edit = CleanupEdit {
            start_byte: offsets[candidate.start],
            end_byte: offsets[candidate.end],
            original: String::from_str(text.substring_char(candidate.start, candidate.end)),
            replacement,
            rule_id: candidate.rule.rule_id(),
            message: candidate.rule.message(),
            safety,
            confidence: candidate.rule.confidence(),
        };
        proof {
            assert(edit.replacement@ =~= inserted(candidate@));
            assert(offsets@[candidate.start as int] == byte_length(
                text@.take(candidate.start as int),
            ));
            assert(offsets@[candidate.end as int] == byte_length(text@.take(candidate.end as int)));
            assert(edit_of(text@, taken[i as int], edit));
            if edit.original@.contains('\n') {
                let j = choose|j: int|
                    0 <= j < edit.original@.len() && edit.original@[j] == '\n';
                assert(text@[candidate.start + j] == '\n');
            }
        }
        edits.push(edit);
    }
    proof {
        assert(taken.take(taken.len() as int) =~= taken);
        assert forall|i: int| 0 <= i < taken.len() implies proper(text@, #[trigger] taken[i]) by {
            assert(taken[i] == selected@[i]@);
        }
        lemma_edits_fit(text@, taken, edits@);
    }
    let suggested = match apply_edits(text, &edits) {
        Some(output) => output,
        None => String::from_str(text),
    };
    let review_edit_count: usize = edits.len() - safe_edit_count;
    GrammarReport {
        schema: 1,
        clean: edits.len() == 0,
        original_fingerprint: fingerprint(text),
        original_bytes: byte_count(text),
        original_characters: chars.len(),
        suggested,
        safe_edit_count,
        review_edit_count,
        edits,
    }
}

/// The text is the one that the report was made on, as far as its size and its hash can tell.
pub open spec fn same_source(text: Seq<char>, report: GrammarReport) -> bool {
    &&& byte_length(text) == report.original_bytes
    &&& text.len() == report.original_characters
    &&& fingerprint_of(text) == report.original_fingerprint@
}

/// Applies a complete report only when the entire source text still matches the report
/// fingerprint and length, not merely the edited spans.
pub fn apply_report(text: &str, report: &GrammarReport) -> (r: Option<String>)
    ensures
        match r {
            Some(output) => {
                &&& same_source(text@, *report)
                &&& edits_fit(text@, report.edits@)
                &&& output@ == edited(text@, report.edits@)
            },
            None => !(same_source(text@, *report) && edits_fit(text@, report.edits@)),
        },
{
    if byte_count(text) != report.original_bytes || text.unicode_len()
        != report.original_characters || !same_text(
        fingerprint(text).as_str(),
        report.original_fingerprint.as_str(),
    ) {
        return None;
    }
    apply_edits(text, &report.edits)
}

/// A report applies to the text that it was made on, and gives what it suggested.
pub proof fn law_report_applies_to_its_text(text: Seq<char>, report: GrammarReport)
    requires
        report_on(text, report),
    ensures
        same_source(text, report) && edits_fit(text, report.edits@),
        edited(text, report.edits@) == report.suggested@,
{
}

/// A clean report suggests the text as it is.
pub proof fn law_clean_text_is_kept(text: Seq<char>, report: GrammarReport)
    requires
        report_on(text, report),
        report.clean,
    ensures
        report.suggested@ == text,
{
    lemma_position(text, 0);
    assert(text.take(0) =~= Seq::<char>::empty());
    assert(text.skip(0) =~= text);
}

/// The changed text cannot be what it was: a change takes out more than it puts in, or replaces
/// one character by another.
pub open spec fn tells_apart(text: Seq<char>, mark: Mark) -> bool {
    ||| inserted(mark).len() < mark.end - mark.start
    ||| {
        &&& mark.end == mark.start + 1
        &&& mark.insert matches Some(c)
        &&& c != text[mark.start]
    }
}

/// Every change that is not empty tells the text apart from what it was.
pub open spec fn all_tell_apart(text: Seq<char>, list: Seq<Mark>) -> bool {
    forall|i: int|
        0 <= i < list.len() && (#[trigger] list[i]).start < list[i].end ==> tells_apart(
            text,
            list[i],
        )
}

proof fn lemma_words_tell_apart(text: Seq<char>, spans: Seq<(int, int)>, n: int)
    ensures
        all_tell_apart(text, repeated_word_marks(text, spans, n)),
    decreases n,
{
    if n >= 2 {
        lemma_words_tell_apart(text, spans, n - 1);
    }
}

proof fn lemma_runs_tell_apart(text: Seq<char>, n: int)
    ensures
        all_tell_apart(text, spacing_marks(text, n)),
        all_tell_apart(text, punctuation_marks(text, n)),
        all_tell_apart(text, space_marks(text, n)),
        all_tell_apart(text, case_marks(text, n)),
    decreases n,
{
    if n > 0 {
        lemma_runs_tell_apart(text, n - 1);
    }
}

proof fn lemma_proposals_tell_apart(text: Seq<char>)
    ensures
        all_tell_apart(text, proposals(text)),
{
    let n = text.len() as int;
    let spans = tokens(text, n);
    lemma_words_tell_apart(text, spans, spans.len() as int);
    lemma_runs_tell_apart(text, n);
}

proof fn lemma_chosen_tell_apart(text: Seq<char>, proposed: Seq<Mark>)
    requires
        all_tell_apart(text, proposed),
    ensures
        all_tell_apart(text, chosen(proposed)),
    decreases proposed.len(),
{
    if proposed.len() > 0 {
        let before = proposed.drop_last();
        assert(all_tell_apart(text, before)) by {
            assert forall|i: int|
                0 <= i < before.len() && (#[trigger] before[i]).start < before[i].end implies
                tells_apart(text, before[i]) by {
                assert(before[i] == proposed[i]);
            }
        }
        lemma_chosen_tell_apart(text, before);
        let taken = chosen(before);
        let mark = proposed.last();
        if !clashes(taken, mark) {
            let p = place(taken, mark);
            lemma_place_bound(taken, mark);
            let after = taken.insert(p, mark);
            assert forall|i: int|
                0 <= i < after.len() && (#[trigger] after[i]).start < after[i].end implies
                tells_apart(text, after[i]) by {
                if i < p {
                    assert(after[i] == taken[i]);
                } else if i > p {
                    assert(after[i] == taken[i - 1]);
                } else {
                    assert(after[i] == proposed[proposed.len() - 1]);
                }
            }
        }
    }
}

/// Where the first `n` changes end.
spec fn taken_end(taken: Seq<Mark>, n: int) -> int {
    if n <= 0 {
        0
    } else {
        taken[n - 1].end
    }
}

proof fn lemma_edited_prefix_differs(
    text: Seq<char>,
    taken: Seq<Mark>,
    edits: Seq<CleanupEdit>,
    n: int,
)
    requires
        0 <= n <= taken.len(),
        apart(taken),
        forall|i: int| 0 <= i < taken.len() ==> proper(text, #[trigger] taken[i]),
        all_tell_apart(text, taken),
        edits_of(text, taken, edits),
    ensures
        position(text, edits_end(edits, n)) == taken_end(taken, n),
        0 <= taken_end(taken, n) <= text.len(),
        edited_prefix(text, edits, n).len() <= taken_end(taken, n),
        n > 0 ==> edited_prefix(text, edits, n) != text.take(taken_end(taken, n)),
    decreases n,
{
    if n == 0 {
        assert(text.take(0) =~= Seq::<char>::empty());
        lemma_position(text, 0);
    } else {
        lemma_edited_prefix_differs(text, taken, edits, n - 1);
        let mark = taken[n - 1];
        let edit = edits[n - 1];
        assert(proper(text, mark));
        assert(edit_of(text, mark, edit));
        assert(tells_apart(text, mark));
        lemma_position(text, mark.start);
        lemma_position(text, mark.end);
        let before = edited_prefix(text, edits, n - 1);
        let from = taken_end(taken, n - 1);
        assert(from <= mark.start) by {
            if n > 1 {
                assert(taken[n - 2].end <= taken[n - 1].start);
            }
        }
        let between = text.subrange(from, mark.start);
        let all = edited_prefix(text, edits, n);
        assert(all == before + between + inserted(mark));
        if all.len() == mark.end {
            assert(all[mark.start] == inserted(mark)[0]);
            assert(text.take(mark.end)[mark.start] == text[mark.start]);
        }
    }
}

/// A report is clean exactly if it has no edits, and exactly if it suggests the text as it is:
/// edits never cancel out.
pub proof fn law_kept_text_is_clean(text: Seq<char>, report: GrammarReport)
    requires
        report_on(text, report),
    ensures
        report.clean == (report.edits@.len() == 0),
        report.clean == (report.suggested@ == text),
{
    if report.clean {
        law_clean_text_is_kept(text, report);
    } else {
        let taken = chosen(proposals(text));
        let edits = report.edits@;
        let n = edits.len() as int;
        law_taken_changes_are_apart(proposals(text));
        lemma_proposals_tell_apart(text);
        lemma_chosen_tell_apart(text, proposals(text));
        lemma_edited_prefix_differs(text, taken, edits, n);
        let end = taken_end(taken, n);
        let prefix = edited_prefix(text, edits, n);
        if report.suggested@ == text {
            assert((prefix + text.skip(end)).len() == prefix.len() + text.len() - end);
            assert(text.take(end) =~= prefix);
        }
    }
}

/// The edits of a report are in the order of the text, apart from each other and not empty, and
/// each names what the text holds there. Every edit is counted once, as safe or for review.
pub proof fn law_edits_are_in_order(text: Seq<char>, report: GrammarReport)
    requires
        report_on(text, report),
    ensures
        forall|i: int|
            0 <= i < report.edits@.len() ==> {
                let edit = #[trigger] report.edits@[i];
                &&& edit.start_byte < edit.end_byte
                &&& edit_fits(text, edits_end(report.edits@, i), edit)
            },
        forall|i: int, j: int|
            0 <= i < j < report.edits@.len() ==> (#[trigger] report.edits@[i]).end_byte <= (
            #[trigger] report.edits@[j]).start_byte,
        report.safe_edit_count + report.review_edit_count == report.edits@.len(),
{
    let taken = chosen(proposals(text));
    let edits = report.edits@;
    law_taken_changes_are_apart(proposals(text));
    assert forall|i: int| 0 <= i < edits.len() implies (#[trigger] edits[i]).start_byte
        < edits[i].end_byte by {
        let mark = taken[i];
        assert(edit_of(text, mark, edits[i]));
        assert(proper(text, mark));
        lemma_byte_length_grows(text, mark.start, mark.end);
    }
    assert forall|i: int, j: int| 0 <= i < j < edits.len() implies (#[trigger] edits[i]).end_byte
        <= (#[trigger] edits[j]).start_byte by {
        assert(edit_of(text, taken[i], edits[i]) && edit_of(text, taken[j], edits[j]));
        assert(proper(text, taken[i]) && proper(text, taken[j]));
        assert(taken[i].end <= taken[j].start);
        lemma_byte_length_grows(text, taken[i].end, taken[j].start);
    }
}

proof fn lemma_spaces_start(text: Seq<char>, i: int)
    requires
        0 <= i <= text.len(),
    ensures
        0 <= spaces_start(text, i) <= i,
        forall|j: int| spaces_start(text, i) <= j < i ==> horizontal(#[trigger] text[j]),
    decreases i,
{
    if 0 < i && horizontal(text[i - 1]) {
        lemma_spaces_start(text, i - 1);
    }
}

proof fn lemma_same_start(text: Seq<char>, i: int)
    requires
        0 <= i < text.len(),
    ensures
        0 <= same_start(text, i) <= i,
        forall|j: int| same_start(text, i) <= j <= i ==> #[trigger] text[j] == text[i],
    decreases i,
{
    if 0 < i && text[i - 1] == text[i] {
        lemma_same_start(text, i - 1);
    }
}

/// All changes come from rules of the rank `rank`, from left to right.
pub open spec fn in_row(list: Seq<Mark>, rank: nat) -> bool {
    &&& forall|i: int| 0 <= i < list.len() ==> (#[trigger] list[i]).rule.rank() == rank
    &&& forall|i: int, j: int|
        0 <= i < j < list.len() ==> (#[trigger] list[i]).start < (#[trigger] list[j]).start
}

proof fn lemma_tokens_in_row(text: Seq<char>, n: int)
    requires
        0 <= n <= text.len(),
    ensures
        forall|k: int| 0 <= k < tokens(text, n).len() ==> (#[trigger] tokens(text, n)[k]).1 <= n,
        forall|k: int, l: int|
            0 <= k < l < tokens(text, n).len() ==> (#[trigger] tokens(text, n)[k]).1 < (
            #[trigger] tokens(text, n)[l]).1,
    decreases n,
{
    if n > 0 {
        lemma_tokens_in_row(text, n - 1);
        let before = tokens(text, n - 1);
        let all = tokens(text, n);
        assert forall|k: int| 0 <= k < all.len() implies (#[trigger] all[k]).1 <= n by {
            if k < before.len() {
                assert(all[k] == before[k]);
            }
        }
        assert forall|k: int, l: int| 0 <= k < l < all.len() implies (#[trigger] all[k]).1 < (
        #[trigger] all[l]).1 by {
            assert(all[k] == before[k]);
            if l < before.len() {
                assert(all[l] == before[l]);
            }
        }
    }
}

proof fn lemma_words_in_row(text: Seq<char>, spans: Seq<(int, int)>, n: int)
    requires
        0 <= n <= spans.len(),
        forall|k: int, l: int|
            0 <= k < l < spans.len() ==> (#[trigger] spans[k]).1 < (#[trigger] spans[l]).1,
    ensures
        in_row(repeated_word_marks(text, spans, n), 1),
        n < 2 ==> repeated_word_marks(text, spans, n).len() == 0,
        n >= 2 ==> forall|i: int|
            0 <= i < repeated_word_marks(text, spans, n).len() ==> (
            #[trigger] repeated_word_marks(text, spans, n)[i]).start <= spans[n - 2].1,
    decreases n,
{
    if n >= 2 {
        lemma_words_in_row(text, spans, n - 1);
        if n >= 3 {
            assert(spans[n - 3].1 < spans[n - 2].1);
        }
    }
}

proof fn lemma_spacing_in_row(text: Seq<char>, n: int)
    requires
        0 <= n <= text.len(),
    ensures
        in_row(spacing_marks(text, n), 2),
        forall|i: int|
            0 <= i < spacing_marks(text, n).len() ==> {
                let m = #[trigger] spacing_marks(text, n)[i];
                m.start < m.end < n && sentence_punctuation(text[m.end])
            },
    decreases n,
{
    if n > 0 {
        lemma_spacing_in_row(text, n - 1);
        lemma_spaces_start(text, n - 1);
        let list = spacing_marks(text, n - 1);
        assert forall|i: int| 0 <= i < list.len() && spaces_start(text, n - 1) < n - 1 implies (
        #[trigger] list[i]).start < spaces_start(text, n - 1) by {
            let m = list[i];
            if spaces_start(text, n - 1) <= m.end {
                assert(horizontal(text[m.end]));
            }
        }
    }
}

proof fn lemma_punctuation_in_row(text: Seq<char>, n: int)
    requires
        0 <= n <= text.len(),
    ensures
        in_row(punctuation_marks(text, n), 3),
        forall|i: int|
            0 <= i < punctuation_marks(text, n).len() ==> {
                let m = #[trigger] punctuation_marks(text, n)[i];
                m.start < m.end <= n && (m.end < text.len() ==> text[m.end] != text[m.end - 1])
            },
    decreases n,
{
    if n > 0 {
        lemma_punctuation_in_row(text, n - 1);
        lemma_same_start(text, n - 1);
        let list = punctuation_marks(text, n - 1);
        assert forall|i: int| 0 <= i < list.len() implies (#[trigger] list[i]).start < same_start(
            text,
            n - 1,
        ) by {
            let m = list[i];
            if same_start(text, n - 1) < m.end {
                assert(text[m.end] == text[n - 1]);
                assert(text[m.end - 1] == text[n - 1]);
            }
        }
    }
}

proof fn lemma_spaces_in_row(text: Seq<char>, n: int)
    requires
        0 <= n <= text.len(),
    ensures
        in_row(space_marks(text, n), 4),
        forall|i: int|
            0 <= i < space_marks(text, n).len() ==> {
                let m = #[trigger] space_marks(text, n)[i];
                m.start < m.end <= n && m.end < text.len() && !horizontal(text[m.end])
            },
    decreases n,
{
    if n > 0 {
        lemma_spaces_in_row(text, n - 1);
        lemma_spaces_start(text, n);
        let list = space_marks(text, n - 1);
        assert forall|i: int| 0 <= i < list.len() && spaces_start(text, n) < n implies (
        #[trigger] list[i]).start < spaces_start(text, n) by {
            let m = list[i];
            if spaces_start(text, n) <= m.end {
                assert(horizontal(text[m.end]));
            }
        }
    }
}

proof fn lemma_case_in_row(text: Seq<char>, n: int)
    requires
        0 <= n <= text.len(),
    ensures
        in_row(case_marks(text, n), 5),
        forall|i: int|
            0 <= i < case_marks(text, n).len() ==> (#[trigger] case_marks(text, n)[i]).start < n,
    decreases n,
{
    if n > 0 {
        lemma_case_in_row(text, n - 1);
    }
}

/// The proposals come in the order of precedence: by the rank of their rule, and for one rank
/// from left to right.
pub open spec fn by_precedence(list: Seq<Mark>) -> bool {
    forall|i: int, j: int|
        0 <= i < j < list.len() ==> {
            let a = #[trigger] list[i];
            let b = #[trigger] list[j];
            a.rule.rank() < b.rule.rank() || (a.rule.rank() == b.rule.rank() && a.start < b.start)
        }
}

proof fn lemma_rows_join(list: Seq<Mark>, row: Seq<Mark>, rank: nat)
    requires
        by_precedence(list),
        forall|i: int| 0 <= i < list.len() ==> (#[trigger] list[i]).rule.rank() < rank,
        in_row(row, rank),
    ensures
        by_precedence(list + row),
        forall|i: int|
            0 <= i < (list + row).len() ==> (#[trigger] (list + row)[i]).rule.rank() <= rank,
{
    let all = list + row;
    assert forall|i: int, j: int| 0 <= i < j < all.len() implies ({
        let a = #[trigger] all[i];
        let b = #[trigger] all[j];
        a.rule.rank() < b.rule.rank() || (a.rule.rank() == b.rule.rank() && a.start < b.start)
    }) by {
        if j < list.len() {
            assert(all[i] == list[i] && all[j] == list[j]);
        } else if i < list.len() {
            assert(all[i] == list[i] && all[j] == row[j - list.len()]);
        } else {
            assert(all[i] == row[i - list.len()] && all[j] == row[j - list.len()]);
        }
    }
}

/// What the rules propose is in the order of precedence, so that the choice among proposals
/// prefers a higher rule and, within one rule, what stands further left.
pub proof fn law_proposals_by_precedence(text: Seq<char>)
    ensures
        by_precedence(proposals(text)),
{
    let n = text.len() as int;
    let spans = tokens(text, n);
    lemma_tokens_in_row(text, n);
    lemma_words_in_row(text, spans, spans.len() as int);
    lemma_spacing_in_row(text, n);
    lemma_punctuation_in_row(text, n);
    lemma_spaces_in_row(text, n);
    lemma_case_in_row(text, n);
    let a = outer_marks(text);
    assert(in_row(a, 0));
    let b = a + repeated_word_marks(text, spans, spans.len() as int);
    lemma_rows_join(a, repeated_word_marks(text, spans, spans.len() as int), 1);
    let c = b + spacing_marks(text, n);
    lemma_rows_join(b, spacing_marks(text, n), 2);
    let d = c + punctuation_marks(text, n);
    lemma_rows_join(c, punctuation_marks(text, n), 3);
    let e = d + space_marks(text, n);
    lemma_rows_join(d, space_marks(text, n), 4);
    lemma_rows_join(e, case_marks(text, n), 5);
}

/// A mark that ends a sentence.
pub open spec fn full_stop(c: char) -> bool {
    c == '.' || c == '!' || c == '?' || c == '。' || c == '！' || c == '？'
}

/// What may stand between two sentences beside white space.
pub open spec fn opens_quotation(c: char) -> bool {
    c == '"' || c == '\'' || c == '“' || c == '‘' || c == '(' || c == '[' || c == '{'
}

/// Nothing in the text looks like an address.
pub open spec fn free_of_addresses(text: Seq<char>) -> bool {
    forall|k: int| #![trigger text[k]]
        0 <= k < text.len() ==> {
            &&& text[k] != '@'
            &&& !(k + 2 < text.len() && text[k] == ':' && text[k + 1] == '/' && text[k + 2] == '/')
            &&& !(k + 3 < text.len() && text[k] == 'w' && text[k + 1] == 'w' && text[k + 2] == 'w'
                && text[k + 3] == '.')
        }
}

proof fn lemma_tokens_within(text: Seq<char>, n: int)
    requires
        0 <= n <= text.len(),
    ensures
        forall|k: int|
            0 <= k < tokens(text, n).len() ==> 0 <= (#[trigger] tokens(text, n)[k]).0
                < tokens(text, n)[k].1 <= n,
    decreases n,
{
    if n > 0 {
        lemma_tokens_within(text, n - 1);
        lemma_token_start(text, n - 1);
        let before = tokens(text, n - 1);
        assert forall|k: int| 0 <= k < tokens(text, n).len() implies 0 <= (#[trigger] tokens(
            text,
            n,
        )[k]).0 < tokens(text, n)[k].1 <= n by {
            if k < before.len() {
                assert(tokens(text, n)[k] == before[k]);
            }
        }
    }
}

proof fn lemma_token_start(text: Seq<char>, i: int)
    requires
        0 <= i < text.len(),
    ensures
        0 <= token_start(text, i) <= i,
        forall|j: int| token_start(text, i) <= j < i ==> !white_space(#[trigger] text[j]),
        token_start(text, i) > 0 ==> white_space(text[token_start(text, i) - 1]),
    decreases i,
{
    if i > 0 && !white_space(text[i - 1]) {
        lemma_token_start(text, i - 1);
    }
}

proof fn lemma_no_address(text: Seq<char>, i: int)
    requires
        free_of_addresses(text),
    ensures
        !in_address(text, i),
{
    let n = text.len() as int;
    let spans = tokens(text, n);
    lemma_tokens_within(text, n);
    reveal_strlit("://");
    reveal_strlit("@");
    reveal_strlit("www.");
    assert forall|k: int| 0 <= k < spans.len() implies !is_address(
        text.subrange((#[trigger] spans[k]).0, spans[k].1),
    ) by {
        let a = spans[k].0;
        let token = text.subrange(a, spans[k].1);
        assert forall|at: int| !(#[trigger] crate::text::stands_at(token, "://"@, at)) by {
            if crate::text::stands_at(token, "://"@, at) {
                let part = token.subrange(at, at + 3);
                assert(part == "://"@);
                assert(part[0] == text[a + at] && part[1] == text[a + at + 1] && part[2] == text[a
                    + at + 2]);
            }
        }
        assert forall|at: int| !(#[trigger] crate::text::stands_at(token, "@"@, at)) by {
            if crate::text::stands_at(token, "@"@, at) {
                let part = token.subrange(at, at + 1);
                assert(part == "@"@);
                assert(part[0] == text[a + at]);
            }
        }
        if begins(token, "www."@) {
            let part = token.subrange(0, 4);
            assert(part == "www."@);
            assert(part[0] == text[a] && part[1] == text[a + 1] && part[2] == text[a + 2] && part[3]
                == text[a + 3]);
        }
    }
}

proof fn lemma_open_behind(text: Seq<char>, p: int, i: int)
    requires
        free_of_addresses(text),
        -1 <= p < i <= text.len(),
        p >= 0 ==> sentence_open(text, p + 1),
        forall|k: int|
            p < k < i ==> white_space(#[trigger] text[k]) || opens_quotation(text[k]),
    ensures
        sentence_open(text, i),
    decreases i - p,
{
    if p + 1 < i {
        lemma_open_behind(text, p, i - 1);
        lemma_no_address(text, i - 1);
        assert(white_space(text[i - 1]) || opens_quotation(text[i - 1]));
        assert(!ascii_lower(text[i - 1]));
    }
}

/// A sentence begins with a capital: a lower-case letter from a to z at the beginning of the text, or
/// behind a mark that ends a sentence, with only white space and opening quotes before it, is
/// proposed to become its capital. The mark stands behind a character of the sentence: directly
/// behind another such mark, or behind white space or a quote, it may belong to the one before.
pub proof fn law_sentence_begins_with_a_capital(text: Seq<char>, p: int, i: int)
    requires
        free_of_addresses(text),
        -1 <= p < i < text.len(),
        p != 0,
        p > 0 ==> full_stop(text[p]) && !full_stop(text[p - 1]) && !white_space(text[p - 1])
            && !opens_quotation(text[p - 1]),
        forall|k: int|
            p < k < i ==> white_space(#[trigger] text[k]) || opens_quotation(text[k]),
        'a' <= text[i] <= 'z',
    ensures
        proposals(text).contains(
            Mark {
                start: i,
                end: i + 1,
                rule: Rule::SentenceCase,
                insert: Some(((text[i] as u32 - 32) as u32) as char),
            },
        ),
{
    if p > 0 {
        lemma_no_address(text, p);
        lemma_no_address(text, p - 1);
        assert(!sentence_open(text, p));
        assert(sentence_open(text, p + 1));
    }
    lemma_open_behind(text, p, i);
    lemma_no_address(text, i);
    let n = text.len() as int;
    let mark = Mark {
        start: i,
        end: i + 1,
        rule: Rule::SentenceCase,
        insert: Some(((text[i] as u32 - 32) as u32) as char),
    };
    lemma_case_proposed(text, n, i);
    let list = case_marks(text, n);
    let k = choose|k: int| 0 <= k < list.len() && list[k] == mark;
    let all = proposals(text);
    assert(all[all.len() - list.len() + k] == mark);
}

proof fn lemma_case_proposed(text: Seq<char>, n: int, i: int)
    requires
        0 <= i < n <= text.len(),
        !in_address(text, i),
        sentence_open(text, i),
        ascii_lower(text[i]),
    ensures
        case_marks(text, n).contains(
            Mark {
                start: i,
                end: i + 1,
                rule: Rule::SentenceCase,
                insert: Some(upper_ascii(text[i])),
            },
        ),
    decreases n,
{
    let mark = Mark {
        start: i,
        end: i + 1,
        rule: Rule::SentenceCase,
        insert: Some(upper_ascii(text[i])),
    };
    let list = case_marks(text, n);
    if n - 1 == i {
        assert(list[list.len() - 1] == mark);
    } else {
        lemma_case_proposed(text, n - 1, i);
        let before = case_marks(text, n - 1);
        let k = choose|k: int| 0 <= k < before.len() && before[k] == mark;
        assert(list[k] == mark);
    }
}

/// Only a lower-case letter from a to z at the beginning of a sentence is capitalized: the character
/// before it is none, white space, an opening quote or a mark that ends a sentence.
pub proof fn law_only_sentence_beginnings_are_capitalized(text: Seq<char>, k: int)
    requires
        0 <= k < case_marks(text, text.len() as int).len(),
    ensures
        ({
            let mark = case_marks(text, text.len() as int)[k];
            let i = mark.start;
            &&& 0 <= i < text.len()
            &&& mark.end == i + 1
            &&& 'a' <= text[i] <= 'z'
            &&& mark.insert == Some(((text[i] as u32 - 32) as u32) as char)
            &&& mark.rule == Rule::SentenceCase
            &&& i == 0 || white_space(text[i - 1]) || opens_quotation(text[i - 1]) || full_stop(
                text[i - 1],
            )
        }),
{
    lemma_case_sound(text, text.len() as int, k);
}

proof fn lemma_case_sound(text: Seq<char>, n: int, k: int)
    requires
        0 <= n <= text.len(),
        0 <= k < case_marks(text, n).len(),
    ensures
        ({
            let mark = case_marks(text, n)[k];
            let i = mark.start;
            &&& 0 <= i < n
            &&& mark.end == i + 1
            &&& ascii_lower(text[i])
            &&& sentence_open(text, i)
            &&& mark.insert == Some(upper_ascii(text[i]))
            &&& mark.rule == Rule::SentenceCase
        }),
    decreases n,
{
    if n > 0 && k < case_marks(text, n - 1).len() {
        lemma_case_sound(text, n - 1, k);
    }
}

/// A space within a line: blank, tabulator, no-break space, ideographic space.
pub open spec fn line_space(c: char) -> bool {
    c == ' ' || c == '\t' || c == '\u{00a0}' || c == '\u{3000}'
}

/// A punctuation mark that no space stands before.
pub open spec fn closing_mark(c: char) -> bool {
    ||| c == ',' || c == ';' || c == ':' || c == '!' || c == '?' || c == '.'
    ||| c == '，' || c == '；' || c == '：' || c == '！' || c == '？' || c == '。'
}

/// The characters from `a` up to `b` are a whole run of spaces.
pub open spec fn space_run(text: Seq<char>, a: int, b: int) -> bool {
    &&& 0 <= a < b <= text.len()
    &&& forall|k: int| a <= k < b ==> line_space(#[trigger] text[k])
    &&& a == 0 || !line_space(text[a - 1])
    &&& b == text.len() || !line_space(text[b])
}

proof fn lemma_spaces_start_of_run(text: Seq<char>, a: int, i: int)
    requires
        0 <= a <= i <= text.len(),
        forall|k: int| a <= k < i ==> line_space(#[trigger] text[k]),
        a == 0 || !line_space(text[a - 1]),
    ensures
        spaces_start(text, i) == a,
    decreases i - a,
{
    if a < i {
        assert(line_space(text[i - 1]));
        lemma_spaces_start_of_run(text, a, i - 1);
    }
}

proof fn lemma_spaces_end_of_run(text: Seq<char>, i: int, b: int)
    requires
        0 <= i <= b <= text.len(),
        forall|k: int| i <= k < b ==> line_space(#[trigger] text[k]),
        b == text.len() || !line_space(text[b]),
    ensures
        spaces_end(text, i) == b,
    decreases b - i,
{
    if i < b {
        assert(line_space(text[i]));
        lemma_spaces_end_of_run(text, i + 1, b);
    }
}

/// The list stands in everything that is proposed.
proof fn lemma_among_proposals(text: Seq<char>, mark: Mark)
    requires
        ({
            let n = text.len() as int;
            let spans = tokens(text, n);
            ||| outer_marks(text).contains(mark)
            ||| repeated_word_marks(text, spans, spans.len() as int).contains(mark)
            ||| spacing_marks(text, n).contains(mark)
            ||| punctuation_marks(text, n).contains(mark)
            ||| space_marks(text, n).contains(mark)
            ||| case_marks(text, n).contains(mark)
        }),
    ensures
        proposals(text).contains(mark),
{
    let n = text.len() as int;
    let spans = tokens(text, n);
    let a = outer_marks(text);
    let b = repeated_word_marks(text, spans, spans.len() as int);
    let c = spacing_marks(text, n);
    let d = punctuation_marks(text, n);
    let e = space_marks(text, n);
    let f = case_marks(text, n);
    let all = proposals(text);
    if a.contains(mark) {
        let k = choose|k: int| 0 <= k < a.len() && a[k] == mark;
        assert(all[k] == mark);
    } else if b.contains(mark) {
        let k = choose|k: int| 0 <= k < b.len() && b[k] == mark;
        assert(all[a.len() + k] == mark);
    } else if c.contains(mark) {
        let k = choose|k: int| 0 <= k < c.len() && c[k] == mark;
        assert(all[a.len() + b.len() + k] == mark);
    } else if d.contains(mark) {
        let k = choose|k: int| 0 <= k < d.len() && d[k] == mark;
        assert(all[a.len() + b.len() + c.len() + k] == mark);
    } else if e.contains(mark) {
        let k = choose|k: int| 0 <= k < e.len() && e[k] == mark;
        assert(all[a.len() + b.len() + c.len() + d.len() + k] == mark);
    } else {
        let k = choose|k: int| 0 <= k < f.len() && f[k] == mark;
        assert(all[a.len() + b.len() + c.len() + d.len() + e.len() + k] == mark);
    }
}

/// Spaces at the beginning and at the end of the text are proposed to go.
pub proof fn law_outer_spaces_go(text: Seq<char>, a: int, b: int)
    requires
        space_run(text, a, b),
    ensures
        a == 0 ==> proposals(text).contains(
            Mark { start: 0, end: b, rule: Rule::LeadingSpace, insert: None },
        ),
        a > 0 && b == text.len() ==> proposals(text).contains(
            Mark { start: a, end: b, rule: Rule::TrailingSpace, insert: None },
        ),
{
    let leading = spaces_end(text, 0);
    let trailing = spaces_start(text, text.len() as int);
    let list = outer_marks(text);
    if a == 0 {
        lemma_spaces_end_of_run(text, 0, b);
        assert(list[0] == Mark { start: 0, end: b, rule: Rule::LeadingSpace, insert: None });
        lemma_among_proposals(
            text,
            Mark { start: 0, end: b, rule: Rule::LeadingSpace, insert: None },
        );
    } else if b == text.len() {
        lemma_spaces_start_of_run(text, a, b);
        lemma_leading_stops(text, 0, a - 1);
        assert(list[list.len() - 1] == Mark {
            start: a,
            end: b,
            rule: Rule::TrailingSpace,
            insert: None,
        });
        lemma_among_proposals(
            text,
            Mark { start: a, end: b, rule: Rule::TrailingSpace, insert: None },
        );
    }
}

proof fn lemma_leading_stops(text: Seq<char>, i: int, stop: int)
    requires
        0 <= i <= stop < text.len(),
        !line_space(text[stop]),
    ensures
        spaces_end(text, i) <= stop,
    decreases stop - i,
{
    if i < stop && line_space(text[i]) {
        lemma_leading_stops(text, i + 1, stop);
    }
}

/// Spaces before a punctuation mark are proposed to go.
pub proof fn law_spaces_before_punctuation_go(text: Seq<char>, a: int, i: int)
    requires
        space_run(text, a, i),
        i < text.len(),
        closing_mark(text[i]),
    ensures
        proposals(text).contains(
            Mark { start: a, end: i, rule: Rule::PunctuationSpacing, insert: None },
        ),
{
    let mark = Mark { start: a, end: i, rule: Rule::PunctuationSpacing, insert: None };
    lemma_spaces_start_of_run(text, a, i);
    lemma_spacing_proposed(text, text.len() as int, i);
    lemma_among_proposals(text, mark);
}

proof fn lemma_spacing_proposed(text: Seq<char>, n: int, i: int)
    requires
        0 <= i < n <= text.len(),
        sentence_punctuation(text[i]),
        spaces_start(text, i) < i,
    ensures
        spacing_marks(text, n).contains(
            Mark {
                start: spaces_start(text, i),
                end: i,
                rule: Rule::PunctuationSpacing,
                insert: None,
            },
        ),
    decreases n,
{
    let mark = Mark {
        start: spaces_start(text, i),
        end: i,
        rule: Rule::PunctuationSpacing,
        insert: None,
    };
    let list = spacing_marks(text, n);
    if n - 1 == i {
        assert(list[list.len() - 1] == mark);
    } else {
        lemma_spacing_proposed(text, n - 1, i);
        let before = spacing_marks(text, n - 1);
        let k = choose|k: int| 0 <= k < before.len() && before[k] == mark;
        assert(list[k] == mark);
    }
}

/// A run of two or more of one punctuation mark is proposed to become one; full stops are left alone,
/// so that an ellipsis stays.
pub proof fn law_repeated_punctuation_becomes_one(text: Seq<char>, a: int, b: int)
    requires
        0 <= a,
        a + 2 <= b <= text.len(),
        forall|k: int| a <= k < b ==> #[trigger] text[k] == text[a],
        a == 0 || text[a - 1] != text[a],
        b == text.len() || text[b] != text[a],
    ensures
        closing_mark(text[a]) && text[a] != '.' && text[a] != '。' ==> proposals(text).contains(
            Mark { start: a, end: b, rule: Rule::RepeatedPunctuation, insert: Some(text[a]) },
        ),
{
    if closing_mark(text[a]) && text[a] != '.' && text[a] != '。' {
        let mark = Mark { start: a, end: b, rule: Rule::RepeatedPunctuation, insert: Some(text[a]) };
        lemma_same_start_of_run(text, a, b - 1);
        lemma_punctuation_proposed(text, text.len() as int, a, b);
        lemma_among_proposals(text, mark);
    }
}

proof fn lemma_same_start_of_run(text: Seq<char>, a: int, i: int)
    requires
        0 <= a <= i < text.len(),
        forall|k: int| a <= k <= i ==> #[trigger] text[k] == text[a],
        a == 0 || text[a - 1] != text[a],
    ensures
        same_start(text, i) == a,
    decreases i - a,
{
    assert(text[i] == text[a]);
    if a < i {
        assert(text[i - 1] == text[a]);
        lemma_same_start_of_run(text, a, i - 1);
    }
}

proof fn lemma_punctuation_proposed(text: Seq<char>, n: int, a: int, b: int)
    requires
        0 <= a,
        a + 2 <= b <= n <= text.len(),
        text[b - 1] == text[a],
        same_start(text, b - 1) == a,
        b == text.len() || text[b] != text[a],
        collapsible(text[a]),
    ensures
        punctuation_marks(text, n).contains(
            Mark { start: a, end: b, rule: Rule::RepeatedPunctuation, insert: Some(text[a]) },
        ),
    decreases n,
{
    let mark = Mark { start: a, end: b, rule: Rule::RepeatedPunctuation, insert: Some(text[a]) };
    let list = punctuation_marks(text, n);
    if n == b {
        assert(list[list.len() - 1] == mark);
    } else {
        lemma_punctuation_proposed(text, n - 1, a, b);
        let before = punctuation_marks(text, n - 1);
        let k = choose|k: int| 0 <= k < before.len() && before[k] == mark;
        assert(list[k] == mark);
    }
}

/// Two or more spaces within a line, neither at its beginning nor at the end of the text, are
/// proposed to become one blank.
pub proof fn law_repeated_spaces_become_one(text: Seq<char>, a: int, b: int)
    requires
        space_run(text, a, b),
        a + 2 <= b < text.len(),
        a > 0,
        text[a - 1] != '\n',
    ensures
        proposals(text).contains(
            Mark { start: a, end: b, rule: Rule::RepeatedSpace, insert: Some(' ') },
        ),
{
    lemma_spaces_start_of_run(text, a, b);
    lemma_space_proposed(text, text.len() as int, a, b);
    lemma_among_proposals(
        text,
        Mark { start: a, end: b, rule: Rule::RepeatedSpace, insert: Some(' ') },
    );
}

proof fn lemma_space_proposed(text: Seq<char>, n: int, a: int, b: int)
    requires
        0 < a,
        a + 2 <= b <= n <= text.len(),
        b < text.len(),
        !horizontal(text[b]),
        spaces_start(text, b) == a,
        text[a - 1] != '\n',
    ensures
        space_marks(text, n).contains(
            Mark { start: a, end: b, rule: Rule::RepeatedSpace, insert: Some(' ') },
        ),
    decreases n,
{
    let mark = Mark { start: a, end: b, rule: Rule::RepeatedSpace, insert: Some(' ') };
    let list = space_marks(text, n);
    if n == b {
        assert(list[list.len() - 1] == mark);
    } else {
        lemma_space_proposed(text, n - 1, a, b);
        let before = space_marks(text, n - 1);
        let k = choose|k: int| 0 <= k < before.len() && before[k] == mark;
        assert(list[k] == mark);
    }
}

/// The characters from `a` up to `b` stand between white space and are a word, which ends at `w`, and
/// punctuation marks behind it.
pub open spec fn spoken_word(text: Seq<char>, a: int, w: int, b: int) -> bool {
    &&& 0 <= a < w <= b <= text.len()
    &&& a == 0 || white_space(text[a - 1])
    &&& b == text.len() || white_space(text[b])
    &&& forall|k: int|
        a <= k < w ==> !white_space(#[trigger] text[k]) && !closing_mark(text[k]) && alphanumeric(
            text[k],
        )
    &&& forall|k: int| w <= k < b ==> closing_mark(#[trigger] text[k])
}

proof fn lemma_token_of_word(text: Seq<char>, a: int, i: int)
    requires
        0 <= a <= i < text.len(),
        a == 0 || white_space(text[a - 1]),
        forall|k: int| a <= k <= i ==> !white_space(#[trigger] text[k]),
    ensures
        token_start(text, i) == a,
    decreases i - a,
{
    if a < i {
        assert(!white_space(text[i - 1]));
        lemma_token_of_word(text, a, i - 1);
    }
}

proof fn lemma_tokens_over_space(text: Seq<char>, b: int, n: int)
    requires
        0 <= b <= n <= text.len(),
        forall|k: int| b <= k < n ==> white_space(#[trigger] text[k]),
    ensures
        tokens(text, n) == tokens(text, b),
    decreases n - b,
{
    if b < n {
        assert(white_space(text[n - 1]));
        lemma_tokens_over_space(text, b, n - 1);
    }
}

proof fn lemma_tokens_over_word(text: Seq<char>, c: int, n: int)
    requires
        0 <= c < n <= text.len(),
        c == 0 || white_space(text[c - 1]),
        forall|k: int| c <= k < n ==> !white_space(#[trigger] text[k]),
    ensures
        n < text.len() && !white_space(text[n]) ==> tokens(text, n) == tokens(text, c),
        n == text.len() || white_space(text[n]) ==> tokens(text, n) == tokens(text, c).push((c, n)),
    decreases n - c,
{
    assert(!white_space(text[n - 1]));
    if c + 1 < n {
        assert(!white_space(text[n - 2]));
        lemma_tokens_over_word(text, c, n - 1);
    }
    if n == text.len() || white_space(text[n]) {
        lemma_token_of_word(text, c, n - 1);
    }
}

proof fn lemma_tokens_grow(text: Seq<char>, m: int, n: int)
    requires
        0 <= m <= n <= text.len(),
    ensures
        tokens(text, m).len() <= tokens(text, n).len(),
        forall|k: int|
            0 <= k < tokens(text, m).len() ==> tokens(text, n)[k] == #[trigger] tokens(text, m)[k],
    decreases n - m,
{
    if m < n {
        lemma_tokens_grow(text, m, n - 1);
    }
}

proof fn lemma_word_proposed(text: Seq<char>, spans: Seq<(int, int)>, n: int, k: int)
    requires
        2 <= k <= n <= spans.len(),
        repeats(text, spans[k - 2], spans[k - 1]),
    ensures
        repeated_word_marks(text, spans, n).contains(
            Mark {
                start: spans[k - 2].1,
                end: word_of(text, spans[k - 1]).1,
                rule: Rule::RepeatedWord,
                insert: None,
            },
        ),
    decreases n,
{
    let mark = Mark {
        start: spans[k - 2].1,
        end: word_of(text, spans[k - 1]).1,
        rule: Rule::RepeatedWord,
        insert: None,
    };
    let list = repeated_word_marks(text, spans, n);
    if n == k {
        assert(list[list.len() - 1] == mark);
    } else {
        lemma_word_proposed(text, spans, n - 1, k);
        let before = repeated_word_marks(text, spans, n - 1);
        let i = choose|i: int| 0 <= i < before.len() && before[i] == mark;
        assert(list[i] == mark);
    }
}

/// The characters differ at most in the case of a letter from A to Z.
pub open spec fn same_letter(c: char, d: char) -> bool {
    ||| c == d
    ||| 'A' <= c <= 'Z' && d as u32 == c as u32 + 32
    ||| 'A' <= d <= 'Z' && c as u32 == d as u32 + 32
}

/// A word that is said twice on a line is proposed to be said once: the second one goes, with the
/// space before it, and the punctuation behind it stays. Upper and lower case make no difference.
pub proof fn law_repeated_word_goes(
    text: Seq<char>,
    first: (int, int, int),
    second: (int, int, int),
)
    requires
        spoken_word(text, first.0, first.1, first.2),
        spoken_word(text, second.0, second.1, second.2),
        first.2 < second.0,
        forall|k: int|
            first.2 <= k < second.0 ==> white_space(#[trigger] text[k]) && text[k] != '\n',
        second.1 - second.0 == first.1 - first.0,
        forall|k: int|
            0 <= k < first.1 - first.0 ==> same_letter(
                #[trigger] text[first.0 + k],
                text[second.0 + k],
            ),
    ensures
        proposals(text).contains(
            Mark { start: first.2, end: second.1, rule: Rule::RepeatedWord, insert: None },
        ),
{
    let n = text.len() as int;
    let spans = tokens(text, n);
    let (a, w, b) = first;
    let (c, e, d) = second;
    lemma_spoken_token(text, a, w, b);
    lemma_spoken_token(text, c, e, d);
    lemma_tokens_over_word(text, a, b);
    lemma_tokens_over_space(text, b, c);
    lemma_tokens_over_word(text, c, d);
    lemma_tokens_grow(text, d, n);
    let k = tokens(text, d).len() as int;
    assert(tokens(text, d)[k - 1] == (c, d));
    assert(tokens(text, d)[k - 2] == (a, b));
    assert(spans[k - 1] == (c, d) && spans[k - 2] == (a, b));
    assert(alphanumeric(text[a]) && alphanumeric(text[c]));
    let one = lowered(text.subrange(a, w));
    let two = lowered(text.subrange(c, e));
    assert(one =~= two) by {
        assert forall|i: int| 0 <= i < w - a implies one[i] == two[i] by {
            assert(same_letter(text[a + i], text[c + i]));
        }
    }
    lemma_word_proposed(text, spans, spans.len() as int, k);
    lemma_among_proposals(text, Mark { start: b, end: e, rule: Rule::RepeatedWord, insert: None });
}

proof fn lemma_spoken_token(text: Seq<char>, a: int, w: int, b: int)
    requires
        spoken_word(text, a, w, b),
    ensures
        forall|k: int| a <= k < b ==> !white_space(#[trigger] text[k]),
        word_of(text, (a, b)) == (a, w),
{
    assert forall|k: int| a <= k < b implies !white_space(#[trigger] text[k]) by {
        if k >= w {
            assert(closing_mark(text[k]));
        }
    }
    assert(!closing_mark(text[a]));
    assert(core_start(text, a, b) == a);
    lemma_core_end_at(text, a, w, b);
}

proof fn lemma_core_end_at(text: Seq<char>, a: int, w: int, b: int)
    requires
        0 <= a < w <= b <= text.len(),
        !closing_mark(text[w - 1]),
        forall|k: int| w <= k < b ==> closing_mark(#[trigger] text[k]),
    ensures
        core_end(text, a, b) == w,
    decreases b - w,
{
    if w < b {
        assert(closing_mark(text[b - 1]));
        lemma_core_end_at(text, a, w, b - 1);
    }
}

/// The characters from `c` up to `e` say what those from `p` up to `q` say, apart from their case.
pub open spec fn says_again(text: Seq<char>, p: int, q: int, c: int, e: int) -> bool {
    &&& 0 <= p < q <= c < e <= text.len()
    &&& q - p == e - c
    &&& forall|i: int| 0 <= i < q - p ==> same_letter(#[trigger] text[p + i], text[c + i])
}

/// Only a word that repeats the one before it on its line goes.
pub proof fn law_only_repeated_words_go(text: Seq<char>, k: int)
    requires
        0 <= k < repeated_word_marks(
            text,
            tokens(text, text.len() as int),
            tokens(text, text.len() as int).len() as int,
        ).len(),
    ensures
        ({
            let spans = tokens(text, text.len() as int);
            let mark = repeated_word_marks(text, spans, spans.len() as int)[k];
            &&& mark.rule == Rule::RepeatedWord && mark.insert is None
            &&& exists|p: int, q: int, c: int| #[trigger]
                says_again(text, p, q, c, mark.end) && q <= mark.start < c && (forall|i: int|
                    mark.start <= i < c ==> #[trigger] text[i] != '\n')
        }),
{
    let n = text.len() as int;
    let spans = tokens(text, n);
    lemma_tokens_apart(text, n);
    lemma_word_mark_sound(text, spans, spans.len() as int, k);
    let mark = repeated_word_marks(text, spans, spans.len() as int)[k];
    let j = choose|j: int|
        1 <= j < spans.len() && #[trigger] repeats(text, spans[j - 1], spans[j]) && mark.start
            == spans[j - 1].1 && mark.end == word_of(text, spans[j]).1;
    let (p, q) = word_of(text, spans[j - 1]);
    let (c, e) = word_of(text, spans[j]);
    lemma_word_within(text, spans[j - 1]);
    lemma_word_within(text, spans[j]);
    let one = lowered(text.subrange(p, q));
    let two = lowered(text.subrange(c, e));
    assert(one.len() == q - p && two.len() == e - c);
    assert(q > p && e > c);
    assert forall|i: int| 0 <= i < q - p implies same_letter(
        #[trigger] text[p + i],
        text[c + i],
    ) by {
        assert(one[i] == two[i]);
        assert(text.subrange(p, q)[i] == text[p + i] && text.subrange(c, e)[i] == text[c + i]);
    }
    assert(spans[j - 1].1 < spans[j].0);
    assert(says_again(text, p, q, c, mark.end));
    assert forall|i: int| mark.start <= i < c implies #[trigger] text[i] != '\n' by {
        assert(!has_newline(text, spans[j - 1].1, spans[j].0));
    }
}

proof fn lemma_word_within(text: Seq<char>, token: (int, int))
    requires
        0 <= token.0 < token.1 <= text.len(),
    ensures
        token.0 <= word_of(text, token).0 <= word_of(text, token).1 <= token.1,
{
    lemma_core_start_within(text, token.0, token.1);
    lemma_core_end_within(text, core_start(text, token.0, token.1), token.1);
}

proof fn lemma_core_start_within(text: Seq<char>, start: int, end: int)
    requires
        0 <= start <= end <= text.len(),
    ensures
        start <= core_start(text, start, end) <= end,
    decreases end - start,
{
    if start < end && sentence_punctuation(text[start]) {
        lemma_core_start_within(text, start + 1, end);
    }
}

proof fn lemma_core_end_within(text: Seq<char>, start: int, end: int)
    requires
        0 <= start <= end <= text.len(),
    ensures
        start <= core_end(text, start, end) <= end,
    decreases end - start,
{
    if start < end && sentence_punctuation(text[end - 1]) {
        lemma_core_end_within(text, start, end - 1);
    }
}

proof fn lemma_word_mark_sound(text: Seq<char>, spans: Seq<(int, int)>, n: int, k: int)
    requires
        0 <= n <= spans.len(),
        0 <= k < repeated_word_marks(text, spans, n).len(),
    ensures
        ({
            let mark = repeated_word_marks(text, spans, n)[k];
            &&& mark.rule == Rule::RepeatedWord && mark.insert is None
            &&& exists|j: int|
                1 <= j < n && #[trigger] repeats(text, spans[j - 1], spans[j]) && mark.start
                    == spans[j - 1].1 && mark.end == word_of(text, spans[j]).1
        }),
    decreases n,
{
    if n >= 2 {
        if k < repeated_word_marks(text, spans, n - 1).len() {
            lemma_word_mark_sound(text, spans, n - 1, k);
        } else {
            assert(repeats(text, spans[(n - 1) - 1], spans[n - 1]));
        }
    }
}

proof fn lemma_tokens_apart(text: Seq<char>, n: int)
    requires
        0 <= n <= text.len(),
    ensures
        forall|k: int|
            0 <= k < tokens(text, n).len() ==> 0 <= (#[trigger] tokens(text, n)[k]).0
                < tokens(text, n)[k].1 <= n,
        forall|k: int|
            1 <= k < tokens(text, n).len() ==> tokens(text, n)[k - 1].1 < (#[trigger] tokens(
                text,
                n,
            )[k]).0,
    decreases n,
{
    lemma_tokens_within(text, n);
    if n > 0 {
        lemma_tokens_apart(text, n - 1);
        lemma_tokens_within(text, n - 1);
        lemma_token_start(text, n - 1);
        let before = tokens(text, n - 1);
        let all = tokens(text, n);
        assert forall|k: int| 1 <= k < all.len() implies all[k - 1].1 < (#[trigger] all[k]).0 by {
            if k < before.len() {
                assert(all[k] == before[k] && all[k - 1] == before[k - 1]);
            } else {
                let start = token_start(text, n - 1);
                assert(all[k] == (start, n) && all[k - 1] == before[k - 1]);
                lemma_token_ended(text, n - 1, k - 1);
                let end = before[k - 1].1;
                if end >= start {
                    assert(white_space(text[end]));
                    assert(start <= end < n);
                    assert(!white_space(text[n - 1]));
                }
                assert(end < start);
            }
        }
    }
}

proof fn lemma_token_ended(text: Seq<char>, n: int, k: int)
    requires
        0 <= n < text.len(),
        0 <= k < tokens(text, n).len(),
    ensures
        white_space(text[tokens(text, n)[k].1]),
    decreases n,
{
    if n > 0 && k < tokens(text, n - 1).len() {
        lemma_token_ended(text, n - 1, k);
        assert(tokens(text, n)[k] == tokens(text, n - 1)[k]);
    }
}

/// Every proposed change that is not empty is made, unless it would change characters that a change
/// proposed before it, and made, changes too; and only proposed changes are made.
pub proof fn law_proposals_are_made_unless_they_meet(proposed: Seq<Mark>, k: int)
    requires
        0 <= k < proposed.len(),
        proposed[k].start < proposed[k].end,
    ensures
        chosen(proposed).contains(proposed[k]) || exists|j: int|
            0 <= j < k && chosen(proposed).contains(#[trigger] proposed[j]) && proposed[j].start
                < proposed[k].end && proposed[k].start < proposed[j].end,
        forall|i: int|
            0 <= i < chosen(proposed).len() ==> proposed.contains(#[trigger] chosen(proposed)[i]),
{
    law_left_out_only_for_a_clash(proposed, k);
    lemma_chosen_among(proposed);
    if !chosen(proposed).contains(proposed[k]) {
        let early = proposed.take(k);
        let taken = chosen(early);
        let i = choose|i: int| 0 <= i < taken.len() && overlap(#[trigger] taken[i], proposed[k]);
        lemma_chosen_among(early);
        assert(early.contains(taken[i]));
        let j = choose|j: int| 0 <= j < early.len() && early[j] == taken[i];
        assert(proposed[j] == taken[i]);
        lemma_chosen_stays(proposed, k, taken[i]);
    }
}

proof fn lemma_chosen_among(proposed: Seq<Mark>)
    ensures
        forall|i: int|
            0 <= i < chosen(proposed).len() ==> proposed.contains(#[trigger] chosen(proposed)[i]),
    decreases proposed.len(),
{
    if proposed.len() > 0 {
        let before = proposed.drop_last();
        lemma_chosen_among(before);
        let taken = chosen(before);
        let mark = proposed.last();
        lemma_place_bound(taken, mark);
        let p = place(taken, mark);
        assert forall|i: int| 0 <= i < chosen(proposed).len() implies proposed.contains(
            #[trigger] chosen(proposed)[i],
        ) by {
            let m = chosen(proposed)[i];
            if !clashes(taken, mark) && i == p {
                assert(proposed[proposed.len() - 1] == m);
            } else {
                let q = if clashes(taken, mark) || i < p {
                    i
                } else {
                    i - 1
                };
                assert(taken[q] == m);
                assert(before.contains(taken[q]));
                let j = choose|j: int| 0 <= j < before.len() && before[j] == m;
                assert(proposed[j] == m);
            }
        }
    }
}

proof fn lemma_chosen_stays(proposed: Seq<Mark>, k: int, mark: Mark)
    requires
        0 <= k <= proposed.len(),
        chosen(proposed.take(k)).contains(mark),
    ensures
        chosen(proposed).contains(mark),
    decreases proposed.len() - k,
{
    if k < proposed.len() {
        let taken = chosen(proposed.take(k));
        let next = proposed.take(k + 1);
        assert(next.drop_last() =~= proposed.take(k));
        let added = next.last();
        let i = choose|i: int| 0 <= i < taken.len() && taken[i] == mark;
        if clashes(taken, added) {
            assert(chosen(next)[i] == mark);
        } else {
            lemma_place_bound(taken, added);
            let p = place(taken, added);
            let j = if i < p {
                i
            } else {
                i + 1
            };
            assert(chosen(next)[j] == mark);
        }
        lemma_chosen_stays(proposed, k + 1, mark);
    } else {
        assert(proposed.take(k) =~= proposed);
    }
}

/// Making an edit puts its replacement in the place of what it replaces and keeps everything else:
/// behind the edits before it, the text goes on up to the edit, then with its replacement, then
/// behind it.
pub proof fn law_an_edit_replaces_only_its_span(
    text: Seq<char>,
    edits: Seq<CleanupEdit>,
    a: int,
    b: int,
)
    requires
        edits.len() > 0,
        0 <= a <= b <= text.len(),
        edits_fit(text, edits),
        edits.last().start_byte == byte_length(text.take(a)),
        edits.last().end_byte == byte_length(text.take(b)),
    ensures
        edited(text, edits) == edited(text, edits.drop_last()).take(
            edited(text, edits.drop_last()).len() - (text.len() - a),
        ) + edits.last().replacement@ + text.skip(b),
{
    let n = edits.len() as int;
    let before = edits.drop_last();
    lemma_position(text, a);
    lemma_position(text, b);
    lemma_prefix_of_edits(text, edits, n - 1);
    lemma_last_edit_from(text, edits);
    let from = position(text, edits_end(edits, n - 1));
    assert(edits_end(before, n - 1) == edits_end(edits, n - 1));
    let kept = edited_prefix(text, edits, n - 1);
    assert(edited(text, before) == kept + text.skip(from));
    assert(edited(text, edits) == kept + text.subrange(from, a) + edits.last().replacement@
        + text.skip(b));
    lemma_cut_behind(kept, text, from, a);
}

proof fn lemma_last_edit_from(text: Seq<char>, edits: Seq<CleanupEdit>)
    requires
        edits.len() > 0,
        edits_fit(text, edits),
    ensures
        0 <= position(text, edits_end(edits, edits.len() - 1)) <= position(
            text,
            edits.last().start_byte as nat,
        ),
{
    let n = edits.len() as int;
    assert(edit_fits(text, edits_end(edits, n - 1), edits[n - 1]));
    if n > 1 {
        assert(edit_fits(text, edits_end(edits, n - 2), edits[n - 2]));
    } else {
        lemma_position(text, 0);
        assert(text.take(0) =~= Seq::<char>::empty());
    }
    lemma_position_order(text, edits_end(edits, n - 1), edits[n - 1].start_byte as nat);
}

proof fn lemma_cut_behind(kept: Seq<char>, text: Seq<char>, from: int, a: int)
    requires
        0 <= from <= a <= text.len(),
    ensures
        (kept + text.skip(from)).take((kept + text.skip(from)).len() - (text.len() - a)) == kept
            + text.subrange(from, a),
{
    assert((kept + text.skip(from)).take((kept + text.skip(from)).len() - (text.len() - a)) =~= kept
        + text.subrange(from, a));
}

proof fn lemma_prefix_of_edits(text: Seq<char>, edits: Seq<CleanupEdit>, n: int)
    requires
        0 <= n < edits.len(),
    ensures
        edited_prefix(text, edits.drop_last(), n) == edited_prefix(text, edits, n),
    decreases n,
{
    if n > 0 {
        lemma_prefix_of_edits(text, edits, n - 1);
    }
}

/// Without edits the text stays as it is.
pub proof fn law_no_edits_keep_the_text(text: Seq<char>)
    ensures
        edited(text, Seq::empty()) == text,
{
    lemma_position(text, 0);
    assert(text.take(0) =~= Seq::<char>::empty());
    assert(edited(text, Seq::empty()) =~= text);
}

/// Only taking away spaces, at the ends of the text and before punctuation, is safe; every other rule
/// may change what was meant and is for review. A rule that is sure is safe, or joins spaces.
pub proof fn law_only_taking_spaces_away_is_safe(rule: Rule)
    ensures
        rule.caution() == EditSafety::Safe <==> rule == Rule::LeadingSpace || rule
            == Rule::TrailingSpace || rule == Rule::PunctuationSpacing,
        rule.caution() == EditSafety::Safe || rule.caution() == EditSafety::Review,
        rule.certainty() == EditConfidence::High <==> rule.caution() == EditSafety::Safe || rule
            == Rule::RepeatedSpace,
        rule.certainty() == EditConfidence::High || rule.certainty() == EditConfidence::Medium,
{
}

/// Only whole runs of spaces at the two ends of the text go for standing there.
pub proof fn law_only_outer_spaces_go(text: Seq<char>, k: int)
    requires
        0 <= k < outer_marks(text).len(),
    ensures
        ({
            let mark = outer_marks(text)[k];
            &&& space_run(text, mark.start, mark.end)
            &&& mark.insert is None
            &&& mark.rule == Rule::LeadingSpace && mark.start == 0 || mark.rule
                == Rule::TrailingSpace && mark.end == text.len()
        }),
{
    lemma_spaces_end_run(text, 0);
    lemma_spaces_start_run(text, text.len() as int);
}

proof fn lemma_spaces_end_run(text: Seq<char>, i: int)
    requires
        0 <= i <= text.len(),
    ensures
        i <= spaces_end(text, i) <= text.len(),
        forall|k: int| i <= k < spaces_end(text, i) ==> line_space(#[trigger] text[k]),
        spaces_end(text, i) == text.len() || !line_space(text[spaces_end(text, i)]),
    decreases text.len() - i,
{
    if i < text.len() && horizontal(text[i]) {
        lemma_spaces_end_run(text, i + 1);
    }
}

proof fn lemma_spaces_start_run(text: Seq<char>, i: int)
    requires
        0 <= i <= text.len(),
    ensures
        0 <= spaces_start(text, i) <= i,
        forall|k: int| spaces_start(text, i) <= k < i ==> line_space(#[trigger] text[k]),
        spaces_start(text, i) == 0 || !line_space(text[spaces_start(text, i) - 1]),
    decreases i,
{
    if i > 0 && horizontal(text[i - 1]) {
        lemma_spaces_start_run(text, i - 1);
    }
}

/// Only whole runs of spaces right before a punctuation mark go for its sake.
pub proof fn law_only_spaces_before_punctuation_go(text: Seq<char>, n: int, k: int)
    requires
        0 <= n <= text.len(),
        0 <= k < spacing_marks(text, n).len(),
    ensures
        ({
            let mark = spacing_marks(text, n)[k];
            &&& space_run(text, mark.start, mark.end)
            &&& mark.end < n && closing_mark(text[mark.end])
            &&& mark.insert is None && mark.rule == Rule::PunctuationSpacing
        }),
    decreases n,
{
    if k < spacing_marks(text, n - 1).len() {
        law_only_spaces_before_punctuation_go(text, n - 1, k);
    } else {
        lemma_spaces_start_run(text, n - 1);
    }
}

/// Only whole runs of two or more of one mark are joined, of those marks that may be joined: full stops
/// never are, and what is left is the mark itself.
pub proof fn law_only_repeated_punctuation_is_joined(text: Seq<char>, n: int, k: int)
    requires
        0 <= n <= text.len(),
        0 <= k < punctuation_marks(text, n).len(),
    ensures
        ({
            let mark = punctuation_marks(text, n)[k];
            let c = text[mark.start];
            &&& 0 <= mark.start && mark.start + 2 <= mark.end <= n
            &&& forall|i: int| mark.start <= i < mark.end ==> #[trigger] text[i] == c
            &&& mark.start == 0 || text[mark.start - 1] != c
            &&& mark.end == text.len() || text[mark.end] != c
            &&& closing_mark(c) && c != '.' && c != '。'
            &&& mark.insert == Some(c) && mark.rule == Rule::RepeatedPunctuation
        }),
    decreases n,
{
    if k < punctuation_marks(text, n - 1).len() {
        law_only_repeated_punctuation_is_joined(text, n - 1, k);
    } else {
        lemma_same_start_run(text, n - 1);
    }
}

proof fn lemma_same_start_run(text: Seq<char>, i: int)
    requires
        0 <= i < text.len(),
    ensures
        0 <= same_start(text, i) <= i,
        forall|k: int| same_start(text, i) <= k <= i ==> #[trigger] text[k] == text[i],
        same_start(text, i) == 0 || text[same_start(text, i) - 1] != text[i],
    decreases i,
{
    if i > 0 && text[i - 1] == text[i] {
        lemma_same_start_run(text, i - 1);
    }
}

/// Only whole runs of two or more spaces within a line are joined: the indentation of a line and the
/// spaces at the end of the text are not.
pub proof fn law_only_repeated_spaces_are_joined(text: Seq<char>, n: int, k: int)
    requires
        0 <= n <= text.len(),
        0 <= k < space_marks(text, n).len(),
    ensures
        ({
            let mark = space_marks(text, n)[k];
            &&& space_run(text, mark.start, mark.end)
            &&& mark.start + 2 <= mark.end < text.len()
            &&& mark.start > 0 && text[mark.start - 1] != '\n'
            &&& mark.insert == Some(' ') && mark.rule == Rule::RepeatedSpace
        }),
    decreases n,
{
    if k < space_marks(text, n - 1).len() {
        law_only_repeated_spaces_are_joined(text, n - 1, k);
    } else {
        lemma_spaces_start_run(text, n);
    }
}

/// A letter in an address is never capitalized: in what stands between white space, with an at sign, or
/// with a scheme, or beginning with www.
pub proof fn law_addresses_are_left_alone(text: Seq<char>, a: int, b: int, at: int, k: int)
    requires
        0 <= a < b <= text.len(),
        a == 0 || white_space(text[a - 1]),
        b == text.len() || white_space(text[b]),
        forall|i: int| a <= i < b ==> !white_space(#[trigger] text[i]),
        a <= at < b,
        text[at] == '@' || at + 2 < b && text[at] == ':' && text[at + 1] == '/' && text[at + 2]
            == '/' || at == a && a + 3 < b && text[a] == 'w' && text[a + 1] == 'w' && text[a + 2]
            == 'w' && text[a + 3] == '.',
        0 <= k < case_marks(text, text.len() as int).len(),
    ensures
        !(a <= case_marks(text, text.len() as int)[k].start < b),
{
    let n = text.len() as int;
    let spans = tokens(text, n);
    lemma_tokens_over_word(text, a, b);
    lemma_tokens_grow(text, b, n);
    let j = tokens(text, b).len() - 1;
    assert(tokens(text, b)[j] == (a, b));
    assert(spans[j] == (a, b));
    let token = text.subrange(a, b);
    reveal_strlit("://");
    reveal_strlit("@");
    reveal_strlit("www.");
    if text[at] == '@' {
        assert(token.subrange(at - a, at - a + 1) =~= "@"@);
        assert(crate::text::stands_at(token, "@"@, at - a));
    } else if text[at] == ':' {
        assert(token.subrange(at - a, at - a + 3) =~= "://"@);
        assert(crate::text::stands_at(token, "://"@, at - a));
    } else {
        assert(token.subrange(0, 4) =~= "www."@);
    }
    assert(is_address(token));
    lemma_case_sound(text, n, k);
    lemma_case_outside_addresses(text, n, k);
    let i = case_marks(text, n)[k].start;
    if a <= i < b {
        assert(spans[j].0 <= i < spans[j].1);
        assert(in_address(text, i));
    }
}

proof fn lemma_case_outside_addresses(text: Seq<char>, n: int, k: int)
    requires
        0 <= n <= text.len(),
        0 <= k < case_marks(text, n).len(),
    ensures
        !in_address(text, case_marks(text, n)[k].start),
    decreases n,
{
    if n > 0 && k < case_marks(text, n - 1).len() {
        lemma_case_outside_addresses(text, n - 1, k);
    }
}

/// The edit changes the characters from `a` up to `b`.
pub open spec fn edit_spans(text: Seq<char>, edit: CleanupEdit, a: int, b: int) -> bool {
    &&& edit.start_byte == byte_length(text.take(a))
    &&& edit.end_byte == byte_length(text.take(b))
    &&& edit.original@ == text.subrange(a, b)
}

/// What is proposed stands in the report: an edit changes exactly those characters to what was
/// proposed, or one that was proposed before changes some of them already.
pub proof fn law_report_holds_what_is_proposed(text: Seq<char>, report: GrammarReport, k: int)
    requires
        report_on(text, report),
        0 <= k < proposals(text).len(),
        proposals(text)[k].start < proposals(text)[k].end,
    ensures
        ({
            let mark = proposals(text)[k];
            let put: Seq<char> = if mark.insert is Some {
                seq![mark.insert->0]
            } else {
                Seq::empty()
            };
            ||| exists|j: int|
                0 <= j < report.edits@.len() && #[trigger] edit_spans(
                    text,
                    report.edits@[j],
                    mark.start,
                    mark.end,
                ) && report.edits@[j].replacement@ == put
            ||| exists|j: int, i: int|
                0 <= j < report.edits@.len() && 0 <= i < k && #[trigger] edit_spans(
                    text,
                    report.edits@[j],
                    proposals(text)[i].start,
                    proposals(text)[i].end,
                ) && proposals(text)[i].start < mark.end && mark.start < proposals(text)[i].end
        }),
{
    let all = proposals(text);
    let taken = chosen(all);
    let mark = all[k];
    law_proposals_are_made_unless_they_meet(all, k);
    if taken.contains(mark) {
        let j = choose|j: int| 0 <= j < taken.len() && taken[j] == mark;
        assert(edit_of(text, taken[j], report.edits@[j]));
        assert(edit_spans(text, report.edits@[j], mark.start, mark.end));
        assert(report.edits@[j].replacement@ =~= inserted(mark));
    } else {
        let i = choose|i: int|
            0 <= i < k && taken.contains(#[trigger] all[i]) && all[i].start < mark.end && mark.start
                < all[i].end;
        let j = choose|j: int| 0 <= j < taken.len() && taken[j] == all[i];
        assert(edit_of(text, taken[j], report.edits@[j]));
        assert(edit_spans(text, report.edits@[j], all[i].start, all[i].end));
    }
}

/// How many of the edits are safe.
pub open spec fn safe_edits(edits: Seq<CleanupEdit>) -> nat
    decreases edits.len(),
{
    if edits.len() == 0 {
        0
    } else {
        safe_edits(edits.drop_last()) + (if edits.last().safety == EditSafety::Safe {
            1nat
        } else {
            0
        })
    }
}

/// A report counts its edits: the safe ones and the others, and it is clean exactly where there are
/// none.
pub proof fn law_report_counts_its_edits(text: Seq<char>, report: GrammarReport)
    requires
        report_on(text, report),
    ensures
        report.safe_edit_count == safe_edits(report.edits@),
        report.safe_edit_count + report.review_edit_count == report.edits@.len(),
        report.clean <==> report.edits@.len() == 0,
        report.original_characters == text.len(),
        report.original_bytes == encode_utf8(text).len(),
{
    let taken = chosen(proposals(text));
    lemma_safe_edits(text, taken, report.edits@, taken.len() as int);
    assert(taken.take(taken.len() as int) =~= taken);
    assert(report.edits@.take(taken.len() as int) =~= report.edits@);
    crate::text::lemma_byte_length(text);
}

proof fn lemma_safe_edits(text: Seq<char>, taken: Seq<Mark>, edits: Seq<CleanupEdit>, n: int)
    requires
        edits_of(text, taken, edits),
        0 <= n <= taken.len(),
    ensures
        safe_edits(edits.take(n)) == safe_count(taken.take(n)),
    decreases n,
{
    if n > 0 {
        lemma_safe_edits(text, taken, edits, n - 1);
        assert(edits.take(n).drop_last() =~= edits.take(n - 1));
        assert(taken.take(n).drop_last() =~= taken.take(n - 1));
        assert(edit_of(text, taken[n - 1], edits[n - 1]));
    }
}

} // verus!
