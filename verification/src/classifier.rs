//! Rule-based classifier for the `今日中` (due-today) flag.
//!
//! A small set of regular expressions scans the raw entry text: no
//! learning, so the classification is offline and predictable. The flag is
//! sticky in the store; whether an entry actually appears in the `今日中`
//! section is also gated on `created_at` falling on the local current day
//! (see `Entry::is_due_today_now`).
//!
//! Patterns:
//!   * 今日 / 今夜 / 夕方 / 明朝 / 明日
//!   * digits + 時 (e.g. `18時`, `18時まで`), ASCII and full-width digits
//!
//! "明日" is intentionally treated as due-today: users often write
//! "明日までに" while meaning "before they go to bed tonight", and the flag
//! naturally expires when the local date rolls over anyway.

use vstd::prelude::*;

use crate::text::{contains_seq, lemma_contains_in_context};

verus! {

#[verifier::external_type_specification]
#[verifier::external_body]
pub struct ExRegex(regex::Regex);

/// Whether `regex::Regex::new` accepts `pattern`.
pub uninterp spec fn regex_compiles(pattern: Seq<char>) -> bool;

/// Whether the regular expression `pattern` matches somewhere in `haystack`.
pub uninterp spec fn regex_finds(pattern: Seq<char>, haystack: Seq<char>) -> bool;

/// `c` is one of the characters that `regex_syntax::is_meta_character`
/// lists.
pub open spec fn is_regex_meta(c: char) -> bool {
    c == '\\' || c == '.' || c == '+' || c == '*' || c == '?' || c == '(' || c == ')' || c
        == '|' || c == '[' || c == ']' || c == '{' || c == '}' || c == '^' || c == '$' || c
        == '#' || c == '&' || c == '-' || c == '~'
}

/// A short pattern made only of characters that match themselves.
pub open spec fn is_plain_literal(p: Seq<char>) -> bool {
    &&& p.len() <= 64
    &&& forall|i: int| 0 <= i < p.len() ==> !is_regex_meta(#[trigger] p[i])
}

/// A compiled regular expression together with the pattern it was built from.
/// Values are only made by `compile`, so `regex` is always `source` compiled.
pub struct Pattern {
    source: String,
    regex: regex::Regex,
}

impl Pattern {
    pub closed spec fn source(&self) -> Seq<char> {
        self.source@
    }
}

/// `regex::Regex::new`. Claims: it succeeds exactly when `regex_compiles`
/// holds of the pattern, and it always succeeds on a short pattern without
/// meta characters.
#[verifier::external_body]
fn compile(pattern: &str) -> (r: Option<Pattern>)
    ensures
        r is Some <==> regex_compiles(pattern@),
        is_plain_literal(pattern@) ==> r is Some,
        r matches Some(p) ==> p.source() == pattern@,
{
    match regex::Regex::new(pattern) {
        Ok(regex) => Some(Pattern { source: pattern.to_string(), regex }),
        Err(_) => None,
    }
}

/// `regex::Regex::is_match`: whether the regex matches anywhere in the text.
/// Claims: the result is `regex_finds` of the pattern and the text, and for a
/// pattern of plain characters it is substring containment.
#[verifier::external_body]
fn is_match(p: &Pattern, text: &str) -> (r: bool)
    ensures
        r == regex_finds(p.source(), text@),
        is_plain_literal(p.source()) ==> (r == contains_seq(text@, p.source())),
{
    p.regex.is_match(text)
}

/// The keyword patterns, each matched literally.
pub open spec fn keywords() -> Seq<Seq<char>> {
    seq!["今日"@, "今夜"@, "夕方"@, "明朝"@, "明日"@]
}

/// One or two digits (ASCII or full-width), optional whitespace, then `時`.
pub open spec fn clock_pattern() -> Seq<char> {
    "[0-9０-９]{1,2}\\s*時"@
}

/// Does the text look like something the user wants done today?
pub open spec fn due_today_spec(text: Seq<char>) -> bool {
    ||| exists|i: int| 0 <= i < keywords().len() && contains_seq(text, #[trigger] keywords()[i])
    ||| regex_compiles(clock_pattern()) && regex_finds(clock_pattern(), text)
}

/// Checks one pattern against the text; a pattern that does not compile
/// matches nothing.
fn pattern_hits(pattern: &str, text: &str) -> (r: bool)
    ensures
        r == (regex_compiles(pattern@) && regex_finds(pattern@, text@)),
        is_plain_literal(pattern@) ==> (r == contains_seq(text@, pattern@)),
{
    match compile(pattern) {
        Some(p) => is_match(&p, text),
        None => false,
    }
}

proof fn lemma_plain_two(s: Seq<char>, a: char, b: char)
    requires
        s =~= seq![a, b],
        !is_regex_meta(a),
        !is_regex_meta(b),
    ensures
        is_plain_literal(s),
{
    assert forall|i: int| 0 <= i < s.len() implies !is_regex_meta(#[trigger] s[i]) by {
        if i == 0 {
            assert(s[i] == a);
        } else {
            assert(s[i] == b);
        }
    }
}

/// Returns `true` when the text looks like something the user wants done today.
pub fn is_due_today(text: &str) -> (r: bool)
    ensures
        r == due_today_spec(text@),
{
    proof {
        reveal_strlit("今日");
        reveal_strlit("今夜");
        reveal_strlit("夕方");
        reveal_strlit("明朝");
        reveal_strlit("明日");
        lemma_plain_two("今日"@, '今', '日');
        lemma_plain_two("今夜"@, '今', '夜');
        lemma_plain_two("夕方"@, '夕', '方');
        lemma_plain_two("明朝"@, '明', '朝');
        lemma_plain_two("明日"@, '明', '日');
    }
    let k0 = pattern_hits("今日", text);
    let k1 = pattern_hits("今夜", text);
    let k2 = pattern_hits("夕方", text);
    let k3 = pattern_hits("明朝", text);
    let k4 = pattern_hits("明日", text);
    let c = pattern_hits("[0-9０-９]{1,2}\\s*時", text);
    proof {
        let ks = keywords();
        assert(ks[0] == "今日"@ && ks[1] == "今夜"@ && ks[2] == "夕方"@ && ks[3] == "明朝"@ && ks[4]
            == "明日"@);
        if exists|i: int| 0 <= i < ks.len() && contains_seq(text@, #[trigger] ks[i]) {
            let i = choose|i: int| 0 <= i < ks.len() && contains_seq(text@, #[trigger] ks[i]);
            assert(i == 0 || i == 1 || i == 2 || i == 3 || i == 4);
        }
        if k0 {
            assert(contains_seq(text@, ks[0]));
        }
        if k1 {
            assert(contains_seq(text@, ks[1]));
        }
        if k2 {
            assert(contains_seq(text@, ks[2]));
        }
        if k3 {
            assert(contains_seq(text@, ks[3]));
        }
        if k4 {
            assert(contains_seq(text@, ks[4]));
        }
    }
    k0 || k1 || k2 || k3 || k4 || c
}

/// Any text that contains one of the keywords 今日, 今夜, 夕方, 明朝 or 明日
/// is flagged as due today.
pub proof fn lemma_keyword_means_due_today(text: Seq<char>, i: int)
    requires
        0 <= i < keywords().len(),
        contains_seq(text, keywords()[i]),
    ensures
        due_today_spec(text),
{
}

/// A text flagged for one of the keywords stays flagged whatever is written
/// before or after it.
pub proof fn lemma_keyword_due_today_in_context(p: Seq<char>, text: Seq<char>, q: Seq<char>, i: int)
    requires
        0 <= i < keywords().len(),
        contains_seq(text, keywords()[i]),
    ensures
        due_today_spec(p + text + q),
{
    lemma_contains_in_context(p, text, q, keywords()[i]);
}

} // verus!
