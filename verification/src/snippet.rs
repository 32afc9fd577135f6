//! The excerpt shown for a search hit: the start of the stored content
//! without markup, or nothing where the content is no prose.

use crate::text::{
    chars_of, contains, contains_chars, find_from, first_position, last_position,
    lemma_first_position, lemma_last_position, replace, replace_text, rfind, string_of, subrange,
    trim, trim_chars,
};
use vstd::prelude::*;

verus! {

/// The pattern of a complete tag: from a `<` to the next `>`.
pub const TAG_PATTERN: &'static str = "<[^>]*>";

/// What a key of a JSON object ends with: the closing quote and the colon.
pub const KEY_END: &'static str = "\":";

/// What `regex::Regex::replace_all` gives for the regular expression
/// `pattern` on `haystack` with the replacement `replacement`, or `None`
/// where `regex::Regex::new` rejects the pattern.
pub uninterp spec fn regex_replaced(
    pattern: Seq<char>,
    haystack: Seq<char>,
    replacement: Seq<char>,
) -> Option<Seq<char>>;

/// `regex::Regex::new` on `pattern` and, where the pattern compiles,
/// `replace_all` of that expression on `haystack` with `replacement`. The
/// result depends on the three texts alone.
#[verifier::external_body]
pub(crate) fn regex_replace_all(pattern: &str, haystack: &str, replacement: &str) -> (r: Option<String>)
    ensures
        match r {
            Some(s) => regex_replaced(pattern@, haystack@, replacement@) == Some(s@),
            None => regex_replaced(pattern@, haystack@, replacement@) is None,
        },
{
    match regex::Regex::new(pattern) {
        Ok(re) => Some(re.replace_all(haystack, replacement).into_owned()),
        Err(_) => None,
    }
}

/// Whether `s` looks like structured data and not like prose: without the
/// whitespace around it, it opens with a brace or a bracket, or it holds the
/// end of a quoted key.
pub open spec fn looks_structured(s: Seq<char>) -> bool {
    let t = trim(s);
    ||| t.len() > 0 && (t[0] == '{' || t[0] == '[')
    ||| contains(t, KEY_END@)
}

/// `s` without the tag that is cut off at its end: where the last `<` has no
/// `>` after it, `s` ends before that `<`.
pub open spec fn without_open_tail(s: Seq<char>) -> Seq<char> {
    let open = last_position(s, '<');
    if open >= 0 && last_position(s, '>') < open {
        s.take(open)
    } else {
        s
    }
}

/// `s` without the tag that is cut off at its start: where the first `>` has
/// no `<` before it, `s` begins after that `>`.
pub open spec fn without_close_head(s: Seq<char>) -> Seq<char> {
    let close = first_position(s, '>');
    if close < s.len() && close < first_position(s, '<') {
        s.skip(close + 1)
    } else {
        s
    }
}

/// `s` with the common character entities replaced by what they stand for,
/// one entity after the other over the whole text.
pub open spec fn with_entities_decoded(s: Seq<char>) -> Seq<char> {
    replace(
        replace(
            replace(replace(replace(s, "&nbsp;"@, " "@), "&amp;"@, "&"@), "&lt;"@, "<"@),
            "&gt;"@,
            ">"@,
        ),
        "&quot;"@,
        "\""@,
    )
}

/// `input` with its complete tags removed, as the regular expression engine
/// removes them. Where the engine rejects the pattern nothing is removed.
pub open spec fn untagged(input: Seq<char>) -> Seq<char> {
    match regex_replaced(TAG_PATTERN@, input, Seq::empty()) {
        Some(u) => u,
        None => input,
    }
}

/// The excerpt of `input`, given `input` without its complete tags: empty
/// where `input` looks structured; else what is left after cut-off tags at
/// both ends are dropped, entities are decoded and whitespace is trimmed.
pub open spec fn snippet_text(input: Seq<char>, untagged: Seq<char>) -> Seq<char> {
    if looks_structured(input) {
        Seq::empty()
    } else {
        trim(with_entities_decoded(without_close_head(without_open_tail(untagged))))
    }
}

/// Whether `input` looks like structured data and not like prose.
pub fn is_structured(input: &Vec<char>) -> (r: bool)
    ensures
        r == looks_structured(input@),
{
    let t = trim_chars(input);
    if t.len() > 0 && (t[0] == '{' || t[0] == '[') {
        return true;
    }
    let key_end = chars_of(KEY_END);
    contains_chars(&t, &key_end)
}

/// Drops the tag that is cut off at the end of `v`.
pub fn drop_open_tail(v: &Vec<char>) -> (out: Vec<char>)
    ensures
        out@ == without_open_tail(v@),
{
    let keep = match rfind(v, '<') {
        Some(open) => match rfind(v, '>') {
            Some(close) => if close < open {
                open
            } else {
                v.len()
            },
            None => open,
        },
        None => v.len(),
    };
    proof {
        lemma_last_position(v@, '<');
        lemma_last_position(v@, '>');
        assert(v@.subrange(0, v.len() as int) =~= v@);
    }
    subrange(v, 0, keep)
}

/// Drops the tag that is cut off at the start of `v`.
pub fn drop_close_head(v: &Vec<char>) -> (out: Vec<char>)
    ensures
        out@ == without_close_head(v@),
{
    let n = v.len();
    proof {
        assert(v@.skip(0) =~= v@);
        lemma_first_position(v@, '>');
    }
    let close = find_from(v, 0, '>');
    let open = find_from(v, 0, '<');
    if close < n && close < open {
        subrange(v, close + 1, n)
    } else {
        proof {
            assert(v@.subrange(0, n as int) =~= v@);
        }
        subrange(v, 0, n)
    }
}

/// Replaces the common character entities by what they stand for.
pub fn decode_entities(v: &Vec<char>) -> (out: Vec<char>)
    ensures
        out@ == with_entities_decoded(v@),
{
    proof {
        reveal_strlit("&nbsp;");
        reveal_strlit("&amp;");
        reveal_strlit("&lt;");
        reveal_strlit("&gt;");
        reveal_strlit("&quot;");
    }
    let s = replace_text(v, "&nbsp;", " ");
    let s = replace_text(&s, "&amp;", "&");
    let s = replace_text(&s, "&lt;", "<");
    let s = replace_text(&s, "&gt;", ">");
    replace_text(&s, "&quot;", "\"")
}

/// The excerpt of `input`, given `input` without its complete tags.
pub fn snippet_from_untagged(input: &str, untagged: &str) -> (snippet: String)
    ensures
        snippet@ == snippet_text(input@, untagged@),
{
    let raw = chars_of(input);
    if is_structured(&raw) {
        return String::new();
    }
    let text = chars_of(untagged);
    let text = drop_open_tail(&text);
    let text = drop_close_head(&text);
    let text = decode_entities(&text);
    string_of(&trim_chars(&text))
}

/// The excerpt of the stored text `input` for display: complete tags are
/// removed by the regular expression engine, then the excerpt is made of what
/// it left.
pub fn strip_html_tags(input: &str) -> (snippet: String)
    ensures
        snippet@ == snippet_text(input@, untagged(input@)),
{
    match regex_replace_all(TAG_PATTERN, input, "") {
        Some(clean) => {
            proof {
                reveal_strlit("");
                assert(""@ =~= Seq::<char>::empty());
            }
            snippet_from_untagged(input, clean.as_str())
        },
        None => {
            proof {
                reveal_strlit("");
                assert(""@ =~= Seq::<char>::empty());
            }
            snippet_from_untagged(input, input)
        },
    }
}

/// A text from which the complete tags are gone, and which is cut inside at
/// most one tag at each end, holds no angle bracket once the cut-off tags
/// are dropped. The text holds at most one `<` and at most one `>`, and the
/// `<` does not come before the `>`.
pub proof fn lemma_cut_off_tags_are_dropped(text: Seq<char>)
    requires
        forall|i: int, j: int|
            0 <= i < j < text.len() ==> !(text[i] == '<' && text[j] == '<') && !(text[i] == '>'
                && text[j] == '>') && !(text[i] == '<' && text[j] == '>'),
    ensures
        crate::preview::is_plain(without_close_head(without_open_tail(text))),
{
    lemma_last_position(text, '<');
    lemma_last_position(text, '>');
    let open = last_position(text, '<');
    let shorter = without_open_tail(text);
    if open >= 0 {
        if last_position(text, '>') >= open {
            assert(false);
        }
        assert(shorter == text.take(open));
    }
    assert forall|i: int| 0 <= i < shorter.len() implies shorter[i] != '<' by {
        if open >= 0 {
            assert(shorter[i] == text[i]);
        }
    }
    lemma_first_position(shorter, '>');
    lemma_first_position(shorter, '<');
    let close = first_position(shorter, '>');
    let kept = without_close_head(shorter);
    if close < shorter.len() {
        assert(kept == shorter.skip(close + 1));
        assert forall|i: int| 0 <= i < kept.len() implies #[trigger] kept[i] != '<' && kept[i]
            != '>' by {
            assert(kept[i] == shorter[close + 1 + i]);
            assert(shorter[close] == text[close]);
            assert(shorter[close + 1 + i] == text[close + 1 + i]);
        }
    } else {
        assert forall|i: int| 0 <= i < kept.len() implies #[trigger] kept[i] != '<' && kept[i]
            != '>' by {
        }
    }
}

} // verus!
