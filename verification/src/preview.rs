//! The preview of a message: its text without markup, cut to a fixed length.

use crate::text::{chars_of, replace, replace_text, string_of, subrange};
use vstd::prelude::*;

verus! {

/// The most characters that a preview keeps of the text.
pub const PREVIEW_LIMIT: usize = 200;

/// `s` with a blank in place of each line-break tag, in its three spellings.
pub open spec fn without_line_breaks(s: Seq<char>) -> Seq<char> {
    replace(replace(replace(s, "<br>"@, " "@), "<br/>"@, " "@), "<br />"@, " "@)
}

/// The characters of `s` that stand outside markup. A `<` opens a tag and a
/// `>` closes one; neither is kept, nor what stands between them. `in_tag`
/// says whether a tag is open where `s` begins.
pub open spec fn outside_tags(s: Seq<char>, in_tag: bool) -> Seq<char>
    decreases s.len(),
{
    if s.len() == 0 {
        Seq::empty()
    } else if s[0] == '<' {
        outside_tags(s.drop_first(), true)
    } else if s[0] == '>' {
        outside_tags(s.drop_first(), false)
    } else if in_tag {
        outside_tags(s.drop_first(), true)
    } else {
        seq![s[0]] + outside_tags(s.drop_first(), false)
    }
}

/// `s` if it has at most `limit` characters, else its first `limit`
/// characters.
pub open spec fn shortened(s: Seq<char>, limit: int) -> Seq<char> {
    if s.len() > limit {
        s.take(limit)
    } else {
        s
    }
}

/// The preview of `content`: what stands outside its markup, with blanks for
/// line breaks, cut to `PREVIEW_LIMIT` characters.
pub open spec fn preview_text(content: Seq<char>) -> Seq<char> {
    shortened(outside_tags(without_line_breaks(content), false), PREVIEW_LIMIT as int)
}

/// The characters of `v` that stand outside markup.
pub fn strip_markup(v: &Vec<char>) -> (out: Vec<char>)
    ensures
        out@ == outside_tags(v@, false),
{
    let n = v.len();
    let mut out: Vec<char> = Vec::new();
    let mut in_tag = false;
    let mut i: usize = 0;
    proof {
        assert(v@.skip(0) =~= v@);
        assert(out@ + outside_tags(v@, false) =~= outside_tags(v@, false));
    }
    while i < n
        invariant
            i <= n == v.len(),
            outside_tags(v@, false) == out@ + outside_tags(v@.skip(i as int), in_tag),
        decreases n - i,
    {
        let c = v[i];
        let ghost rest = v@.skip(i as int);
        let ghost before = out@;
        proof {
            assert(rest.drop_first() =~= v@.skip(i + 1));
        }
        if c == '<' {
            in_tag = true;
        } else if c == '>' {
            in_tag = false;
        } else if !in_tag {
            out.push(c);
            proof {
                let tail = outside_tags(v@.skip(i + 1), false);
                assert(before + (seq![c] + tail) =~= before.push(c) + tail);
            }
        }
        i = i + 1;
    }
    proof {
        assert(out@ + Seq::<char>::empty() =~= out@);
    }
    out
}

/// The preview of a message: line-break tags become blanks, markup is
/// dropped, and what is left is cut to `PREVIEW_LIMIT` characters.
pub fn extract_preview(content: &str) -> (preview: String)
    ensures
        preview@ == preview_text(content@),
        preview@.len() <= PREVIEW_LIMIT,
{
    proof {
        reveal_strlit("<br>");
        reveal_strlit("<br/>");
        reveal_strlit("<br />");
    }
    let text = chars_of(content);
    let text = replace_text(&text, "<br>", " ");
    let text = replace_text(&text, "<br/>", " ");
    let text = replace_text(&text, "<br />", " ");
    let plain = strip_markup(&text);
    if plain.len() > PREVIEW_LIMIT {
        string_of(&subrange(&plain, 0, PREVIEW_LIMIT))
    } else {
        string_of(&plain)
    }
}

/// Whether a text holds no angle bracket.
pub open spec fn is_plain(text: Seq<char>) -> bool {
    forall|i: int| 0 <= i < text.len() ==> #[trigger] text[i] != '<' && text[i] != '>'
}

/// What stands outside markup holds no angle bracket.
pub proof fn lemma_outside_tags_is_plain(s: Seq<char>, in_tag: bool)
    ensures
        is_plain(outside_tags(s, in_tag)),
    decreases s.len(),
{
    if s.len() > 0 {
        let rest = s.drop_first();
        lemma_outside_tags_is_plain(rest, true);
        lemma_outside_tags_is_plain(rest, false);
        if s[0] != '<' && s[0] != '>' && !in_tag {
            let kept = outside_tags(s, in_tag);
            let after = outside_tags(rest, false);
            assert(kept == seq![s[0]] + after);
            assert forall|i: int| 0 <= i < kept.len() implies #[trigger] kept[i] != '<' && kept[i]
                != '>' by {
                if i > 0 {
                    assert(kept[i] == after[i - 1]);
                }
            }
        }
    }
}

/// A preview holds no angle bracket, and at most `PREVIEW_LIMIT` characters.
pub proof fn lemma_preview_is_plain_and_short(content: Seq<char>)
    ensures
        is_plain(preview_text(content)),
        preview_text(content).len() <= PREVIEW_LIMIT,
{
    let plain = outside_tags(without_line_breaks(content), false);
    lemma_outside_tags_is_plain(without_line_breaks(content), false);
    if plain.len() > PREVIEW_LIMIT {
        let preview = preview_text(content);
        assert forall|i: int| 0 <= i < preview.len() implies #[trigger] preview[i] != '<'
            && preview[i] != '>' by {
            assert(preview[i] == plain[i]);
        }
    }
}

} // verus!
