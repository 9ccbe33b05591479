//! Filling a template: every placeholder gives way to the file's name,
//! written in the placeholder's own casing style.

use crate::casing::{mark_off, phrase, styled, styles, token, CasingStyle};
use crate::text::{contains, lemma_replace_all_absent, replace, replace_all};
use vstd::prelude::*;

verus! {

/// `text` with every placeholder that spells `word` replaced by `name`.
pub open spec fn substituted(text: Seq<char>, word: Seq<char>, name: Seq<char>) -> Seq<char> {
    replace_all(text, token(word), name)
}

/// `text` with every placeholder of `style` replaced by `stem` in that style.
pub open spec fn applied(text: Seq<char>, style: CasingStyle, stem: Seq<char>) -> Seq<char> {
    substituted(text, styled(style, phrase()), styled(style, stem))
}

/// `template` after the styles of `order` were applied to it one after the
/// other, each to what the one before it left.
pub open spec fn filled_by(template: Seq<char>, stem: Seq<char>, order: Seq<CasingStyle>) -> Seq<
    char,
>
    decreases order.len(),
{
    if order.len() == 0 {
        template
    } else {
        applied(filled_by(template, stem, order.drop_last()), order.last(), stem)
    }
}

/// `template` filled for a file whose base name is `stem`: every casing
/// style is applied once, in the order of `styles`. A later style sees what
/// the earlier ones put in.
pub open spec fn filled(template: Seq<char>, stem: Seq<char>) -> Seq<char> {
    filled_by(template, stem, styles())
}

/// Replaces every placeholder that spells `word` in `text` by `name`.
pub fn substitute(text: &str, word: &str, name: &str) -> (result: String)
    ensures
        result@ == substituted(text@, word@, name@),
{
    let mark = mark_off(word);
    if contains(text, mark.as_str()) {
        replace(text, mark.as_str(), name)
    } else {
        proof {
            lemma_replace_all_absent(text@, token(word@), name@);
        }
        text.to_owned()
    }
}

/// Fills `template` for a file whose base name is `stem`.
pub fn fill(template: &str, stem: &str) -> (contents: String)
    ensures
        contents@ == filled(template@, stem@),
{
    let order = CasingStyle::all();
    let mut contents = template.to_owned();
    let mut done: usize = 0;
    while done < order.len()
        invariant
            done <= order.len(),
            order@ == styles(),
            contents@ == filled_by(template@, stem@, styles().take(done as int)),
        decreases order.len() - done,
    {
        let style = order[done];
        let word = style.render("file name");
        let name = style.render(stem);
        contents = substitute(contents.as_str(), word.as_str(), name.as_str());
        proof {
            assert(styles().take(done + 1).drop_last() =~= styles().take(done as int));
        }
        done += 1;
    }
    proof {
        assert(styles().take(order.len() as int) =~= styles());
    }
    contents
}

} // verus!
