//! Casing styles: the ways in which a phrase or a file name can be written.

use convert_case::{Case, Converter};
use vstd::prelude::*;

verus! {

/// A way of writing a phrase of several words.
///
/// The variants stand in the order in which placeholders are tried when a
/// template is filled. `UpperCamel`, `ScreamingSnake` and `UpperKebab` write
/// as `Pascal`, `UpperSnake` and `Cobol` do; they are tried a second time in
/// their own place.
#[derive(Clone, Copy, Debug, PartialEq, Eq, Structural)]
pub enum CasingStyle {
    /// `FILE NAME`
    Upper,
    /// `file name`
    Lower,
    /// `File Name`
    Title,
    /// `fILE nAME`
    Toggle,
    /// `fileName`
    Camel,
    /// `FileName`
    Pascal,
    /// `FileName`
    UpperCamel,
    /// `file_name`
    Snake,
    /// `FILE_NAME`
    UpperSnake,
    /// `FILE_NAME`
    ScreamingSnake,
    /// `file-name`
    Kebab,
    /// `FILE-NAME`
    Cobol,
    /// `FILE-NAME`
    UpperKebab,
    /// `File-Name`
    Train,
    /// `filename`
    Flat,
    /// `FILENAME`
    UpperFlat,
    /// `fIlE nAmE`
    Alternating,
}

/// What `Converter::convert` of the `convert_case` crate returns for `text`
/// once the converter was set `to_case` the case that stands for `style`.
pub uninterp spec fn styled(style: CasingStyle, text: Seq<char>) -> Seq<char>;

/// Every casing style, in the order in which placeholders are tried.
pub open spec fn styles() -> Seq<CasingStyle> {
    seq![
        CasingStyle::Upper,
        CasingStyle::Lower,
        CasingStyle::Title,
        CasingStyle::Toggle,
        CasingStyle::Camel,
        CasingStyle::Pascal,
        CasingStyle::UpperCamel,
        CasingStyle::Snake,
        CasingStyle::UpperSnake,
        CasingStyle::ScreamingSnake,
        CasingStyle::Kebab,
        CasingStyle::Cobol,
        CasingStyle::UpperKebab,
        CasingStyle::Train,
        CasingStyle::Flat,
        CasingStyle::UpperFlat,
        CasingStyle::Alternating,
    ]
}

/// The phrase that a placeholder spells out, in plain words.
pub open spec fn phrase() -> Seq<char> {
    "file name"@
}

/// A word between the two marks that make it a placeholder.
pub open spec fn token(word: Seq<char>) -> Seq<char> {
    seq!['$'] + word + seq!['$']
}

/// The placeholder that a template author writes for `style`.
pub open spec fn placeholder(style: CasingStyle) -> Seq<char> {
    token(styled(style, phrase()))
}

/// Calls `convert_case::Converter::convert` on `text`, with a converter from
/// `Converter::new` set `to_case` the entry of `Case::deterministic_cases`
/// that stands where `style` stands among the variants of `CasingStyle`.
/// The conversion reads nothing but the case and the text, so its result is
/// named by `styled`; nothing more is claimed of it.
#[verifier::external_body]
fn convert(style: CasingStyle, text: &str) -> (converted: String)
    ensures
        converted@ == styled(style, text@),
{
    Converter::new().to_case(Case::deterministic_cases()[style as usize]).convert(text)
}

impl CasingStyle {
    /// Every casing style, each once, in the order in which placeholders are
    /// tried.
    pub fn all() -> (all: Vec<CasingStyle>)
        ensures
            all@ == styles(),
    {
        vec![
            CasingStyle::Upper,
            CasingStyle::Lower,
            CasingStyle::Title,
            CasingStyle::Toggle,
            CasingStyle::Camel,
            CasingStyle::Pascal,
            CasingStyle::UpperCamel,
            CasingStyle::Snake,
            CasingStyle::UpperSnake,
            CasingStyle::ScreamingSnake,
            CasingStyle::Kebab,
            CasingStyle::Cobol,
            CasingStyle::UpperKebab,
            CasingStyle::Train,
            CasingStyle::Flat,
            CasingStyle::UpperFlat,
            CasingStyle::Alternating,
        ]
    }

    /// `text` written in this style.
    pub fn render(self, text: &str) -> (rendered: String)
        ensures
            rendered@ == styled(self, text@),
    {
        convert(self, text)
    }

    /// The placeholder that stands for the file name written in this style:
    /// the phrase `file name` in this style, between two `$`.
    pub fn placeholder(self) -> (mark: String)
        ensures
            mark@ == placeholder(self),
    {
        let word = convert(self, "file name");
        mark_off(word.as_str())
    }
}

/// `word` between two `$`.
pub fn mark_off(word: &str) -> (mark: String)
    ensures
        mark@ == token(word@),
{
    let mut mark = String::from_str("$");
    mark.append(word);
    mark.append("$");
    proof {
        reveal_strlit("$");
    }
    mark
}

} // verus!
