//! How one translated word is laid out when printed.

use vstd::prelude::*;
use vstd::string::*;
use crate::text::contains_char;

verus! {

/// The two shapes of a printed result.
#[derive(Debug, Clone, Copy, PartialEq, Eq, Structural)]
pub enum Layout {
    /// `word -> translation`
    OneLine,
    /// `word`, an arrow, and `translation`, on three lines.
    Stacked,
}

/// The layout for `word` and its translation: stacked when the translation
/// holds a line break, or when the terminal's row count is known and the two
/// together have more characters than it.
pub open spec fn layout_of(word: Seq<char>, translated: Seq<char>, rows: Option<u16>) -> Layout {
    if translated.contains('\n') {
        Layout::Stacked
    } else if rows is Some && word.len() + translated.len() > rows->0 {
        Layout::Stacked
    } else {
        Layout::OneLine
    }
}

/// Chooses the layout of one printed result.
pub fn layout(word: &str, translated: &str, rows: Option<u16>) -> (r: Layout)
    ensures
        r == layout_of(word@, translated@, rows),
{
    if contains_char(translated, '\n') {
        return Layout::Stacked;
    }
    match rows {
        Some(rows) => {
            let word_count = word.unicode_len();
            let translated_count = translated.unicode_len();
            if word_count as u128 + translated_count as u128 > rows as u128 {
                Layout::Stacked
            } else {
                Layout::OneLine
            }
        },
        None => Layout::OneLine,
    }
}

/// The uncolored text printed for one result, without the final newline.
pub open spec fn rendered(word: Seq<char>, translated: Seq<char>, layout: Layout, concise: bool) -> Seq<char> {
    if concise {
        translated
    } else {
        match layout {
            Layout::OneLine => word + " -> "@ + translated,
            Layout::Stacked => word + "\n↓\n"@ + translated,
        }
    }
}

/// Renders one result as uncolored text.
pub fn render_plain(word: &str, translated: &str, layout: Layout, concise: bool) -> (r: String)
    ensures
        r@ == rendered(word@, translated@, layout, concise),
{
    if concise {
        return String::from_str(translated);
    }
    let mut out = String::from_str(word);
    match layout {
        Layout::OneLine => out.append(" -> "),
        Layout::Stacked => out.append("\n↓\n"),
    }
    out.append(translated);
    out
}

} // verus!
