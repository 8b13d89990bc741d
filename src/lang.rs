//! Language codes and the fixed rule that picks a target from a source.

use vstd::prelude::*;
use crate::text::str_eq;

verus! {

/// A language that can be chosen explicitly on the command line.
#[derive(Debug, Copy, Clone, PartialEq, Eq, Structural)]
pub enum Language {
    Chinese,
    English,
    Japanese,
}

/// The code the translation service uses for a language.
pub open spec fn language_code(l: Language) -> Seq<char> {
    match l {
        Language::Chinese => seq!['z', 'h'],
        Language::English => seq!['e', 'n'],
        Language::Japanese => seq!['j', 'p'],
    }
}

impl Language {
    /// The service code of this language: "zh", "en" or "jp".
    pub fn as_str(&self) -> (r: &'static str)
        ensures
            r@ == language_code(*self),
    {
        proof {
            reveal_strlit("zh");
            reveal_strlit("en");
            reveal_strlit("jp");
        }
        match self {
            Language::Chinese => "zh",
            Language::English => "en",
            Language::Japanese => "jp",
        }
    }
}

/// The target that the fixed rule derives from a source code, if any:
/// `zh` goes to `en`; `en` and `jp` go to `zh`.
pub open spec fn target_rule(source: Seq<char>) -> Option<Seq<char>> {
    if source == seq!['z', 'h'] {
        Some(seq!['e', 'n'])
    } else if source == seq!['e', 'n'] || source == seq!['j', 'p'] {
        Some(seq!['z', 'h'])
    } else {
        None
    }
}

/// Derives the target language from the source by the fixed rule.
pub fn get_target_lang(source: &str) -> (r: Option<&'static str>)
    ensures
        match target_rule(source@) {
            Some(t) => r is Some && r->0@ == t,
            None => r is None,
        },
{
    proof {
        reveal_strlit("zh");
        reveal_strlit("en");
        reveal_strlit("jp");
        assert("zh"@ =~= seq!['z', 'h']);
        assert("en"@ =~= seq!['e', 'n']);
        assert("jp"@ =~= seq!['j', 'p']);
    }
    if str_eq(source, "zh") {
        Some("en")
    } else if str_eq(source, "en") || str_eq(source, "jp") {
        Some("zh")
    } else {
        None
    }
}

} // verus!
