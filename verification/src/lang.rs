//! Two-language support: Chinese and English.
//!
//! The process-wide current language is kept by the application in a byte
//! cell; [`Lang::save_to_global`] gives the byte to store and
//! [`Lang::from_global`] reads a stored byte back.

use vstd::prelude::*;
use crate::text::str_eq;

verus! {

/// A user-interface language.
#[derive(Clone, Copy, PartialEq, Eq, Structural, Debug)]
pub enum Lang {
    CN,
    EN,
}

/// The byte that stands for a language in the process-wide cell.
pub open spec fn lang_byte(l: Lang) -> u8 {
    match l {
        Lang::CN => 0,
        Lang::EN => 1,
    }
}

/// The language a byte of the process-wide cell stands for: 1 is English,
/// every other byte Chinese.
pub open spec fn lang_of_byte(b: u8) -> Lang {
    if b == 1 {
        Lang::EN
    } else {
        Lang::CN
    }
}

/// The other language.
pub open spec fn other_lang(l: Lang) -> Lang {
    match l {
        Lang::CN => Lang::EN,
        Lang::EN => Lang::CN,
    }
}

/// The text under which the settings store keeps a language.
pub open spec fn saved_text(l: Lang) -> Seq<char> {
    match l {
        Lang::CN => "cn"@,
        Lang::EN => "en"@,
    }
}

/// The language a stored setting names, if any.
pub open spec fn lang_of_saved(s: Seq<char>) -> Option<Lang> {
    if s == "en"@ {
        Some(Lang::EN)
    } else if s == "cn"@ {
        Some(Lang::CN)
    } else {
        None
    }
}

impl Lang {
    /// The short label of the language switch button.
    pub fn short_label(self) -> (r: &'static str)
        ensures
            r@ == match self {
                Lang::CN => "中"@,
                Lang::EN => "En"@,
            },
    {
        match self {
            Lang::CN => "中",
            Lang::EN => "En",
        }
    }

    /// The other language.
    pub fn toggle(self) -> (r: Self)
        ensures
            r == other_lang(self),
    {
        match self {
            Lang::CN => Lang::EN,
            Lang::EN => Lang::CN,
        }
    }

    /// The language a stored byte of the process-wide cell stands for:
    /// 1 is English, every other byte Chinese.
    pub fn from_global(stored: u8) -> (r: Self)
        ensures
            r == lang_of_byte(stored),
    {
        if stored == 1 {
            Lang::EN
        } else {
            Lang::CN
        }
    }

    /// The byte to store in the process-wide cell for this language.
    pub fn save_to_global(self) -> (b: u8)
        ensures
            b == lang_byte(self),
    {
        match self {
            Lang::CN => 0,
            Lang::EN => 1,
        }
    }

    /// The language for a Windows UI language id: Chinese when its primary
    /// language (the low ten bits) is Chinese (4), English otherwise.
    pub fn from_ui_language(lang_id: u16) -> (r: Self)
        ensures
            r == if lang_id & 0x3FF == 4 {
                Lang::CN
            } else {
                Lang::EN
            },
    {
        if lang_id & 0x3FF == 4 {
            Lang::CN
        } else {
            Lang::EN
        }
    }

    /// The text under which the settings store keeps this language.
    pub fn saved_code(self) -> (r: &'static str)
        ensures
            r@ == saved_text(self),
    {
        match self {
            Lang::CN => "cn",
            Lang::EN => "en",
        }
    }

    /// The language a stored setting names: "en" or "cn"; any other text
    /// names none, and the caller falls back to the system language.
    pub fn from_saved(saved: &str) -> (r: Option<Self>)
        ensures
            r == lang_of_saved(saved@),
    {
        if str_eq(saved, "en") {
            Some(Lang::EN)
        } else if str_eq(saved, "cn") {
            Some(Lang::CN)
        } else {
            None
        }
    }
}

/// Toggling twice gives back the language.
pub proof fn lemma_toggle_involutive(l: Lang)
    ensures
        other_lang(other_lang(l)) == l,
        other_lang(l) != l,
{
}

/// Reading back the byte stored for a language gives that language.
pub proof fn lemma_global_roundtrip(l: Lang)
    ensures
        lang_of_byte(lang_byte(l)) == l,
{
}

/// Reading back the saved text of a language gives that language.
pub proof fn lemma_saved_roundtrip(l: Lang)
    ensures
        lang_of_saved(saved_text(l)) == Some(l),
{
    reveal_strlit("en");
    reveal_strlit("cn");
    assert("en"@ != "cn"@) by {
        assert("en"@[0] != "cn"@[0]);
    }
}

/// Picks the text for a language.
pub fn t<'a>(lang: Lang, cn: &'a str, en: &'a str) -> (r: &'a str)
    ensures
        r == match lang {
            Lang::CN => cn,
            Lang::EN => en,
        },
{
    match lang {
        Lang::CN => cn,
        Lang::EN => en,
    }
}

/// Picks the template with placeholders for a language.
pub fn tf<'a>(lang: Lang, cn: &'a str, en: &'a str) -> (r: &'a str)
    ensures
        r == match lang {
            Lang::CN => cn,
            Lang::EN => en,
        },
{
    match lang {
        Lang::CN => cn,
        Lang::EN => en,
    }
}

} // verus!
