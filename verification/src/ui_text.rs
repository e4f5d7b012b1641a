//! Translated UI strings: a table of languages, each mapping text names to
//! display texts. The program around the library fills the table from its
//! translation files; lookups are verified here.

use vstd::prelude::*;

use crate::strings::str_eq;

verus! {

/// The languages the editor ships translations for.
#[derive(Debug, Clone, Copy, PartialEq, Eq, Structural)]
pub enum Language {
    English,
    Russian,
}

/// The table key of a language.
pub open spec fn lang_key(l: Language) -> Seq<char> {
    match l {
        Language::English => "en"@,
        Language::Russian => "ru"@,
    }
}

/// One translated string: its lookup name and its display text.
#[derive(Debug)]
pub struct TextEntry {
    pub name: String,
    pub text: String,
}

/// All strings of one language, under the language's table key.
#[derive(Debug)]
pub struct LanguageEntry {
    pub key: String,
    pub entries: Vec<TextEntry>,
}

/// The translation table and the language currently selected.
#[derive(Debug)]
pub struct UiText {
    pub language: Language,
    pub data: Vec<LanguageEntry>,
}

/// The text of the first entry carrying `name`, scanning from `i`.
pub open spec fn lookup_text_from(entries: Seq<TextEntry>, name: Seq<char>, i: int) -> Option<
    Seq<char>,
>
    decreases entries.len() - i,
    when 0 <= i <= entries.len()
{
    if i >= entries.len() {
        None
    } else if entries[i].name@ == name {
        Some(entries[i].text@)
    } else {
        lookup_text_from(entries, name, i + 1)
    }
}

/// The entries of the first language carrying `key`, scanning from `i`.
pub open spec fn lookup_lang_from(data: Seq<LanguageEntry>, key: Seq<char>, i: int) -> Option<
    Seq<TextEntry>,
>
    decreases data.len() - i,
    when 0 <= i <= data.len()
{
    if i >= data.len() {
        None
    } else if data[i].key@ == key {
        Some(data[i].entries@)
    } else {
        lookup_lang_from(data, key, i + 1)
    }
}

/// What a lookup in the table yields: the text under `name` in the
/// selected language, if both are present.
pub open spec fn spec_get(t: UiText, name: Seq<char>) -> Option<Seq<char>> {
    match lookup_lang_from(t.data@, lang_key(t.language), 0) {
        Some(entries) => lookup_text_from(entries, name, 0),
        None => None,
    }
}

impl Language {
    /// The table key of this language.
    pub fn key(&self) -> (r: &'static str)
        ensures
            r@ == lang_key(*self),
    {
        match self {
            Language::English => "en",
            Language::Russian => "ru",
        }
    }
}

impl UiText {
    /// A table over the given languages, with the given selection.
    pub fn new(language: Language, data: Vec<LanguageEntry>) -> (r: Self)
        ensures
            r.language == language,
            r.data == data,
    {
        Self { language, data }
    }

    /// The display text under `text_name` in the selected language. The
    /// key must be present in the table.
    pub fn get(&self, text_name: &str) -> (r: String)
        requires
            spec_get(*self, text_name@) is Some,
        ensures
            Some(r@) == spec_get(*self, text_name@),
    {
        let key = self.language.key();
        let dn = self.data.len();
        let mut i: usize = 0;
        while i < dn
            invariant
                dn == self.data@.len(),
                0 <= i <= dn,
                key@ == lang_key(self.language),
                lookup_lang_from(self.data@, lang_key(self.language), 0) == lookup_lang_from(
                    self.data@,
                    lang_key(self.language),
                    i as int,
                ),
                spec_get(*self, text_name@) is Some,
            decreases dn - i,
        {
            if str_eq(self.data[i].key.as_str(), key) {
                let entries = &self.data[i].entries;
                let en = entries.len();
                let mut j: usize = 0;
                while j < en
                    invariant
                        en == entries@.len(),
                        0 <= j <= en,
                        key@ == lang_key(self.language),
                        entries@ == self.data@[i as int].entries@,
                        i < self.data@.len(),
                        self.data@[i as int].key@ == lang_key(self.language),
                        lookup_text_from(entries@, text_name@, 0) == lookup_text_from(
                            entries@,
                            text_name@,
                            j as int,
                        ),
                        lookup_lang_from(self.data@, lang_key(self.language), 0) == Some(
                            entries@,
                        ),
                        spec_get(*self, text_name@) is Some,
                    decreases en - j,
                {
                    if str_eq(entries[j].name.as_str(), text_name) {
                        return entries[j].text.clone();
                    }
                    j = j + 1;
                }
                proof {
                    assert(lookup_text_from(entries@, text_name@, en as int) is None);
                    assert(false);
                }
            }
            i = i + 1;
        }
        proof {
            assert(lookup_lang_from(self.data@, lang_key(self.language), dn as int) is None);
            assert(false);
        }
        String::new()
    }
}

} // verus!
