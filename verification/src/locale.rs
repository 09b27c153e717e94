//! The languages a voice session speaks, and text supplied in each of them.
//!
//! The message catalog itself belongs to the embedding application: the
//! library receives each sentence it needs as a [`LocalizedText`].

use vstd::prelude::*;

verus! {

/// A language the voice session can speak.
#[derive(Clone, Copy, Debug, PartialEq, Eq, Hash)]
pub enum Locale {
    /// English.
    En,
    /// Simplified Chinese.
    Zh,
    /// Korean.
    Ko,
}

/// One sentence in every supported language.
#[derive(Clone, Debug, PartialEq, Eq)]
pub struct LocalizedText {
    /// The English sentence.
    pub en: String,
    /// The Chinese sentence.
    pub zh: String,
    /// The Korean sentence.
    pub ko: String,
}

impl LocalizedText {
    /// The sentence in `locale`, as a sequence of characters.
    pub open spec fn text(&self, locale: Locale) -> Seq<char> {
        match locale {
            Locale::En => self.en@,
            Locale::Zh => self.zh@,
            Locale::Ko => self.ko@,
        }
    }

    /// The sentence in `locale`.
    pub fn get(&self, locale: Locale) -> (r: &str)
        ensures
            r@ == self.text(locale),
    {
        match locale {
            Locale::En => self.en.as_str(),
            Locale::Zh => self.zh.as_str(),
            Locale::Ko => self.ko.as_str(),
        }
    }
}

} // verus!
