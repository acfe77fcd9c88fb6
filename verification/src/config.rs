use vstd::prelude::*;

verus! {

/// The language of the interactive menu.
#[derive(Clone, Copy, Debug, PartialEq, Eq, Structural)]
pub enum Language {
    English,
    Vietnamese,
}

/// Settings of the application that persist between runs.
#[derive(Clone, Copy, Debug, PartialEq, Eq, Structural)]
pub struct AppConfig {
    pub language: Language,
}

/// The other language of the two.
pub open spec fn other_language(l: Language) -> Language {
    match l {
        Language::English => Language::Vietnamese,
        Language::Vietnamese => Language::English,
    }
}

impl AppConfig {
    /// The configuration used when none is stored: English.
    pub fn default() -> (c: AppConfig)
        ensures
            c.language == Language::English,
    {
        AppConfig { language: Language::English }
    }

    /// Whether the menu speaks Vietnamese.
    pub fn is_vietnamese(&self) -> (b: bool)
        ensures
            b == (self.language == Language::Vietnamese),
    {
        self.language == Language::Vietnamese
    }

    /// Switches the menu to the other language.
    pub fn toggle_language(&mut self)
        ensures
            final(self).language == other_language(old(self).language),
    {
        if self.language == Language::English {
            self.language = Language::Vietnamese;
        } else {
            self.language = Language::English;
        }
    }
}

/// Switching the language twice gives back the configuration one started with,
/// and a single switch always changes it.
pub proof fn lemma_toggle_twice(c: AppConfig)
    ensures
        other_language(other_language(c.language)) == c.language,
        other_language(c.language) != c.language,
{
}


/// The language after `n` switches starting from `l`.
pub open spec fn toggled_n(l: Language, n: nat) -> Language
    decreases n,
{
    if n == 0 {
        l
    } else {
        other_language(toggled_n(l, (n - 1) as nat))
    }
}

/// After `n` switches the language is the one started with when `n` is even,
/// and the other one when `n` is odd.
pub proof fn lemma_toggle_parity(l: Language, n: nat)
    ensures
        toggled_n(l, n) == (if n % 2 == 0 {
            l
        } else {
            other_language(l)
        }),
    decreases n,
{
    if n > 0 {
        lemma_toggle_parity(l, (n - 1) as nat);
    }
}

} // verus!
