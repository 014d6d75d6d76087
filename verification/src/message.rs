//! Messages of the user interface, as they are handed to the translator.
use vstd::prelude::*;
use crate::outside::{no_nul, translate, translate_in_context};

verus! {

/// A message of the user interface before translation: the context that tells translators
/// where it is shown, if any, and its text in English, which is also its message id.
pub struct UiMessage {
    pub context: Option<&'static str>,
    pub id: &'static str,
}

impl UiMessage {
    /// The message's context and id as text.
    pub open spec fn parts(self) -> (Option<Seq<char>>, Seq<char>) {
        (
            match self.context {
                Some(c) => Some(c@),
                None => None,
            },
            self.id@,
        )
    }

    /// Neither the context nor the id holds a NUL character, which the translator refuses.
    pub open spec fn translatable(self) -> bool {
        &&& no_nul(self.id@)
        &&& self.context matches Some(c) ==> no_nul(c@)
    }

    /// The message in the current locale: `pgettext` with its context where it has one,
    /// `gettext` otherwise.
    pub fn translated(&self) -> String
        requires
            self.translatable(),
    {
        match self.context {
            Some(c) => translate_in_context(c, self.id),
            None => translate(self.id),
        }
    }
}

} // verus!
