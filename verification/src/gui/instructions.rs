//! Instructions shown above a view.
use vstd::prelude::*;
use crate::message::UiMessage;
use crate::rx::virtual_hierarchy::RxViewFeature;

verus! {

/// The message shown above the list of all 2FA codes.
pub const TWO_FACTOR_AUTH_VIEW_INSTRUCTIONS: &'static str =
    "<b>Showing all 2FA codes in the database.</b><br/>View an entry's details using its action bar.";

/// The instructions for a view with the given feature, before translation: the 2FA view
/// has some, without a context; no other view has any.
pub fn instructions_message(feature: &RxViewFeature) -> (r: Option<UiMessage>)
    ensures
        r is Some <==> *feature == RxViewFeature::DisplayTwoFactorAuth,
        r matches Some(m) ==> m.parts() == (None::<Seq<char>>, TWO_FACTOR_AUTH_VIEW_INSTRUCTIONS@),
        r matches Some(m) ==> m.translatable(),
{
    match feature {
        RxViewFeature::DisplayTwoFactorAuth => {
            proof {
                reveal_strlit(
                    "<b>Showing all 2FA codes in the database.</b><br/>View an entry's details using its action bar.",
                );
            }
            Some(UiMessage { context: None, id: TWO_FACTOR_AUTH_VIEW_INSTRUCTIONS })
        },
        RxViewFeature::NoFeature => None,
    }
}

/// The translated instructions for a view with the given feature: those of
/// `instructions_message`, in the current locale.
pub fn get_instructions(feature: &RxViewFeature) -> (r: Option<String>)
    ensures
        r is Some <==> *feature == RxViewFeature::DisplayTwoFactorAuth,
{
    match instructions_message(feature) {
        Some(m) => Some(m.translated()),
        None => None,
    }
}

} // verus!
