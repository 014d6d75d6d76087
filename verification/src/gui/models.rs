//! How a list item is rendered.
use vstd::prelude::*;
use crate::text::{str_eq, to_owned_string};

verus! {

/// A setting that controls how a list item is rendered. The list that holds the item must
/// enable the feature too, so that, for example, 2FA codes are shown only in the 2FA view.
#[derive(Debug, Clone, Copy, PartialEq, Eq, Structural)]
pub enum RxUiFeature {
    NoFeature,
    DisplayTwoFactorAuth,
}

impl Default for RxUiFeature {
    /// No feature.
    fn default() -> (r: Self)
        ensures
            r == RxUiFeature::NoFeature,
    {
        RxUiFeature::NoFeature
    }
}

/// The name of a feature, as the user interface writes it.
pub open spec fn ui_feature_name(f: RxUiFeature) -> Seq<char> {
    match f {
        RxUiFeature::NoFeature => "None"@,
        RxUiFeature::DisplayTwoFactorAuth => "DisplayTwoFactorAuth"@,
    }
}

/// The feature with the given name, if any.
pub open spec fn ui_feature_named(s: Seq<char>) -> Option<RxUiFeature> {
    if s == "None"@ {
        Some(RxUiFeature::NoFeature)
    } else if s == "DisplayTwoFactorAuth"@ {
        Some(RxUiFeature::DisplayTwoFactorAuth)
    } else {
        None
    }
}

impl RxUiFeature {
    /// The name of this feature (its display form).
    pub fn to_string(&self) -> (r: String)
        ensures
            r@ == ui_feature_name(*self),
    {
        match self {
            RxUiFeature::NoFeature => to_owned_string("None"),
            RxUiFeature::DisplayTwoFactorAuth => to_owned_string("DisplayTwoFactorAuth"),
        }
    }

    /// The feature with the given name; any other name is refused.
    pub fn from_name(name: &str) -> (r: RxUiFeature)
        requires
            ui_feature_named(name@) is Some,
        ensures
            ui_feature_named(name@) == Some(r),
    {
        if str_eq(name, "None") {
            RxUiFeature::NoFeature
        } else {
            RxUiFeature::DisplayTwoFactorAuth
        }
    }
}

/// Reading back the name of a feature gives the same feature.
pub proof fn lemma_ui_feature_name_round_trip(f: RxUiFeature)
    ensures
        ui_feature_named(ui_feature_name(f)) == Some(f),
{
    reveal_strlit("None");
    reveal_strlit("DisplayTwoFactorAuth");
    assert("None"@.len() != "DisplayTwoFactorAuth"@.len());
}

} // verus!
