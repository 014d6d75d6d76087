//! Text colors chosen for a database's background color.
use vstd::prelude::*;
use crate::text::{str_eq, to_owned_string};

verus! {

/// Whether text is drawn light or dark.
#[derive(Debug, Clone, Copy, PartialEq, Eq, Structural)]
pub enum ColorType {
    Light,
    Dark,
}

impl Default for ColorType {
    /// Light text.
    fn default() -> (r: Self)
        ensures
            r == ColorType::Light,
    {
        ColorType::Light
    }
}

/// The name of a color type.
pub open spec fn color_type_name(t: ColorType) -> Seq<char> {
    match t {
        ColorType::Dark => "Dark"@,
        ColorType::Light => "Light"@,
    }
}

/// The color type with the given name, if any.
pub open spec fn color_type_named(s: Seq<char>) -> Option<ColorType> {
    if s == "Dark"@ {
        Some(ColorType::Dark)
    } else if s == "Light"@ {
        Some(ColorType::Light)
    } else {
        None
    }
}

impl ColorType {
    /// The name of this color type (its display form).
    pub fn to_string(&self) -> (r: String)
        ensures
            r@ == color_type_name(*self),
    {
        match self {
            ColorType::Dark => to_owned_string("Dark"),
            ColorType::Light => to_owned_string("Light"),
        }
    }

    /// The color type with the given name; any other name is refused.
    pub fn from_name(name: &str) -> (r: ColorType)
        requires
            color_type_named(name@) is Some,
        ensures
            color_type_named(name@) == Some(r),
    {
        if str_eq(name, "Dark") {
            ColorType::Dark
        } else {
            ColorType::Light
        }
    }
}

/// Reading back the name of a color type gives the same color type.
pub proof fn lemma_color_type_name_round_trip(t: ColorType)
    ensures
        color_type_named(color_type_name(t)) == Some(t),
{
    reveal_strlit("Dark");
    reveal_strlit("Light");
    assert("Dark"@.len() != "Light"@.len());
}

/// A background color together with the text color to draw on it.
pub struct ColorPacket {
    background_color: String,
    text_color_type: ColorType,
}

impl ColorPacket {
    /// Pairs a background color with a text color.
    pub fn new(background_color: String, text_color_type: ColorType) -> (r: ColorPacket)
        ensures
            r.background_color() == background_color@,
            r.text_color_type() == text_color_type,
    {
        ColorPacket { background_color, text_color_type }
    }

    /// The background color, as `#rrggbb`.
    pub closed spec fn background_color(&self) -> Seq<char> {
        self.background_color@
    }

    /// The text color type.
    pub closed spec fn text_color_type(&self) -> ColorType {
        self.text_color_type
    }

    /// The background color.
    pub fn get_background_color(&self) -> (r: &str)
        ensures
            r@ == self.background_color(),
    {
        self.background_color.as_str()
    }

    /// The text color type.
    pub fn get_text_color_type(&self) -> (r: ColorType)
        ensures
            r == self.text_color_type(),
    {
        self.text_color_type
    }
}

} // verus!
