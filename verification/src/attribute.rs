//! Styling attributes carried by expression nodes.

use vstd::prelude::*;

verus! {

/// The style in which an identifier glyph is drawn.
///
/// `Italic` is the style an identifier has when nothing is said, so the
/// renderer leaves the attribute out for it.
#[derive(Debug, Clone, Copy, PartialEq, Eq)]
pub enum Variant {
    Normal,
    Italic,
    Bold,
    BoldItalic,
    DoubleStruck,
    BoldFraktur,
    Script,
    BoldScript,
    Fraktur,
    SansSerif,
    BoldSansSerif,
    SansSerifItalic,
    SansSerifBoldItalic,
    Monospace,
}

impl Variant {
    /// The value that the `mathvariant` attribute takes for this style.
    pub open spec fn name_spec(self) -> Seq<char> {
        match self {
            Variant::Normal => "normal"@,
            Variant::Italic => "italic"@,
            Variant::Bold => "bold"@,
            Variant::BoldItalic => "bold-italic"@,
            Variant::DoubleStruck => "double-struck"@,
            Variant::BoldFraktur => "bold-fraktur"@,
            Variant::Script => "script"@,
            Variant::BoldScript => "bold-script"@,
            Variant::Fraktur => "fraktur"@,
            Variant::SansSerif => "sans-serif"@,
            Variant::BoldSansSerif => "bold-sans-serif"@,
            Variant::SansSerifItalic => "sans-serif-italic"@,
            Variant::SansSerifBoldItalic => "sans-serif-bold-italic"@,
            Variant::Monospace => "monospace"@,
        }
    }

    /// Whether this is the style that needs no attribute.
    pub open spec fn is_default_spec(self) -> bool {
        self is Italic
    }

    pub fn name(&self) -> (text: &'static str)
        ensures
            text@ == self.name_spec(),
    {
        match self {
            Variant::Normal => "normal",
            Variant::Italic => "italic",
            Variant::Bold => "bold",
            Variant::BoldItalic => "bold-italic",
            Variant::DoubleStruck => "double-struck",
            Variant::BoldFraktur => "bold-fraktur",
            Variant::Script => "script",
            Variant::BoldScript => "bold-script",
            Variant::Fraktur => "fraktur",
            Variant::SansSerif => "sans-serif",
            Variant::BoldSansSerif => "bold-sans-serif",
            Variant::SansSerifItalic => "sans-serif-italic",
            Variant::SansSerifBoldItalic => "sans-serif-bold-italic",
            Variant::Monospace => "monospace",
        }
    }

    pub fn is_default(&self) -> (b: bool)
        ensures
            b == self.is_default_spec(),
    {
        match self {
            Variant::Italic => true,
            _ => false,
        }
    }
}

/// Whether an operator placed over or under a base is an accent.
#[derive(Debug, Clone, Copy, PartialEq, Eq)]
pub enum Accent {
    True,
    False,
}

impl Accent {
    /// The value that the `accent` attribute takes.
    pub open spec fn name_spec(self) -> Seq<char> {
        match self {
            Accent::True => "true"@,
            Accent::False => "false"@,
        }
    }

    pub fn name(&self) -> (text: &'static str)
        ensures
            text@ == self.name_spec(),
    {
        match self {
            Accent::True => "true",
            Accent::False => "false",
        }
    }
}

} // verus!
