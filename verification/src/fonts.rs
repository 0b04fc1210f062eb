use vstd::prelude::*;

verus! {

/// The fonts the text layout engine can render with. The font files
/// themselves live outside the library; this type only selects one.
#[derive(Clone, Copy, PartialEq, Eq, Structural, Debug)]
pub enum FontVariants {
    GabriellaHeavy,
    MonoSans,
    Arial,
    ArialBold,
    ArialItalic,
    ArialBoldItalic,
}

/// Which variant a font name selects, or none for an unknown name.
pub open spec fn font_spec(s: Seq<char>) -> Option<FontVariants> {
    if s == "GabriellaHeavy"@ {
        Some(FontVariants::GabriellaHeavy)
    } else if s == "MonoSans"@ {
        Some(FontVariants::MonoSans)
    } else if s == "Arial"@ {
        Some(FontVariants::Arial)
    } else if s == "ArialBold"@ {
        Some(FontVariants::ArialBold)
    } else if s == "ArialItalic"@ {
        Some(FontVariants::ArialItalic)
    } else if s == "ArialBoldItalic"@ {
        Some(FontVariants::ArialBoldItalic)
    } else {
        None
    }
}

impl FontVariants {
    /// Parse a font name; unknown names select nothing.
    pub fn from_str(string: &str) -> (r: Option<FontVariants>)
        ensures
            r == font_spec(string@),
    {
        let s: String = string.to_owned();
        if s == "GabriellaHeavy".to_owned() {
            Some(FontVariants::GabriellaHeavy)
        } else if s == "MonoSans".to_owned() {
            Some(FontVariants::MonoSans)
        } else if s == "Arial".to_owned() {
            Some(FontVariants::Arial)
        } else if s == "ArialBold".to_owned() {
            Some(FontVariants::ArialBold)
        } else if s == "ArialItalic".to_owned() {
            Some(FontVariants::ArialItalic)
        } else if s == "ArialBoldItalic".to_owned() {
            Some(FontVariants::ArialBoldItalic)
        } else {
            None
        }
    }
}

} // verus!
