//! What the terminal's abilities decide before the viewer starts.

use vstd::prelude::*;

verus! {

/// A background colour: red, green, blue and alpha.
#[derive(Debug, Clone, Copy)]
pub struct BgColor(pub [u8; 4]);

impl BgColor {
    /// The four channels: red, green, blue, alpha.
    pub fn rgba(&self) -> (channels: [u8; 4])
        ensures
            channels == self.0,
    {
        self.0
    }

    /// The colour without its alpha channel.
    pub fn rgb(&self) -> (channels: (u8, u8, u8))
        ensures
            channels == (self.0[0], self.0[1], self.0[2]),
    {
        (self.0[0], self.0[1], self.0[2])
    }
}

impl Default for BgColor {
    fn default() -> (color: BgColor)
        ensures
            color.0 == [0u8, 0u8, 0u8, 0u8],
    {
        BgColor([0, 0, 0, 0])
    }
}

/// The background that is painted behind the document: a dark violet
/// where images are shown as sixels, which cannot be transparent; none
/// elsewhere.
pub fn background_for(sixel: bool) -> (bg: Option<BgColor>)
    ensures
        bg == if sixel {
            Some(BgColor([20u8, 0u8, 40u8, 255u8]))
        } else {
            None
        },
{
    if sixel {
        Some(BgColor([20, 0, 40, 255]))
    } else {
        None
    }
}

/// Whether `family` is among `families`.
pub open spec fn has_family(families: Seq<String>, family: Seq<char>) -> bool {
    exists|i: int| 0 <= i < families.len() && (#[trigger] families[i])@ == family
}

/// The font to render headers with, as far as the configuration settles
/// it: the configured family, if the system has it and no new choice is
/// forced.
pub fn configured_font(force_font_setup: bool, font_family: Option<&String>, families: &Vec<String>) -> (font:
    Option<String>)
    ensures
        match font_family {
            Some(family) => if !force_font_setup && has_family(families@, family@) {
                font matches Some(chosen) && chosen@ == family@
            } else {
                font is None
            },
            None => font is None,
        },
{
    if force_font_setup {
        return None;
    }
    match font_family {
        Some(family) => {
            let n = families.len();
            let mut i: usize = 0;
            while i < n
                invariant
                    n == families@.len(),
                    i <= n,
                    !force_font_setup,
                    font_family == Some(family),
                    forall|j: int| 0 <= j < i ==> (#[trigger] families@[j])@ != family@,
                decreases n - i,
            {
                if families[i] == *family {
                    return Some(family.clone());
                }
                i += 1;
            }
            None
        },
        None => None,
    }
}

} // verus!
