//! The style sheet through which an SVG document's `currentColor` resolves to
//! an element's CSS `color`.
//!
//! SVG resolves `currentColor` from the nearest ancestor's `color`
//! presentation attribute (black by default), so a rule `svg { color: ... }`
//! applied as the root's `color` makes every `currentColor` below it, by
//! inheritance, take that color.
use vstd::prelude::*;
use crate::text::{decimal, push_decimal, push_str};

verus! {

/// `svg{color:rgba(R,G,B,A)}` with the channels in decimal and the alpha as
/// given.
pub open spec fn spec_current_color_style_sheet(r: u8, g: u8, b: u8, alpha: Seq<char>) -> Seq<char> {
    "svg{color:rgba("@ + decimal(r as nat) + ","@ + decimal(g as nat) + ","@ + decimal(b as nat)
        + ","@ + alpha + ")}"@
}

/// The style sheet that sets the root `color` of an SVG document to the sRGB
/// color with 8-bit channels `r`, `g`, `b` and the alpha written `alpha` (a
/// number from 0 to 1).
pub fn current_color_style_sheet(r: u8, g: u8, b: u8, alpha: &str) -> (res: String)
    ensures
        res@ == spec_current_color_style_sheet(r, g, b, alpha@),
{
    let mut out = String::new();
    push_str(&mut out, "svg{color:rgba(");
    push_decimal(&mut out, r as usize);
    push_str(&mut out, ",");
    push_decimal(&mut out, g as usize);
    push_str(&mut out, ",");
    push_decimal(&mut out, b as usize);
    push_str(&mut out, ",");
    push_str(&mut out, alpha);
    push_str(&mut out, ")}");
    assert(out@ =~= spec_current_color_style_sheet(r, g, b, alpha@));
    out
}

/// Law: the style sheet is the rule `svg{color:rgba(...)}` whose arguments
/// are, in order, the red, green and blue channels as decimal numerals and
/// the alpha text, separated by commas.
pub proof fn law_style_sheet_layout(r: u8, g: u8, b: u8, alpha: Seq<char>)
    ensures
        ({
            let sheet = spec_current_color_style_sheet(r, g, b, alpha);
            let args = decimal(r as nat) + seq![','] + decimal(g as nat) + seq![','] + decimal(
                b as nat,
            ) + seq![','] + alpha;
            &&& sheet.take(15) == "svg{color:rgba("@
            &&& sheet.subrange(15, sheet.len() - 2) == args
            &&& sheet.skip(sheet.len() - 2) == ")}"@
        }),
{
    reveal_strlit("svg{color:rgba(");
    reveal_strlit(",");
    reveal_strlit(")}");
    let sheet = spec_current_color_style_sheet(r, g, b, alpha);
    let args = decimal(r as nat) + seq![','] + decimal(g as nat) + seq![','] + decimal(b as nat)
        + seq![','] + alpha;
    assert(sheet =~= "svg{color:rgba("@ + args + ")}"@);
    assert(sheet.take(15) =~= "svg{color:rgba("@);
    assert(sheet.subrange(15, sheet.len() - 2) =~= args);
    assert(sheet.skip(sheet.len() - 2) =~= ")}"@);
}

} // verus!
