use vstd::prelude::*;

verus! {

/// The role of a line of terminal output, which the desktop paints in the
/// palette's matching color.
#[derive(Debug, Clone, Copy, PartialEq, Eq, Structural)]
pub enum Tone {
    /// Bright terminal green: successes and the banner.
    TermGreen,
    /// Dimmed text: hints and secondary lines.
    TextDim,
    /// Warm sand: usage hints and headings.
    Sand,
    /// Plain text.
    Text,
    /// Muted text: empty results.
    TextMuted,
    /// Terminal body text: file contents.
    TermText,
    /// Glowing green: echoed commands.
    GreenGlow,
    /// Red: errors.
    Error,
}

/// One color channel scaled by `a / 255`, rounded down.
pub open spec fn scale_channel(c: u8, a: u8) -> u8 {
    (c as int * a as int / 255) as u8
}

fn scale(c: u8, a: u8) -> (r: u8)
    ensures
        r == scale_channel(c, a),
{
    assert(c as int * a as int <= 255 * 255) by (nonlinear_arith)
        requires
            c <= 255,
            a <= 255,
    ;
    let p = c as u16 * a as u16;
    assert(c as int * a as int / 255 <= 255) by (nonlinear_arith)
        requires
            c as int * a as int <= 255 * 255,
            c as int * a as int >= 0,
    ;
    (p / 255) as u8
}

/// A color with premultiplied alpha `a`: each channel scaled by `a / 255`.
pub fn with_alpha(c: (u8, u8, u8), a: u8) -> (r: (u8, u8, u8, u8))
    ensures
        r == (scale_channel(c.0, a), scale_channel(c.1, a), scale_channel(c.2, a), a),
{
    (scale(c.0, a), scale(c.1, a), scale(c.2, a), a)
}

} // verus!
