//! Terminal colours for the rendering, through `ansi_term`.

use vstd::prelude::*;

verus! {

/// The foreground colours the rendering uses.
#[derive(Clone, Copy, Debug, PartialEq, Eq, Structural)]
pub enum Tint {
    Blue,
    White,
    Green,
    Yellow,
}

/// The escape sequence that starts text in colour `t`.
pub open spec fn tint_code(t: Tint) -> Seq<char> {
    match t {
        Tint::Blue => "\x1b[34m"@,
        Tint::White => "\x1b[37m"@,
        Tint::Green => "\x1b[32m"@,
        Tint::Yellow => "\x1b[33m"@,
    }
}

/// The escape sequence that ends styled text.
pub open spec fn reset_code() -> Seq<char> {
    "\x1b[0m"@
}

/// `s` in colour `t`.
pub open spec fn painted(t: Tint, s: Seq<char>) -> Seq<char> {
    tint_code(t) + s + reset_code()
}

/// `s` in bold blue.
pub open spec fn bold_blue(s: Seq<char>) -> Seq<char> {
    "\x1b[1;34m"@ + s + reset_code()
}

/// Relies on `ansi_term::Colour::paint` and the `Display` of what it
/// returns: the colour's foreground code, the text, then the reset code.
#[verifier::external_body]
pub(crate) fn paint(t: Tint, s: &str) -> (r: String)
    ensures
        r@ == painted(t, s@),
{
    let c = match t {
        Tint::Blue => ansi_term::Colour::Blue,
        Tint::White => ansi_term::Colour::White,
        Tint::Green => ansi_term::Colour::Green,
        Tint::Yellow => ansi_term::Colour::Yellow,
    };
    c.paint(s).to_string()
}

/// Relies on `ansi_term::Style::paint` and the `Display` of what it
/// returns, for the style `Blue.bold()`: the codes 1 and 34, the text, then
/// the reset code.
#[verifier::external_body]
pub(crate) fn paint_bold_blue(s: &str) -> (r: String)
    ensures
        r@ == bold_blue(s@),
{
    ansi_term::Colour::Blue.bold().paint(s).to_string()
}

} // verus!
