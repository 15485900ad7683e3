use vstd::prelude::*;

verus! {

/// A terminal foreground colour.
pub enum ColorCode {
    Red,
    Green,
    Yellow,
    /// One of the 256 colours of the extended palette.
    Fixed(u8),
}

/// The decimal digit `d`.
pub open spec fn digit(d: nat) -> char {
    if d == 0 {
        '0'
    } else if d == 1 {
        '1'
    } else if d == 2 {
        '2'
    } else if d == 3 {
        '3'
    } else if d == 4 {
        '4'
    } else if d == 5 {
        '5'
    } else if d == 6 {
        '6'
    } else if d == 7 {
        '7'
    } else if d == 8 {
        '8'
    } else {
        '9'
    }
}

/// The decimal digits of `n`, without leading zeros.
pub open spec fn decimal(n: nat) -> Seq<char>
    decreases n,
{
    if n < 10 {
        seq![digit(n)]
    } else {
        decimal(n / 10).push(digit(n % 10))
    }
}

/// The SGR code that selects a foreground colour.
pub open spec fn foreground_code(c: ColorCode) -> Seq<char> {
    match c {
        ColorCode::Red => seq!['3', '1'],
        ColorCode::Green => seq!['3', '2'],
        ColorCode::Yellow => seq!['3', '3'],
        ColorCode::Fixed(n) => seq!['3', '8', ';', '5', ';'] + decimal(n as nat),
    }
}

/// The escape sequence that resets every style.
pub open spec fn reset() -> Seq<char> {
    seq!['\x1b', '[', '0', 'm']
}

/// `s` in colour `c`, in bold if `bold`: the ANSI escape sequence that sets
/// the style, the text, and the sequence that resets it.
pub open spec fn painted(c: ColorCode, bold: bool, s: Seq<char>) -> Seq<char> {
    seq!['\x1b', '['] + (if bold {
        seq!['1', ';']
    } else {
        Seq::empty()
    }) + foreground_code(c) + seq!['m'] + s + reset()
}

/// Relies on ansi_term's `Style::paint` and the `Display` of what it returns:
/// for a style with a foreground colour and no other attribute than bold,
/// `ESC [`, `1;` if bold, the colour's code, `m`, the text, then `ESC [0m`.
#[verifier::external_body]
fn paint(c: ColorCode, bold: bool, s: &str) -> (r: String)
    ensures
        r@ == painted(c, bold, s@),
{
    let colour = match c {
        ColorCode::Red => ansi_term::Colour::Red,
        ColorCode::Green => ansi_term::Colour::Green,
        ColorCode::Yellow => ansi_term::Colour::Yellow,
        ColorCode::Fixed(n) => ansi_term::Colour::Fixed(n),
    };
    let style = ansi_term::Style { foreground: Some(colour), is_bold: bold, ..ansi_term::Style::default() };
    style.paint(s).to_string()
}

/// The REPL prompt's style: bold, colour 157 of the extended palette.
pub fn prompt(s: &str) -> (r: String)
    ensures
        r@ == painted(ColorCode::Fixed(157), true, s@),
{
    paint(ColorCode::Fixed(157), true, s)
}

/// The style of the caret after the prompt: bold, colour 251.
pub fn carrot(s: &str) -> (r: String)
    ensures
        r@ == painted(ColorCode::Fixed(251), true, s@),
{
    paint(ColorCode::Fixed(251), true, s)
}

/// The style of error messages: red.
pub fn err(s: &str) -> (r: String)
    ensures
        r@ == painted(ColorCode::Red, false, s@),
{
    paint(ColorCode::Red, false, s)
}

/// The style of numbers: yellow.
pub fn number(s: &str) -> (r: String)
    ensures
        r@ == painted(ColorCode::Yellow, false, s@),
{
    paint(ColorCode::Yellow, false, s)
}

/// The style of strings: green.
pub fn string(s: &str) -> (r: String)
    ensures
        r@ == painted(ColorCode::Green, false, s@),
{
    paint(ColorCode::Green, false, s)
}

/// The style of booleans: yellow.
pub fn boolean(s: &str) -> (r: String)
    ensures
        r@ == painted(ColorCode::Yellow, false, s@),
{
    paint(ColorCode::Yellow, false, s)
}

} // verus!
