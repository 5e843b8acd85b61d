//! Terminal escape sequences for colours and text style, as `termion`
//! writes them.
use vstd::prelude::*;
use crate::text::decimal;

verus! {

/// The control sequence introducer: escape, then `[`.
pub open spec fn csi() -> Seq<char> {
    seq!['\x1b', '[']
}

/// A 24-bit colour sequence: `ESC [ <kind> ; 2 ; r ; g ; b m`.
pub open spec fn rgb_sequence(kind: Seq<char>, r: u8, g: u8, b: u8) -> Seq<char> {
    csi() + kind + ";2;"@ + decimal(r as nat) + ";"@ + decimal(g as nat) + ";"@ + decimal(
        b as nat,
    ) + "m"@
}

/// Formats `termion::color::Bg(termion::color::Rgb(r, g, b))`.
/// Trusted: termion writes `ESC[48;2;r;g;bm`, each number in decimal.
#[verifier::external_body]
pub fn bg_rgb(r: u8, g: u8, b: u8) -> (s: Vec<char>)
    ensures
        s@ == rgb_sequence("48"@, r, g, b),
{
    format!("{}", termion::color::Bg(termion::color::Rgb(r, g, b))).chars().collect()
}

/// Formats `termion::color::Fg(termion::color::Rgb(r, g, b))`.
/// Trusted: termion writes `ESC[38;2;r;g;bm`, each number in decimal.
#[verifier::external_body]
pub fn fg_rgb(r: u8, g: u8, b: u8) -> (s: Vec<char>)
    ensures
        s@ == rgb_sequence("38"@, r, g, b),
{
    format!("{}", termion::color::Fg(termion::color::Rgb(r, g, b))).chars().collect()
}

/// Formats `termion::color::Bg(termion::color::Reset)`.
/// Trusted: termion writes `ESC[49m`.
#[verifier::external_body]
pub fn bg_reset() -> (s: Vec<char>)
    ensures
        s@ == csi() + "49m"@,
{
    format!("{}", termion::color::Bg(termion::color::Reset)).chars().collect()
}

/// Formats `termion::color::Fg(termion::color::Reset)`.
/// Trusted: termion writes `ESC[39m`.
#[verifier::external_body]
pub fn fg_reset() -> (s: Vec<char>)
    ensures
        s@ == csi() + "39m"@,
{
    format!("{}", termion::color::Fg(termion::color::Reset)).chars().collect()
}

/// Formats `termion::color::Fg(termion::color::Red)`.
/// Trusted: termion writes `ESC[38;5;1m`.
#[verifier::external_body]
pub fn fg_red() -> (s: Vec<char>)
    ensures
        s@ == csi() + "38;5;1m"@,
{
    format!("{}", termion::color::Fg(termion::color::Red)).chars().collect()
}

/// Formats `termion::color::Fg(termion::color::Yellow)`.
/// Trusted: termion writes `ESC[38;5;3m`.
#[verifier::external_body]
pub fn fg_yellow() -> (s: Vec<char>)
    ensures
        s@ == csi() + "38;5;3m"@,
{
    format!("{}", termion::color::Fg(termion::color::Yellow)).chars().collect()
}

/// Formats `termion::style::Bold`.
/// Trusted: termion writes `ESC[1m`.
#[verifier::external_body]
pub fn bold() -> (s: Vec<char>)
    ensures
        s@ == csi() + "1m"@,
{
    format!("{}", termion::style::Bold).chars().collect()
}

/// Formats `termion::style::Reset`.
/// Trusted: termion writes `ESC[m`.
#[verifier::external_body]
pub fn style_reset() -> (s: Vec<char>)
    ensures
        s@ == csi() + "m"@,
{
    format!("{}", termion::style::Reset).chars().collect()
}

} // verus!
