//! The short description shown in an image's row: file size, pixel dimensions
//! and extension.

use vstd::prelude::*;
use crate::history::{file_extension, path_extension};
use crate::text::{chars_of, push_char, string_of};

verus! {

/// What `str::to_uppercase` yields for a text.
pub uninterp spec fn upper_of(s: Seq<char>) -> Seq<char>;

/// Relies on `str::to_uppercase`: the uppercase form of a text, which depends
/// on the text alone.
#[verifier::external_body]
fn uppercase(s: &str) -> (r: String)
    ensures
        r@ == upper_of(s@),
{
    s.to_uppercase()
}

/// What is known of an image file: its size in bytes and its pixel dimensions
/// (width, height), each `None` where it could not be read or decoded.
#[derive(Clone, Copy, PartialEq, Eq, Structural, Debug)]
pub struct ImageInfo {
    pub file_size: Option<u64>,
    pub dimensions: Option<Dimensions>,
}

/// The size of a picture in pixels.
#[derive(Clone, Copy, PartialEq, Eq, Structural, Debug)]
pub struct Dimensions {
    pub width: u32,
    pub height: u32,
}

/// The decimal digit of `d < 10`.
pub open spec fn digit_char(d: nat) -> char {
    seq!['0', '1', '2', '3', '4', '5', '6', '7', '8', '9'][d as int]
}

/// The decimal form of `n`.
pub open spec fn decimal(n: nat) -> Seq<char>
    decreases n,
{
    if n < 10 {
        seq![digit_char(n)]
    } else {
        decimal(n / 10).push(digit_char(n % 10))
    }
}

/// `num / den` rounded to the nearest integer, halves to the even one.
pub open spec fn round_half_even(num: nat, den: nat) -> nat
    recommends
        den > 0,
{
    let q = num / den;
    let r = num % den;
    if 2 * r > den || (2 * r == den && q % 2 == 1) {
        q + 1
    } else {
        q
    }
}

/// A number of tenths written with one decimal.
pub open spec fn tenths_text(t: nat) -> Seq<char> {
    decimal(t / 10) + seq!['.', digit_char(t % 10)]
}

/// The size of a file: bytes under 1024, else kibibytes under 1024 KiB, else
/// mebibytes, the last two with one decimal.
pub open spec fn size_text(size: Option<u64>) -> Seq<char> {
    match size {
        None => "Unknown size"@,
        Some(s) => if s < 1024 {
            decimal(s as nat) + " B"@
        } else if s < 1024 * 1024 {
            tenths_text(round_half_even(s as nat * 10, 1024)) + " KB"@
        } else {
            tenths_text(round_half_even(s as nat * 10, 1024 * 1024)) + " MB"@
        },
    }
}

/// Pixel dimensions, as `width×height px`.
pub open spec fn dimensions_text(dimensions: Option<Dimensions>) -> Seq<char> {
    match dimensions {
        None => "Unknown dimensions"@,
        Some(d) => decimal(d.width as nat) + "×"@ + decimal(d.height as nat) + " px"@,
    }
}

/// The extension of a path, in uppercase after a dot; `unknown` stands for a
/// missing one.
pub open spec fn extension_text(path: Seq<char>) -> Seq<char> {
    match file_extension(path) {
        Some(e) => "."@ + upper_of(e),
        None => "."@ + upper_of("unknown"@),
    }
}

/// The three lines that describe an image in its row.
pub struct ImageSummary {
    pub size_text: String,
    pub dimensions_text: String,
    pub extension_text: String,
}

/// Appends the decimal form of `n`.
fn push_decimal(out: &mut String, n: u128)
    ensures
        final(out)@ == old(out)@ + decimal(n as nat),
    decreases n,
{
    if n >= 10 {
        push_decimal(out, n / 10);
    }
    let d = (n % 10) as usize;
    let digits: [char; 10] = ['0', '1', '2', '3', '4', '5', '6', '7', '8', '9'];
    assert(digits@ =~= seq!['0', '1', '2', '3', '4', '5', '6', '7', '8', '9']);
    push_char(out, digits[d]);
    proof {
        if n < 10 {
            assert(n % 10 == n);
        }
    }
}

/// Appends `t` tenths written with one decimal.
fn push_tenths(out: &mut String, t: u128)
    ensures
        final(out)@ == old(out)@ + tenths_text(t as nat),
{
    let ghost start = out@;
    push_decimal(out, t / 10);
    push_char(out, '.');
    push_decimal(out, t % 10);
    proof {
        let d = (t % 10) as nat;
        assert(decimal(d) == seq![digit_char(d)]);
        assert(out@ =~= start + tenths_text(t as nat));
    }
}

/// `num / den` rounded to the nearest integer, halves to the even one.
fn round_half_even_exec(num: u128, den: u128) -> (r: u128)
    requires
        0 < den <= 1024 * 1024,
        num <= u64::MAX as u128 * 10,
    ensures
        r == round_half_even(num as nat, den as nat),
{
    let q = num / den;
    let r = num % den;
    if 2 * r > den || (2 * r == den && q % 2 == 1) {
        q + 1
    } else {
        q
    }
}

/// The size of a file as shown in an image's row.
pub fn format_size(size: Option<u64>) -> (r: String)
    ensures
        r@ == size_text(size),
{
    match size {
        None => String::from_str("Unknown size"),
        Some(s) => {
            let mut out = String::new();
            if s < 1024 {
                push_decimal(&mut out, s as u128);
                out.append(" B");
            } else if s < 1024 * 1024 {
                let t = round_half_even_exec(s as u128 * 10, 1024);
                push_tenths(&mut out, t);
                out.append(" KB");
            } else {
                let t = round_half_even_exec(s as u128 * 10, 1024 * 1024);
                push_tenths(&mut out, t);
                out.append(" MB");
            }
            out
        },
    }
}

/// Pixel dimensions as shown in an image's row.
pub fn format_dimensions(dimensions: Option<Dimensions>) -> (r: String)
    ensures
        r@ == dimensions_text(dimensions),
{
    match dimensions {
        None => String::from_str("Unknown dimensions"),
        Some(d) => {
            let mut out = String::new();
            push_decimal(&mut out, d.width as u128);
            out.append("×");
            push_decimal(&mut out, d.height as u128);
            out.append(" px");
            out
        },
    }
}

/// The extension of a path as shown in an image's row.
pub fn format_extension(path: &str) -> (r: String)
    ensures
        r@ == extension_text(path@),
{
    let cs = chars_of(path);
    let upper = match path_extension(&cs) {
        Some(e) => {
            let ext = string_of(&e, 0, e.len());
            assert(e@.subrange(0, e@.len() as int) =~= e@);
            uppercase(ext.as_str())
        },
        None => uppercase("unknown"),
    };
    let mut out = String::from_str(".");
    out.append(upper.as_str());
    out
}

/// The description of an image in its row.
pub fn image_summary(path: &str, info: ImageInfo) -> (r: ImageSummary)
    ensures
        r.size_text@ == size_text(info.file_size),
        r.dimensions_text@ == dimensions_text(info.dimensions),
        r.extension_text@ == extension_text(path@),
{
    ImageSummary {
        size_text: format_size(info.file_size),
        dimensions_text: format_dimensions(info.dimensions),
        extension_text: format_extension(path),
    }
}

} // verus!
