//! Colour on a terminal, by way of the `colored` crate.
//!
//! Whether colour is applied at all is that crate's decision, taken from the
//! environment of the running process. Where it is applied, the text stands
//! between a sequence that switches the colour on and one that resets the
//! terminal; where it is not, the text comes out as it went in.

use colored::Colorize;
use vstd::prelude::*;
use vstd::string::*;

use crate::duration::{Styled, Tint};
use crate::text::{
    contains_seq,
    is_plain,
    lemma_padding_keeps_plain,
    occurs_at,
    pad_right,
    pad_to,
    ESCAPE,
};

verus! {

/// The number by which a control sequence selects a colour for the text.
pub open spec fn color_code(tint: Tint) -> Seq<char> {
    match tint {
        Tint::Cyan => seq!['3', '6'],
        Tint::Green => seq!['3', '2'],
        Tint::Yellow => seq!['3', '3'],
        Tint::Red => seq!['3', '1'],
    }
}

/// The control sequence that switches the terminal to a colour, and to bold
/// before that where `bold` is set.
pub open spec fn opening(tint: Tint, bold: bool) -> Seq<char> {
    if bold {
        seq![ESCAPE, '[', '1', ';'] + color_code(tint) + seq!['m']
    } else {
        seq![ESCAPE, '['] + color_code(tint) + seq!['m']
    }
}

/// The control sequence that resets the terminal.
pub open spec fn closing() -> Seq<char> {
    seq![ESCAPE, '[', '0', 'm']
}

/// Whether `out` is `text` as `colored` writes it in a colour and weight:
/// the text alone where colour is off; the opening sequence, the text and
/// the closing sequence where it is on; and the text with the closing
/// sequence alone where colour is switched off while the text is written.
pub open spec fn is_painted(out: Seq<char>, text: Seq<char>, tint: Tint, bold: bool) -> bool {
    ||| out == text
    ||| out == opening(tint, bold) + text + closing()
    ||| out == text + closing()
}

/// `Colorize::color` on a string slice, and `Display` for the
/// `ColoredString` that it returns. With colour off, `colored` writes the
/// text; with colour on, it writes the opening sequence for the colour, the
/// text, and the reset, and it looks up once more whether colour is on when it
/// composes the opening sequence. A text that holds control sequences itself
/// may be rewritten in between, so the claim is for plain text only.
#[verifier::external_body]
fn tinted(text: &str, tint: Tint) -> (out: String)
    ensures
        is_plain(text@) ==> is_painted(out@, text@, tint, false),
{
    let color = match tint {
        Tint::Cyan => colored::Color::Cyan,
        Tint::Green => colored::Color::Green,
        Tint::Yellow => colored::Color::Yellow,
        Tint::Red => colored::Color::Red,
    };
    format!("{}", text.color(color))
}

/// As [`tinted`], with `Colorize::bold` applied to the coloured text before
/// it is written: the opening sequence then selects bold ahead of the colour.
#[verifier::external_body]
fn bold_tinted(text: &str, tint: Tint) -> (out: String)
    ensures
        is_plain(text@) ==> is_painted(out@, text@, tint, true),
{
    let color = match tint {
        Tint::Cyan => colored::Color::Cyan,
        Tint::Green => colored::Color::Green,
        Tint::Yellow => colored::Color::Yellow,
        Tint::Red => colored::Color::Red,
    };
    format!("{}", text.color(color).bold())
}

impl Styled {
    /// The text alone, left-aligned in a field of `width` characters.
    pub fn plain_field(&self, width: usize) -> (out: String)
        ensures
            out@ == pad_right(self.text@, width as nat),
    {
        pad_to(self.text.as_str(), width)
    }

    /// The text left-aligned in a field of `width` characters, and the whole
    /// field in the colour and weight of the text where the process is set
    /// to show colour.
    pub fn colored_field(&self, width: usize) -> (out: String)
        ensures
            is_plain(self.text@) ==> is_painted(
                out@,
                pad_right(self.text@, width as nat),
                self.tint,
                self.bold,
            ),
    {
        let field: String = pad_to(self.text.as_str(), width);
        proof {
            if is_plain(self.text@) {
                lemma_padding_keeps_plain(self.text@, width as nat);
            }
        }
        if self.bold {
            bold_tinted(field.as_str(), self.tint)
        } else {
            tinted(field.as_str(), self.tint)
        }
    }
}

/// Colour adds to a text and takes nothing from it: the text stands whole in
/// what is written.
pub proof fn lemma_painted_holds_text(out: Seq<char>, text: Seq<char>, tint: Tint, bold: bool)
    requires
        is_painted(out, text, tint, bold),
    ensures
        contains_seq(out, text),
{
    let open = opening(tint, bold);
    if out == text {
        assert(out.subrange(0, text.len() as int) =~= text);
        assert(occurs_at(out, text, 0));
    } else if out == open + text + closing() {
        let at = open.len() as int;
        assert(out.subrange(at, at + text.len()) =~= text);
        assert(occurs_at(out, text, at));
    } else {
        assert(out.subrange(0, text.len() as int) =~= text);
        assert(occurs_at(out, text, 0));
    }
}

/// A colour and weight are told apart by what is written for them, as soon
/// as anything is written for them at all.
pub proof fn lemma_openings_differ(a: Tint, a_bold: bool, b: Tint, b_bold: bool)
    ensures
        opening(a, a_bold) == opening(b, b_bold) <==> a == b && a_bold == b_bold,
{
    let x = opening(a, a_bold);
    let y = opening(b, b_bold);
    if x == y {
        assert(x.len() == y.len());
        assert(a_bold == b_bold);
        if a_bold {
            assert(x[5] == y[5]);
        } else {
            assert(x[3] == y[3]);
        }
    }
}

} // verus!
