//! Features and variants as the shell lays them out: one line for each
//! field, the labels aligned.

use vstd::prelude::*;
use vstd::string::*;
use crate::model::{first_control, Feature, Variant};
use crate::text::{decimal, decimal_string};
use crate::values::encoded;

verus! {

/// What can be laid out as a table of labelled lines.
pub trait Tabular {
    /// The table of this value.
    spec fn table(&self) -> Seq<char>;

    /// Lays this value out.
    fn tabular(&self) -> (text: String)
        ensures
            text@ == self.table(),
    ;
}

/// How a switch is written out.
pub open spec fn switch_text(on: bool) -> Seq<char> {
    if on {
        "\u{25a3} true"@
    } else {
        "\u{25a2} false"@
    }
}

/// The encoded value of the control variant among `variants`, or nothing
/// where there is none.
pub open spec fn default_text(variants: Seq<Variant>) -> Seq<char> {
    match first_control(variants) {
        Some(variant) => encoded(variant.value@),
        None => Seq::empty(),
    }
}

impl Tabular for Feature {
    open spec fn table(&self) -> Seq<char> {
        "\u{2502} ID      : "@ + decimal(self.id as nat) + "\n\u{2502} NAME    : "@ + self.name@
            + "\n\u{2502} ENABLED : "@ + switch_text(self.is_enabled) + "\n\u{2502} VALUE   : "@
            + default_text(self.variants@)
    }

    fn tabular(&self) -> (text: String) {
        let mut text = String::from_str("\u{2502} ID      : ");
        text.append(decimal_string(self.id).as_str());
        text.append("\n\u{2502} NAME    : ");
        text.append(self.name.as_str());
        text.append("\n\u{2502} ENABLED : ");
        if self.is_enabled {
            text.append("\u{25a3} true");
        } else {
            text.append("\u{25a2} false");
        }
        text.append("\n\u{2502} VALUE   : ");
        match self.get_default_value() {
            Some(value) => {
                text.append(value.to_string().as_str());
            },
            None => {
                assert(text@ + Seq::<char>::empty() =~= text@);
            },
        }
        text
    }
}

impl Tabular for Variant {
    open spec fn table(&self) -> Seq<char> {
        "\u{2502} ID      : "@ + decimal(self.id as nat) + "\n\u{2502} WEIGHT  : "@ + decimal(
            self.weight as nat,
        ) + "\n\u{2502} VALUE   : "@ + encoded(self.value@)
    }

    fn tabular(&self) -> (text: String) {
        let mut text = String::from_str("\u{2502} ID      : ");
        text.append(decimal_string(self.id).as_str());
        text.append("\n\u{2502} WEIGHT  : ");
        text.append(decimal_string(self.weight as u16).as_str());
        text.append("\n\u{2502} VALUE   : ");
        text.append(self.value.to_string().as_str());
        text
    }
}

/// `n` blanks, or none where `n` is negative.
pub open spec fn blanks(n: int) -> Seq<char> {
    Seq::new(
        if n > 0 {
            n as nat
        } else {
            0
        },
        |i: int| ' ',
    )
}

/// `width` cells of which the first `filled` are full.
pub open spec fn cells(filled: int, width: int) -> Seq<char> {
    Seq::new(
        if width > 0 {
            width as nat
        } else {
            0
        },
        |i: int|
            if i < filled {
                '\u{2586}'
            } else {
                ' '
            },
    )
}

/// The bar that stands for `weight` percent in a table: the number, padded
/// to three places, a percent sign, a blank, and of `width` cells as many
/// full ones as the weight fills, padded to ten places.
pub open spec fn bar_text(weight: u8, width: u8) -> Seq<char> {
    let number = decimal(weight as nat);
    number + blanks(3 - number.len()) + seq!['%', ' '] + cells(
        (weight as int) * (width as int) / 100,
        width as int,
    ) + blanks(10 - width)
}

/// Appends `n` blanks to `text`.
pub fn pad(text: &mut String, n: usize)
    ensures
        final(text)@ == old(text)@ + blanks(n as int),
{
    let mut done: usize = 0;
    proof {
        reveal_strlit(" ");
        assert(text@ =~= old(text)@ + blanks(0));
    }
    while done < n
        invariant
            done <= n,
            text@ == old(text)@ + blanks(done as int),
        decreases n - done,
    {
        text.append(" ");
        done = done + 1;
        proof {
            reveal_strlit(" ");
            assert(text@ =~= old(text)@ + blanks(done as int));
        }
    }
}

/// Draws the bar that stands for `weight` percent.
pub fn bar(weight: u8, width: u8) -> (text: String)
    ensures
        text@ == bar_text(weight, width),
{
    let mut text = decimal_string(weight as u16);
    let digits: usize = text.as_str().unicode_len();
    let ghost number = text@;
    if digits < 3 {
        pad(&mut text, 3 - digits);
    } else {
        assert(text@ =~= number + blanks(3 - digits));
    }
    text.append("% ");
    proof {
        reveal_strlit("% ");
        assert("% "@ =~= seq!['%', ' ']);
    }
    let ghost head = text@;
    assert((weight as int) * (width as int) <= 255 * 255) by (nonlinear_arith)
        requires
            0 <= weight <= 255,
            0 <= width <= 255,
    ;
    let filled: u32 = (weight as u32) * (width as u32) / 100;
    let mut at: u8 = 0;
    proof {
        assert(text@ =~= head + cells(filled as int, 0));
    }
    while at < width
        invariant
            at <= width,
            text@ == head + cells(filled as int, at as int),
        decreases width - at,
    {
        proof {
            reveal_strlit("\u{2586}");
            reveal_strlit(" ");
        }
        if (at as u32) < filled {
            text.append("\u{2586}");
        } else {
            text.append(" ");
        }
        at = at + 1;
        proof {
            assert(text@ =~= head + cells(filled as int, at as int));
        }
    }
    if width < 10 {
        pad(&mut text, (10 - width) as usize);
    } else {
        assert(text@ =~= text@ + blanks(10 - width));
    }
    proof {
        assert(text@ =~= bar_text(weight, width));
    }
    text
}

} // verus!
