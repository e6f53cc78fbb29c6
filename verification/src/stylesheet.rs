//! The stylesheet emitter: one positioning rule per placement.

use vstd::prelude::*;
use vstd::string::StringExecFns;
use crate::geometry::{Placement, PlacementRecord};
use crate::layout::placement_views;
use crate::sprite::Layout;

verus! {

/// The character that stands for a decimal digit.
pub open spec fn digit_char(d: int) -> char {
    if d == 0 {
        '0'
    } else if d == 1 {
        '1'
    } else if d == 2 {
        '2'
    } else if d == 3 {
        '3'
    } else if d == 4 {
        '4'
    } else if d == 5 {
        '5'
    } else if d == 6 {
        '6'
    } else if d == 7 {
        '7'
    } else if d == 8 {
        '8'
    } else {
        '9'
    }
}

/// A number in decimal digits, without leading zeros.
pub open spec fn decimal(n: nat) -> Seq<char>
    decreases n,
{
    if n < 10 {
        seq![digit_char(n as int)]
    } else {
        decimal(n / 10).push(digit_char((n % 10) as int))
    }
}

/// An offset as the stylesheet writes it: negated, in pixels.
pub open spec fn negated_px(v: int) -> Seq<char> {
    "-"@ + decimal(v as nat) + "px"@
}

/// The horizontal part of a rule's position. Vertical layout places every
/// image at the left edge and writes a plain zero.
pub open spec fn horizontal_position(layout: Layout, p: Placement) -> Seq<char> {
    if layout == Layout::Vertical {
        "0px"@
    } else {
        negated_px(p.x)
    }
}

/// The vertical part of a rule's position. Horizontal layout places every
/// image at the top edge and writes a plain zero.
pub open spec fn vertical_position(layout: Layout, p: Placement) -> Seq<char> {
    if layout == Layout::Horizontal {
        "0px"@
    } else {
        negated_px(p.y)
    }
}

/// The positioning rule of one placement: a class named after the image,
/// with the background shifted by the negated offsets and with the image's
/// size.
pub open spec fn rule_text(layout: Layout, p: Placement) -> Seq<char> {
    "."@ + p.identifier + " { background-position: "@ + horizontal_position(layout, p) + " "@
        + vertical_position(layout, p) + "; width: "@ + decimal(p.width as nat) + "px; height: "@
        + decimal(p.height as nat) + "px; }\n"@
}

/// The rules of the first `n` placements, one after the other.
pub open spec fn stylesheet_text(layout: Layout, placements: Seq<Placement>, n: int) -> Seq<char>
    decreases n,
{
    if n <= 0 {
        Seq::empty()
    } else {
        stylesheet_text(layout, placements, n - 1) + rule_text(layout, placements[n - 1])
    }
}

fn digit_text(d: u32) -> (r: &'static str)
    requires
        d < 10,
    ensures
        r@ == seq![digit_char(d as int)],
{
    proof {
        reveal_strlit("0");
        reveal_strlit("1");
        reveal_strlit("2");
        reveal_strlit("3");
        reveal_strlit("4");
        reveal_strlit("5");
        reveal_strlit("6");
        reveal_strlit("7");
        reveal_strlit("8");
        reveal_strlit("9");
    }
    let r = if d == 0 {
        "0"
    } else if d == 1 {
        "1"
    } else if d == 2 {
        "2"
    } else if d == 3 {
        "3"
    } else if d == 4 {
        "4"
    } else if d == 5 {
        "5"
    } else if d == 6 {
        "6"
    } else if d == 7 {
        "7"
    } else if d == 8 {
        "8"
    } else {
        "9"
    };
    assert(r@ =~= seq![digit_char(d as int)]);
    r
}

/// Writes a number in decimal digits at the end of a text.
pub fn push_decimal(text: &mut String, n: u32)
    ensures
        final(text)@ == old(text)@ + decimal(n as nat),
    decreases n,
{
    if n >= 10 {
        push_decimal(text, n / 10);
    }
    text.append(digit_text(n % 10));
    proof {
        if n >= 10 {
            assert(text@ =~= old(text)@ + decimal((n / 10) as nat).push(
                digit_char((n % 10) as int),
            ));
        } else {
            assert(text@ =~= old(text)@ + seq![digit_char(n as int)]);
        }
    }
}

fn push_negated_px(text: &mut String, v: u32)
    ensures
        final(text)@ == old(text)@ + negated_px(v as int),
{
    text.append("-");
    push_decimal(text, v);
    text.append("px");
    assert(text@ =~= old(text)@ + negated_px(v as int));
}

/// The positioning rule of one placement.
pub fn css_rule(layout: Layout, record: &PlacementRecord) -> (r: String)
    ensures
        r@ == rule_text(layout, record@),
{
    let mut text = String::new();
    text.append(".");
    text.append(record.identifier.as_str());
    text.append(" { background-position: ");
    match layout {
        Layout::Vertical => {
            text.append("0px");
        },
        _ => {
            push_negated_px(&mut text, record.offset_x);
        },
    }
    text.append(" ");
    match layout {
        Layout::Horizontal => {
            text.append("0px");
        },
        _ => {
            push_negated_px(&mut text, record.offset_y);
        },
    }
    text.append("; width: ");
    push_decimal(&mut text, record.width);
    text.append("px; height: ");
    push_decimal(&mut text, record.height);
    text.append("px; }\n");
    assert(text@ =~= rule_text(layout, record@));
    text
}

/// The stylesheet of a layout: the rule of each placement, in order.
pub fn stylesheet(layout: Layout, placements: &Vec<PlacementRecord>) -> (r: String)
    ensures
        r@ == stylesheet_text(layout, placement_views(placements@), placements.len() as int),
{
    let mut css = String::new();
    let mut i: usize = 0;
    while i < placements.len()
        invariant
            i <= placements.len(),
            css@ == stylesheet_text(layout, placement_views(placements@), i as int),
        decreases placements.len() - i,
    {
        let rule = css_rule(layout, &placements[i]);
        css.append(rule.as_str());
        i = i + 1;
    }
    css
}

} // verus!
