use vstd::prelude::*;
use vstd::string::*;

use crate::time::Timestamp;

use unicode_segmentation::UnicodeSegmentation;
use unicode_width::UnicodeWidthStr;

verus! {

/// The extended grapheme clusters of a text, in order.
pub uninterp spec fn graphemes_of(text: Seq<char>) -> Seq<Seq<char>>;

/// The number of terminal columns that a text takes.
pub uninterp spec fn width_of(text: Seq<char>) -> nat;

/// Relies on unicode_segmentation's UnicodeSegmentation::graphemes with extended
/// clusters: the text cut into its grapheme clusters.
#[verifier::external_body]
fn graphemes(text: &str) -> (r: Vec<String>)
    ensures
        r@.map_values(|g: String| g@) == graphemes_of(text@),
{
    text.graphemes(true).map(|g| g.to_string()).collect()
}

/// Relies on unicode_width's UnicodeWidthStr::width: the columns a text takes.
#[verifier::external_body]
fn str_width(text: &str) -> (r: usize)
    ensures
        r == width_of(text@),
{
    text.width()
}

/// The total width of `gs`.
pub open spec fn total_width(gs: Seq<Seq<char>>) -> int
    decreases gs.len(),
{
    if gs.len() == 0 {
        0
    } else {
        total_width(gs.drop_last()) + width_of(gs.last())
    }
}

/// The column of the cursor after `text`: the widths of its grapheme clusters
/// added up, held at the largest `usize`.
pub fn get_cursor_position(text: &str) -> (r: usize)
    ensures
        r == if total_width(graphemes_of(text@)) <= usize::MAX {
            total_width(graphemes_of(text@))
        } else {
            usize::MAX as int
        },
{
    let gs = graphemes(text);
    let ghost spec_gs = graphemes_of(text@);
    let mut position: usize = 0;
    let mut i: usize = 0;
    while i < gs.len()
        invariant
            gs@.map_values(|g: String| g@) == spec_gs,
            0 <= i <= gs@.len(),
            position == if total_width(spec_gs.take(i as int)) <= usize::MAX {
                total_width(spec_gs.take(i as int))
            } else {
                usize::MAX as int
            },
        decreases gs@.len() - i,
    {
        let w = str_width(gs[i].as_str());
        assert(spec_gs.take(i + 1).drop_last() == spec_gs.take(i as int));
        assert(spec_gs[i as int] == gs@[i as int]@);
        position = position.saturating_add(w);
        i = i + 1;
    }
    assert(spec_gs.take(gs@.len() as int) == spec_gs);
    position
}

/// The decimal digits of `n`.
pub open spec fn decimal_of(n: nat) -> Seq<char>
    decreases n,
{
    if n < 10 {
        seq![digit_char(n)]
    } else {
        decimal_of(n / 10).push(digit_char(n % 10))
    }
}

pub open spec fn digit_char(d: nat) -> char {
    if d == 0 { '0' } else if d == 1 { '1' } else if d == 2 { '2' } else if d == 3 { '3' }
    else if d == 4 { '4' } else if d == 5 { '5' } else if d == 6 { '6' } else if d == 7 { '7' }
    else if d == 8 { '8' } else { '9' }
}

/// `n` in decimal, with a minus sign where it is negative.
pub open spec fn signed_decimal_of(n: int) -> Seq<char> {
    if n < 0 {
        seq!['-'] + decimal_of((-n) as nat)
    } else {
        decimal_of(n as nat)
    }
}

fn digit(d: u128) -> (c: char)
    requires
        d < 10,
    ensures
        c == digit_char(d as nat),
{
    if d == 0 { '0' } else if d == 1 { '1' } else if d == 2 { '2' } else if d == 3 { '3' }
    else if d == 4 { '4' } else if d == 5 { '5' } else if d == 6 { '6' } else if d == 7 { '7' }
    else if d == 8 { '8' } else { '9' }
}

/// Appends the decimal digits of `n`.
fn push_decimal(out: &mut String, n: u128)
    ensures
        final(out)@ == old(out)@ + decimal_of(n as nat),
    decreases n,
{
    if n >= 10 {
        push_decimal(out, n / 10);
    }
    out.push(digit(n % 10));
    proof {
        if n >= 10 {
            assert(old(out)@ + decimal_of(n as nat) =~= old(out)@ + decimal_of((n / 10) as nat) + seq![digit_char((n % 10) as nat)]);
        } else {
            assert(old(out)@ + decimal_of(n as nat) =~= old(out)@.push(digit_char((n % 10) as nat)));
        }
    }
}

/// Whole seconds from `from` to `to`, rounded toward zero.
pub open spec fn seconds_between(from: Timestamp, to: Timestamp) -> int {
    let d = to.total_nanos() - from.total_nanos();
    if d >= 0 {
        d / 1_000_000_000
    } else {
        -((-d) / 1_000_000_000)
    }
}

/// The age label of a span of `sec` seconds: the count of the largest unit
/// that fits, years, months, weeks, days, hours, minutes or seconds. A span of
/// months is marked `y` like one of years.
pub open spec fn age_label(sec: int) -> Seq<char> {
    if sec >= 31_536_000 {
        signed_decimal_of(sec / 31_536_000) + "y"@
    } else if sec >= 2_592_000 {
        signed_decimal_of(sec / 2_592_000) + "y"@
    } else if sec >= 604_800 {
        signed_decimal_of(sec / 604_800) + "w"@
    } else if sec >= 86_400 {
        signed_decimal_of(sec / 86_400) + "d"@
    } else if sec >= 3_600 {
        signed_decimal_of(sec / 3_600) + "h"@
    } else if sec >= 60 {
        signed_decimal_of(sec / 60) + "min"@
    } else {
        signed_decimal_of(sec) + "s"@
    }
}

/// The age of something made at `from`, seen at `to`, as a short label.
pub fn format_time(from_dt: Timestamp, to_dt: Timestamp) -> (r: String)
    ensures
        r@ == age_label(seconds_between(from_dt, to_dt)),
{
    let d: i128 = (to_dt.secs as i128 - from_dt.secs as i128) * 1_000_000_000 + (to_dt.nanos as i128
        - from_dt.nanos as i128);
    let negative = d < 0;
    let mag: u128 = if negative { (-d) as u128 } else { d as u128 };
    let whole: u128 = mag / 1_000_000_000;
    assert(whole as int == (if d >= 0 { d / 1_000_000_000 } else { (-d) / 1_000_000_000 }));
    let (count, unit): (u128, &str) = if negative {
        (whole, "s")
    } else if whole >= 31_536_000 {
        (whole / 31_536_000, "y")
    } else if whole >= 2_592_000 {
        (whole / 2_592_000, "y")
    } else if whole >= 604_800 {
        (whole / 604_800, "w")
    } else if whole >= 86_400 {
        (whole / 86_400, "d")
    } else if whole >= 3_600 {
        (whole / 3_600, "h")
    } else if whole >= 60 {
        (whole / 60, "min")
    } else {
        (whole, "s")
    };
    let mut r = String::new();
    if negative && count > 0 {
        r.push('-');
    }
    push_decimal(&mut r, count);
    r.append(unit);
    proof {
        reveal_strlit("y");
        reveal_strlit("w");
        reveal_strlit("d");
        reveal_strlit("h");
        reveal_strlit("min");
        reveal_strlit("s");
    }
    r
}

} // verus!
