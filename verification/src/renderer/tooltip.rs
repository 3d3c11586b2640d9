//! The label that shows where a hovered link goes.

use crate::text::{char_is_control, from_chars, is_control, to_chars};
use vstd::prelude::*;

verus! {

/// The input policy of every overlay that takes text: something, and no control
/// characters.
pub open spec fn is_printable(text: Seq<char>) -> bool {
    text.len() > 0 && forall|i: int| 0 <= i < text.len() ==> !char_is_control(#[trigger] text[i])
}

pub fn is_printable_text(text: &str) -> (r: bool)
    ensures
        r == is_printable(text@),
{
    let chars: Vec<char> = to_chars(text);
    if chars.len() == 0 {
        return false;
    }
    let mut i: usize = 0;
    while i < chars.len()
        invariant
            i <= chars@.len(),
            chars@ == text@,
            forall|k: int| 0 <= k < i ==> !char_is_control(#[trigger] chars@[k]),
        decreases chars@.len() - i,
    {
        if is_control(chars[i]) {
            return false;
        }
        i += 1;
    }
    true
}

/// The first `n` characters of a text with an ellipsis behind them.
pub open spec fn elided(text: Seq<char>, n: int) -> Seq<char> {
    text.take(n).push('\u{2026}')
}

fn elide(chars: &Vec<char>, n: usize) -> (r: String)
    requires
        n <= chars@.len(),
    ensures
        r@ == elided(chars@, n as int),
{
    let mut out: String = from_chars(vstd::slice::slice_subrange(chars.as_slice(), 0, n));
    proof {
        assert(out@ =~= chars@.take(n as int));
    }
    out.push('\u{2026}');
    out
}

/// A text was measured and found to have a width within the limit, or beyond
/// it.
pub open spec fn measured<F: Fn(String) -> u64>(
    measure: F,
    text: Seq<char>,
    max_width: u64,
    fits: bool,
) -> bool {
    exists|s: String, width: u64|
        #[trigger] measure.ensures((s,), width) && s@ == text && fits == (width <= max_width)
}

/// The text itself where it fits the width, and else its head with an ellipsis:
/// the head is measured to fit, and one more character not to. Where even the
/// first character does not fit, the ellipsis is left alone.
pub fn elide_tail<F: Fn(String) -> u64>(text: &str, max_width: u64, measure: F) -> (r: String)
    requires
        forall|s: String| #[trigger] measure.requires((s,)),
    ensures
        ({
            ||| r@ == text@ && measured(measure, text@, max_width, true)
            ||| measured(measure, text@, max_width, false) && exists|n: int|
                0 <= n <= text@.len() && r@ == #[trigger] elided(text@, n) && (n > 0 ==> measured(
                    measure,
                    elided(text@, n),
                    max_width,
                    true,
                )) && (n < text@.len() ==> measured(
                    measure,
                    elided(text@, n + 1),
                    max_width,
                    false,
                ))
        }),
{
    let whole: String = text.to_owned();
    let copy: String = whole.clone();
    let width: u64 = measure(whole);
    proof {
        assert(measured(measure, text@, max_width, width <= max_width));
    }
    if width <= max_width {
        return copy;
    }
    let chars: Vec<char> = to_chars(text);
    let mut lo: usize = 0;
    let mut hi: usize = chars.len();
    while lo < hi
        invariant
            lo <= hi <= chars@.len(),
            chars@ == text@,
            forall|s: String| #[trigger] measure.requires((s,)),
            lo > 0 ==> measured(measure, elided(text@, lo as int), max_width, true),
            hi < chars@.len() ==> measured(measure, elided(text@, hi + 1), max_width, false),
        decreases hi - lo,
    {
        let mid: usize = hi - (hi - lo) / 2;
        let candidate: String = elide(&chars, mid);
        let width: u64 = measure(candidate);
        proof {
            assert(measured(measure, elided(text@, mid as int), max_width, width <= max_width));
        }
        if width <= max_width {
            lo = mid;
        } else {
            hi = mid - 1;
        }
    }
    let r: String = elide(&chars, lo);
    proof {
        assert(r@ == elided(text@, lo as int));
    }
    r
}

/// Where longer heads are never narrower, a head that fits with one more
/// character that does not is the longest one that fits.
pub proof fn law_elision_is_longest(
    width_of: spec_fn(Seq<char>) -> int,
    text: Seq<char>,
    max_width: int,
    n: int,
    m: int,
)
    requires
        0 <= n < text.len(),
        0 <= m <= text.len(),
        forall|a: int, b: int|
            0 <= a <= b <= text.len() ==> width_of(#[trigger] elided(text, a)) <= width_of(
                #[trigger] elided(text, b),
            ),
        width_of(elided(text, n + 1)) > max_width,
        width_of(elided(text, m)) <= max_width,
    ensures
        m <= n,
{
    if m > n {
        assert(width_of(elided(text, n + 1)) <= width_of(elided(text, m)));
    }
}

} // verus!
