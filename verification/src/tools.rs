use vstd::prelude::*;

verus! {

use vstd::arithmetic::div_mod::{
    lemma_fundamental_div_mod,
    lemma_div_is_ordered,
    lemma_div_by_multiple,
    lemma_div_multiples_vanish_fancy,
    lemma_div_pos_is_pos,
};
use vstd::arithmetic::mul::{
    lemma_mul_inequality,
    lemma_mul_upper_bound,
    lemma_mul_is_commutative,
};
use crate::errors::DashboardError;
use crate::frac::Frac;
use crate::text::{
    digit_char,
    spec_dec,
    spec_run,
    spec_fg_rgb,
    spec_style_reset,
    dec_str_u128,
    digit_str,
    fill_run,
    fg_rgb,
    style_reset,
    lemma_run_len,
};

// ---------------------------------------------------------------------------
// Byte-size formatting: binary units with one decimal digit
// ---------------------------------------------------------------------------

/// The binary unit exponent for `v` bytes: the largest `e <= 6` with
/// `1024^e <= v` (zero for `v < 1024`).
pub open spec fn spec_byte_exp(v: int) -> int {
    if v < 1024 {
        0
    } else if v < 1048576 {
        1
    } else if v < 1073741824 {
        2
    } else if v < 1099511627776 {
        3
    } else if v < 1125899906842624 {
        4
    } else if v < 1152921504606846976 {
        5
    } else {
        6
    }
}

/// `1024^e` for `0 <= e <= 6`.
pub open spec fn spec_pow1024(e: int) -> int {
    if e <= 0 {
        1
    } else if e == 1 {
        1024
    } else if e == 2 {
        1048576
    } else if e == 3 {
        1073741824
    } else if e == 4 {
        1099511627776
    } else if e == 5 {
        1125899906842624
    } else {
        1152921504606846976
    }
}

/// The unit suffix for exponent `e`.
pub open spec fn spec_unit_name(e: int) -> Seq<char> {
    if e == 0 {
        seq!['B']
    } else if e == 1 {
        seq!['K', 'i', 'B']
    } else if e == 2 {
        seq!['M', 'i', 'B']
    } else if e == 3 {
        seq!['G', 'i', 'B']
    } else if e == 4 {
        seq!['T', 'i', 'B']
    } else if e == 5 {
        seq!['P', 'i', 'B']
    } else {
        seq!['E', 'i', 'B']
    }
}

/// Ten times the value in its unit, rounded to the nearest tenth (halves
/// round up), as a one-decimal rendering does.
pub open spec fn spec_byte_t10(v: int) -> int {
    (v * 10 + spec_pow1024(spec_byte_exp(v)) / 2) / spec_pow1024(spec_byte_exp(v))
}

/// The whole part of `v` in its unit, after rounding.
pub open spec fn spec_byte_whole(v: int) -> int {
    spec_byte_t10(v) / 10
}

/// The single decimal digit of `v` in its unit, after rounding.
pub open spec fn spec_byte_tenth(v: int) -> int {
    spec_byte_t10(v) % 10
}

/// The rendering of `v` bytes: whole part, a dot, one decimal digit, a space,
/// and the binary unit suffix.
pub open spec fn spec_byte_str(v: int) -> Seq<char> {
    spec_dec(spec_byte_whole(v) as nat) + seq!['.'] + seq![digit_char(spec_byte_tenth(v))]
        + seq![' '] + spec_unit_name(spec_byte_exp(v))
}

/// Ten times the byte magnitude that the rendered string denotes:
/// `(whole * 10 + tenth) * 1024^e`.
pub open spec fn spec_byte_mag10(v: int) -> int {
    (spec_byte_whole(v) * 10 + spec_byte_tenth(v)) * spec_pow1024(spec_byte_exp(v))
}

fn unit_str(e: u64) -> (r: &'static str)
    requires
        e <= 6,
    ensures
        r@ == spec_unit_name(e as int),
{
    proof {
        reveal_strlit("B");
        reveal_strlit("KiB");
        reveal_strlit("MiB");
        reveal_strlit("GiB");
        reveal_strlit("TiB");
        reveal_strlit("PiB");
        reveal_strlit("EiB");
    }
    let r: &'static str = if e == 0 {
        "B"
    } else if e == 1 {
        "KiB"
    } else if e == 2 {
        "MiB"
    } else if e == 3 {
        "GiB"
    } else if e == 4 {
        "TiB"
    } else if e == 5 {
        "PiB"
    } else {
        "EiB"
    };
    proof {
        assert(r@ =~= spec_unit_name(e as int));
    }
    r
}

/// Renders a byte count in a human-readable binary unit.
pub fn u64_byte_str(v: u64) -> (r: String)
    ensures
        r@ == spec_byte_str(v as int),
{
    let (e, unit): (u64, u64) = if v < 1024 {
        (0, 1)
    } else if v < 1048576 {
        (1, 1024)
    } else if v < 1073741824 {
        (2, 1048576)
    } else if v < 1099511627776 {
        (3, 1073741824)
    } else if v < 1125899906842624 {
        (4, 1099511627776)
    } else if v < 1152921504606846976 {
        (5, 1125899906842624)
    } else {
        (6, 1152921504606846976)
    };
    proof {
        assert(e as int == spec_byte_exp(v as int));
        assert(unit as int == spec_pow1024(e as int));
    }
    let t10_128: u128 = ((v as u128) * 10 + (unit as u128) / 2) / (unit as u128);
    proof {
        // the value stays below 1024 of its unit (16 for the largest), so the
        // rounded tenths count is small
        assert((v as int) * 10 + (unit as int) / 2 <= 20000 * (unit as int));
        lemma_div_is_ordered(
            (v as int) * 10 + (unit as int) / 2,
            20000 * (unit as int),
            unit as int,
        );
        lemma_div_by_multiple(20000, unit as int);
        assert(t10_128 <= 20000);
    }
    let t10: u64 = t10_128 as u64;
    let whole = t10 / 10;
    let tenth = t10 % 10;
    proof {
        assert(t10 as int == spec_byte_t10(v as int));
        assert(whole as int == spec_byte_whole(v as int));
        assert(tenth as int == spec_byte_tenth(v as int));
    }
    let mut s = dec_str_u128(whole as u128);
    proof {
        reveal_strlit(".");
        reveal_strlit(" ");
        assert("."@ =~= seq!['.']);
        assert(" "@ =~= seq![' ']);
    }
    s.append(".");
    s.append(digit_str(tenth));
    s.append(" ");
    s.append(unit_str(e));
    proof {
        assert(s@ =~= spec_byte_str(v as int));
    }
    s
}

/// Values that render as human-readable binary byte units.
pub trait ByteStr {
    /// The character sequence that `byte_str` renders.
    spec fn spec_byte_repr(&self) -> Seq<char>;

    /// Renders the value with one decimal digit and a binary unit suffix.
    fn byte_str(&self) -> (r: String)
        ensures
            r@ == self.spec_byte_repr(),
    ;
}

impl ByteStr for u64 {
    open spec fn spec_byte_repr(&self) -> Seq<char> {
        spec_byte_str(*self as int)
    }

    fn byte_str(&self) -> (r: String) {
        let r = u64_byte_str(*self);
        proof {
            assert(r@ == spec_byte_str(*self as int));
            assert(self.spec_byte_repr() == spec_byte_str(*self as int));
        }
        r
    }
}

/// The rendered digits recompose the rounded tenths count: the denoted
/// magnitude is that count scaled back by the unit.
proof fn lemma_mag10_t10(v: int)
    requires
        0 <= v,
    ensures
        spec_byte_mag10(v) == spec_byte_t10(v) * spec_pow1024(spec_byte_exp(v)),
{
    lemma_fundamental_div_mod(spec_byte_t10(v), 10);
}

/// Byte-size formatting is monotonic: a larger byte count never renders as a
/// smaller magnitude. `spec_byte_mag10` is ten times the magnitude in bytes
/// that the rendered string denotes.
pub proof fn lemma_byte_str_monotonic(a: u64, b: u64)
    requires
        a <= b,
    ensures
        spec_byte_mag10(a as int) <= spec_byte_mag10(b as int),
{
    let ea = spec_byte_exp(a as int);
    let eb = spec_byte_exp(b as int);
    let ua = spec_pow1024(ea);
    let ub = spec_pow1024(eb);
    let ta = spec_byte_t10(a as int);
    let tb = spec_byte_t10(b as int);
    lemma_mag10_t10(a as int);
    lemma_mag10_t10(b as int);
    assert(ea <= eb);
    if ea == eb {
        lemma_div_is_ordered(
            (a as int) * 10 + ua / 2,
            (b as int) * 10 + ua / 2,
            ua,
        );
        lemma_mul_inequality(ta, tb, ua);
    } else {
        // `a` tops out below its next unit, so its rounded tenths count is at
        // most a full 1024 units; `b` starts at a full unit of its own.
        assert(ea < 6);
        assert((a as int) < spec_pow1024(ea + 1));
        assert(spec_pow1024(ea + 1) == 1024 * ua);
        assert(spec_pow1024(ea + 1) <= ub);
        assert((a as int) * 10 + ua / 2 <= ua * 10240 + (ua - 1));
        lemma_div_is_ordered((a as int) * 10 + ua / 2, ua * 10240 + (ua - 1), ua);
        lemma_div_multiples_vanish_fancy(10240, ua - 1, ua);
        assert(ta <= 10240);
        lemma_mul_inequality(ta, 10240, ua);
        assert(spec_byte_mag10(a as int) <= 10240 * ua);
        assert((b as int) >= ub);
        lemma_div_by_multiple(10, ub);
        lemma_div_is_ordered(10 * ub, (b as int) * 10 + ub / 2, ub);
        assert(tb >= 10);
        lemma_mul_inequality(10, tb, ub);
        assert(spec_byte_mag10(b as int) >= 10 * ub);
        assert(10240 * ua == 10 * (1024 * ua));
        assert(10 * (1024 * ua) <= 10 * ub);
    }
}

// ---------------------------------------------------------------------------
// Color resolution, through csscolorparser
// ---------------------------------------------------------------------------

/// The RGB triple that a CSS color token resolves to, or nothing when the
/// token is not a recognised color.
pub uninterp spec fn css_color_spec(s: Seq<char>) -> Option<(u8, u8, u8)>;

/// Relies on csscolorparser's `parse` and `Color::to_rgba8`: whether a token
/// is a recognised CSS color name or hex literal, and which color, is a
/// function of the token text alone.
#[verifier::external_body]
fn parse_css_color(s: &str) -> (r: Option<(u8, u8, u8)>)
    ensures
        r == css_color_spec(s@),
{
    match csscolorparser::parse(s) {
        Ok(c) => {
            let c = c.to_rgba8();
            Some((c[0], c[1], c[2]))
        },
        Err(_) => None,
    }
}

/// Resolves a CSS-style color token (name or hex literal) to an RGB triple.
pub fn color_to_rgb8(color: &str) -> (r: Result<(u8, u8, u8), DashboardError>)
    ensures
        ({
            match css_color_spec(color@) {
                Some(c) => r == Ok::<(u8, u8, u8), DashboardError>(c),
                None => r == Err::<(u8, u8, u8), DashboardError>(DashboardError::ColorParse),
            }
        }),
{
    match parse_css_color(color) {
        Some(c) => Ok(c),
        None => Err(DashboardError::ColorParse),
    }
}

// ---------------------------------------------------------------------------
// The utilization bar
// ---------------------------------------------------------------------------

/// How many interior characters are drawn as used: `floor((width-2) * f)`.
pub open spec fn spec_bar_used(width: int, f: Frac) -> int {
    (width - 2) * (f.num as int) / (f.den as int)
}

/// How many interior characters are left as free fill.
pub open spec fn spec_bar_free(width: int, f: Frac) -> int {
    (width - 2) - spec_bar_used(width, f)
}

/// The color of the used segment: the warning color only for fractions
/// strictly greater than the threshold.
pub open spec fn spec_bar_rgb(
    f: Frac,
    threshold: Frac,
    normal: (u8, u8, u8),
    warning: (u8, u8, u8),
) -> (u8, u8, u8) {
    if f.spec_gt(threshold) {
        warning
    } else {
        normal
    }
}

/// The full bar text: brackets around a colored used run and an uncolored
/// free run, with the color reset directly after the used segment.
pub open spec fn spec_bar(
    width: int,
    f: Frac,
    normal: (u8, u8, u8),
    warning: (u8, u8, u8),
    threshold: Frac,
) -> Seq<char> {
    let c = spec_bar_rgb(f, threshold, normal, warning);
    seq!['['] + spec_fg_rgb(c.0, c.1, c.2) + spec_run('=', spec_bar_used(width, f) as nat)
        + spec_style_reset() + spec_run('=', spec_bar_free(width, f) as nat) + seq![']']
}

/// What a bar render attempt yields: the bar text when both color tokens
/// resolve and the width admits the two brackets, else the fatal error
/// (unresolvable colors are reported before the layout check).
pub open spec fn spec_bar_outcome(
    width: int,
    f: Frac,
    normal: Seq<char>,
    warning: Seq<char>,
    threshold: Frac,
) -> Result<Seq<char>, DashboardError> {
    match (css_color_spec(normal), css_color_spec(warning)) {
        (Some(nc), Some(wc)) => if width < 2 {
            Err(DashboardError::Layout)
        } else {
            Ok(spec_bar(width, f, nc, wc, threshold))
        },
        _ => Err(DashboardError::ColorParse),
    }
}

/// Renders the utilization bar: `width` counts the printable characters,
/// brackets included; `per` is the fraction drawn as used.
///
/// Both color tokens must resolve, else the bar fails with a color error;
/// a width below the two bracket characters fails with a layout error.
pub fn process_str(
    width: usize,
    per: Frac,
    normal_color: &str,
    warning_color: &str,
    threshold: Frac,
) -> (r: Result<String, DashboardError>)
    requires
        per.wf(),
        threshold.wf(),
    ensures
        ({
            match (r, spec_bar_outcome(width as int, per, normal_color@, warning_color@, threshold)) {
                (Ok(s), Ok(sp)) => s@ == sp,
                (Err(e), Err(ep)) => e == ep,
                _ => false,
            }
        }),
{
    let nc = match color_to_rgb8(normal_color) {
        Ok(c) => c,
        Err(e) => {
            return Err(e);
        },
    };
    let wc = match color_to_rgb8(warning_color) {
        Ok(c) => c,
        Err(e) => {
            return Err(e);
        },
    };
    if width < 2 {
        return Err(DashboardError::Layout);
    }
    let total = width - 2;
    let chosen = if per.gt(&threshold) {
        wc
    } else {
        nc
    };
    proof {
        lemma_mul_upper_bound(total as int, u64::MAX as int, per.num as int, u64::MAX as int);
        lemma_mul_inequality(per.num as int, per.den as int, total as int);
        lemma_mul_is_commutative(total as int, per.num as int);
        lemma_mul_is_commutative(total as int, per.den as int);
        lemma_div_is_ordered(
            (total as int) * (per.num as int),
            (total as int) * (per.den as int),
            per.den as int,
        );
        lemma_div_by_multiple(total as int, per.den as int);
        lemma_div_pos_is_pos((total as int) * (per.num as int), per.den as int);
        vstd::arithmetic::mul::lemma_mul_nonnegative(total as int, per.num as int);
    }
    let used128: u128 = (total as u128) * (per.num as u128) / (per.den as u128);
    let used: usize = used128 as usize;
    let free: usize = total - used;
    let fg = fg_rgb(chosen.0, chosen.1, chosen.2);
    let reset = style_reset();
    let used_run = fill_run(used);
    let free_run = fill_run(free);
    proof {
        reveal_strlit("[");
        reveal_strlit("]");
        assert("["@ =~= seq!['[']);
        assert("]"@ =~= seq![']']);
    }
    let mut s = "[".to_owned();
    s.append(fg.as_str());
    s.append(used_run.as_str());
    s.append(reset.as_str());
    s.append(free_run.as_str());
    s.append("]");
    proof {
        assert(s@ =~= spec_bar(width as int, per, nc, wc, threshold));
    }
    Ok(s)
}

/// For every width of at least two and fraction in `[0, 1]`, the bar fills
/// its interior exactly: the used and free runs together hold `width - 2`
/// characters, which with the two brackets makes `width` visible characters.
pub proof fn lemma_bar_fills_width(width: int, f: Frac)
    requires
        width >= 2,
        f.wf(),
    ensures
        spec_bar_used(width, f) + spec_bar_free(width, f) == width - 2,
        0 <= spec_bar_used(width, f) <= width - 2,
        spec_run('=', spec_bar_used(width, f) as nat).len() + spec_run(
            '=',
            spec_bar_free(width, f) as nat,
        ).len() == width - 2,
{
    let t = width - 2;
    vstd::arithmetic::mul::lemma_mul_nonnegative(t, f.num as int);
    lemma_div_pos_is_pos(t * f.num, f.den as int);
    lemma_mul_inequality(f.num as int, f.den as int, t);
    lemma_mul_is_commutative(t, f.num as int);
    lemma_mul_is_commutative(t, f.den as int);
    lemma_div_is_ordered(t * f.num, t * f.den, f.den as int);
    lemma_div_by_multiple(t, f.den as int);
    lemma_run_len('=', spec_bar_used(width, f) as nat);
    lemma_run_len('=', spec_bar_free(width, f) as nat);
}

/// At the threshold boundary the bar keeps the normal color: a fraction equal
/// to the threshold is not strictly greater than it.
pub proof fn lemma_threshold_boundary(
    f: Frac,
    threshold: Frac,
    normal: (u8, u8, u8),
    warning: (u8, u8, u8),
)
    requires
        f == threshold,
    ensures
        spec_bar_rgb(f, threshold, normal, warning) == normal,
{
}

} // verus!
