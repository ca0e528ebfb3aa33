use vstd::prelude::*;

verus! {

// ---------------------------------------------------------------------------
// Decimal rendering
// ---------------------------------------------------------------------------

/// The decimal digit character for `d` in `0 ..= 9`.
pub open spec fn digit_char(d: int) -> char {
    if d == 0 {
        '0'
    } else if d == 1 {
        '1'
    } else if d == 2 {
        '2'
    } else if d == 3 {
        '3'
    } else if d == 4 {
        '4'
    } else if d == 5 {
        '5'
    } else if d == 6 {
        '6'
    } else if d == 7 {
        '7'
    } else if d == 8 {
        '8'
    } else {
        '9'
    }
}

/// The decimal rendering of `n`, most significant digit first, with no
/// leading zeros (a single `'0'` for zero).
pub open spec fn spec_dec(n: nat) -> Seq<char>
    decreases n,
{
    if n < 10 {
        seq![digit_char(n as int)]
    } else {
        spec_dec(n / 10).push(digit_char((n % 10) as int))
    }
}

pub(crate) fn digit_str(d: u64) -> (r: &'static str)
    requires
        d < 10,
    ensures
        r@ == seq![digit_char(d as int)],
{
    proof {
        reveal_strlit("0");
        reveal_strlit("1");
        reveal_strlit("2");
        reveal_strlit("3");
        reveal_strlit("4");
        reveal_strlit("5");
        reveal_strlit("6");
        reveal_strlit("7");
        reveal_strlit("8");
        reveal_strlit("9");
    }
    let r: &'static str = if d == 0 {
        "0"
    } else if d == 1 {
        "1"
    } else if d == 2 {
        "2"
    } else if d == 3 {
        "3"
    } else if d == 4 {
        "4"
    } else if d == 5 {
        "5"
    } else if d == 6 {
        "6"
    } else if d == 7 {
        "7"
    } else if d == 8 {
        "8"
    } else {
        "9"
    };
    proof {
        assert(r@ =~= seq![digit_char(d as int)]);
    }
    r
}

/// Renders `n` in decimal.
pub fn dec_str_u128(n: u128) -> (r: String)
    ensures
        r@ == spec_dec(n as nat),
    decreases n,
{
    if n < 10 {
        let d = digit_str(n as u64);
        let r = d.to_owned();
        proof {
            assert(r@ =~= spec_dec(n as nat));
        }
        r
    } else {
        let mut r = dec_str_u128(n / 10);
        let d = digit_str((n % 10) as u64);
        r.append(d);
        proof {
            assert(r@ =~= spec_dec(n as nat));
        }
        r
    }
}

// ---------------------------------------------------------------------------
// Character runs
// ---------------------------------------------------------------------------

/// `n` copies of the character `c`.
pub open spec fn spec_run(c: char, n: nat) -> Seq<char>
    decreases n,
{
    if n == 0 {
        Seq::empty()
    } else {
        spec_run(c, (n - 1) as nat).push(c)
    }
}

pub proof fn lemma_run_len(c: char, n: nat)
    ensures
        spec_run(c, n).len() == n,
    decreases n,
{
    if n > 0 {
        lemma_run_len(c, (n - 1) as nat);
    }
}

fn run_str(piece: &str, gc: Ghost<char>, n: usize) -> (r: String)
    requires
        piece@ == seq![gc@],
    ensures
        r@ == spec_run(gc@, n as nat),
{
    let mut r = String::new();
    let mut i: usize = 0;
    while i < n
        invariant
            i <= n,
            piece@ == seq![gc@],
            r@ == spec_run(gc@, i as nat),
        decreases n - i,
    {
        r.append(piece);
        i = i + 1;
        proof {
            assert(r@ =~= spec_run(gc@, i as nat));
        }
    }
    r
}

/// `n` spaces.
pub fn space_run(n: usize) -> (r: String)
    ensures
        r@ == spec_run(' ', n as nat),
{
    proof {
        reveal_strlit(" ");
        assert(" "@ =~= seq![' ']);
    }
    run_str(" ", Ghost(' '), n)
}

/// `n` bar fill characters.
pub fn fill_run(n: usize) -> (r: String)
    ensures
        r@ == spec_run('=', n as nat),
{
    proof {
        reveal_strlit("=");
        assert("="@ =~= seq!['=']);
    }
    run_str("=", Ghost('='), n)
}

// ---------------------------------------------------------------------------
// ANSI escape sequences, through termion
// ---------------------------------------------------------------------------

/// The control sequence introducer `ESC [`.
pub open spec fn spec_csi() -> Seq<char> {
    seq!['\u{1b}', '[']
}

/// The truecolor foreground sequence `ESC [38;2;R;G;Bm`.
pub open spec fn spec_fg_rgb(r: u8, g: u8, b: u8) -> Seq<char> {
    spec_csi() + seq!['3', '8', ';', '2', ';'] + spec_dec(r as nat) + seq![';'] + spec_dec(
        g as nat,
    ) + seq![';'] + spec_dec(b as nat) + seq!['m']
}

/// The style reset sequence `ESC [m`.
pub open spec fn spec_style_reset() -> Seq<char> {
    seq!['\u{1b}', '[', 'm']
}

/// The 256-color foreground sequence `ESC [38;5;Nm`.
pub open spec fn spec_fg_ansi(n: nat) -> Seq<char> {
    spec_csi() + seq!['3', '8', ';', '5', ';'] + spec_dec(n) + seq!['m']
}

/// The foreground color reset sequence `ESC [39m`.
pub open spec fn spec_fg_reset() -> Seq<char> {
    seq!['\u{1b}', '[', '3', '9', 'm']
}

/// Relies on termion's `color::Rgb::fg_string`: it renders exactly
/// `ESC [38;2;` r `;` g `;` b `m`, with the channels in decimal.
#[verifier::external_body]
pub(crate) fn fg_rgb(r: u8, g: u8, b: u8) -> (s: String)
    ensures
        s@ == spec_fg_rgb(r, g, b),
{
    termion::color::Rgb(r, g, b).fg_string()
}

/// Relies on termion's `style::Reset`: its text form is exactly `ESC [m`.
#[verifier::external_body]
pub(crate) fn style_reset() -> (s: String)
    ensures
        s@ == spec_style_reset(),
{
    format!("{}", termion::style::Reset)
}

/// Relies on termion's `color::Red::fg_str`: exactly `ESC [38;5;1m`.
#[verifier::external_body]
pub(crate) fn fg_red() -> (s: String)
    ensures
        s@ == spec_fg_ansi(1),
{
    termion::color::Red.fg_str().to_string()
}

/// Relies on termion's `color::Green::fg_str`: exactly `ESC [38;5;2m`.
#[verifier::external_body]
pub(crate) fn fg_green() -> (s: String)
    ensures
        s@ == spec_fg_ansi(2),
{
    termion::color::Green.fg_str().to_string()
}

/// Relies on termion's `color::Reset::fg_str`: exactly `ESC [39m`.
#[verifier::external_body]
pub(crate) fn fg_reset() -> (s: String)
    ensures
        s@ == spec_fg_reset(),
{
    termion::color::Reset.fg_str().to_string()
}

// ---------------------------------------------------------------------------
// Unicode display width, trimming, durations
// ---------------------------------------------------------------------------

/// The displayed column width of a character sequence, as unicode_width
/// measures it.
pub uninterp spec fn str_width(s: Seq<char>) -> nat;

/// Relies on unicode_width's `UnicodeWidthStr::width`: the displayed width of
/// a string in terminal columns, a function of its characters alone.
#[verifier::external_body]
pub(crate) fn text_width(s: &str) -> (w: usize)
    ensures
        w as nat == str_width(s@),
{
    unicode_width::UnicodeWidthStr::width(s)
}

/// What `str::trim` returns: the text without leading and trailing whitespace.
pub uninterp spec fn spec_trimmed(s: Seq<char>) -> Seq<char>;

/// Relies on `str::trim`: removes leading and trailing whitespace, a function
/// of the characters alone.
#[verifier::external_body]
pub(crate) fn trim_text<'a>(s: &'a str) -> (r: &'a str)
    ensures
        r@ == spec_trimmed(s@),
{
    s.trim()
}

/// What `str::trim_end` returns: the text without trailing whitespace.
pub uninterp spec fn spec_trimmed_end(s: Seq<char>) -> Seq<char>;

/// Relies on `str::trim_end`: removes trailing whitespace, a function of the
/// characters alone.
#[verifier::external_body]
pub(crate) fn trim_end_text<'a>(s: &'a str) -> (r: &'a str)
    ensures
        r@ == spec_trimmed_end(s@),
{
    s.trim_end()
}

/// What humantime renders for a duration of `secs` whole seconds.
pub uninterp spec fn spec_human_duration(secs: u64) -> Seq<char>;

/// Relies on humantime's `format_duration`: a fixed text rendering of a
/// duration, a function of the seconds alone.
#[verifier::external_body]
pub(crate) fn human_duration(secs: u64) -> (r: String)
    ensures
        r@ == spec_human_duration(secs),
{
    format!("{}", humantime::format_duration(core::time::Duration::from_secs(secs)))
}

} // verus!
