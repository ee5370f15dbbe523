//! The textual level gauge.
//!
//! Rendering is a pure function from an instantaneous loudness level and a
//! fixed configuration to one line of text: a border glyph, a bar of exactly
//! `BAR_WIDTH` cells (`*` for filled, space for blank, with the cell at the
//! threshold's proportional position overwritten by `O` when a threshold is
//! configured), the closing border glyph, a space, and the level as a
//! decimal label.  The filled width is the level's proportion of
//! `max_level`, rounded half up and clamped to the bar, so no input, however
//! far above full scale, widens the bar.

use vstd::prelude::*;

verus! {

/// How many cells the bar itself has (80 columns less the border glyphs).
pub const BAR_WIDTH: usize = 78;

/// The gauge's fixed configuration: the full-scale level, and optionally a
/// threshold whose position is marked in the bar.
#[derive(Clone, Copy, Debug)]
pub struct LevelMeterConfig {
    pub max_level: u64,
    pub threshold: Option<u64>,
}

impl LevelMeterConfig {
    /// The configuration is well formed when full scale is positive.
    pub open spec fn wf(self) -> bool {
        self.max_level >= 1
    }
}

/// The proportion `level / max` mapped onto `width` cells, rounded half up,
/// clamped to `width`.
pub open spec fn scaled_cells(level: int, max: int, width: int) -> int {
    let q = (2 * level * width + max) / (2 * max);
    if q >= width {
        width
    } else {
        q
    }
}

/// How many bar cells are filled for a level.
pub open spec fn filled_spec(level: int, max: int) -> int {
    scaled_cells(level, max, BAR_WIDTH as int)
}

/// The bar cell that carries the threshold marker: the threshold's
/// proportional position, clamped to the last cell.
pub open spec fn marker_spec(threshold: int, max: int) -> int {
    let q = scaled_cells(threshold, max, BAR_WIDTH as int);
    if q >= BAR_WIDTH {
        BAR_WIDTH - 1
    } else {
        q
    }
}

/// The character of one bar cell, threshold marker aside.
pub open spec fn fill_char(level: int, max: int, i: int) -> char {
    if i < filled_spec(level, max) {
        '*'
    } else {
        ' '
    }
}

/// The character of one bar cell.
pub open spec fn bar_char_at(level: int, cfg: LevelMeterConfig, i: int) -> char {
    match cfg.threshold {
        Option::Some(t) => {
            if i == marker_spec(t as int, cfg.max_level as int) {
                'O'
            } else {
                fill_char(level, cfg.max_level as int, i)
            }
        },
        Option::None => fill_char(level, cfg.max_level as int, i),
    }
}

/// The whole bar, cell by cell.
pub open spec fn bar_chars(level: int, cfg: LevelMeterConfig) -> Seq<char> {
    Seq::new(BAR_WIDTH as nat, |i: int| bar_char_at(level, cfg, i))
}

/// The decimal digits of a number, most significant first.
pub open spec fn dec_digits(n: nat) -> Seq<char>
    decreases n,
{
    if n < 10 {
        seq![digit_char(n as int)]
    } else {
        dec_digits(n / 10) + seq![digit_char((n % 10) as int)]
    }
}

/// The character of one decimal digit.
pub open spec fn digit_char(d: int) -> char {
    if d == 0 {
        '0'
    } else if d == 1 {
        '1'
    } else if d == 2 {
        '2'
    } else if d == 3 {
        '3'
    } else if d == 4 {
        '4'
    } else if d == 5 {
        '5'
    } else if d == 6 {
        '6'
    } else if d == 7 {
        '7'
    } else if d == 8 {
        '8'
    } else {
        '9'
    }
}

/// The filled width is never negative and never exceeds the bar, whatever
/// the level, including levels far above full scale.
pub proof fn lemma_fill_clamped(level: int, max: int)
    requires
        level >= 0,
        max >= 1,
    ensures
        0 <= filled_spec(level, max) <= BAR_WIDTH,
{
    vstd::arithmetic::div_mod::lemma_div_pos_is_pos(2 * level * 78 + max, 2 * max);
}

/// A zero level fills nothing.
pub proof fn lemma_fill_empty(max: int)
    requires
        max >= 1,
    ensures
        filled_spec(0, max) == 0,
{
    vstd::arithmetic::div_mod::lemma_basic_div(max, 2 * max);
}

/// A full-scale level fills the whole bar, exactly.
pub proof fn lemma_fill_full(max: int)
    requires
        max >= 1,
    ensures
        filled_spec(max, max) == BAR_WIDTH,
{
    assert(2 * max * 78 + max == 78 * (2 * max) + max) by (nonlinear_arith);
    vstd::arithmetic::div_mod::lemma_fundamental_div_mod_converse(
        78 * (2 * max) + max,
        2 * max,
        78,
        max,
    );
}

/// One decimal digit as text.
fn digit_str(d: u64) -> (s: &'static str)
    requires
        d < 10,
    ensures
        s@ == seq![digit_char(d as int)],
{
    proof {
        reveal_strlit("0");
        reveal_strlit("1");
        reveal_strlit("2");
        reveal_strlit("3");
        reveal_strlit("4");
        reveal_strlit("5");
        reveal_strlit("6");
        reveal_strlit("7");
        reveal_strlit("8");
        reveal_strlit("9");
    }
    if d == 0 {
        "0"
    } else if d == 1 {
        "1"
    } else if d == 2 {
        "2"
    } else if d == 3 {
        "3"
    } else if d == 4 {
        "4"
    } else if d == 5 {
        "5"
    } else if d == 6 {
        "6"
    } else if d == 7 {
        "7"
    } else if d == 8 {
        "8"
    } else {
        "9"
    }
}

/// Formats a number as its decimal digits, most significant first.
pub fn u64_to_string(n: u64) -> (s: String)
    ensures
        s@ == dec_digits(n as nat),
    decreases n,
{
    if n < 10 {
        digit_str(n).to_owned()
    } else {
        let mut s = u64_to_string(n / 10);
        s.append(digit_str(n % 10));
        s
    }
}

/// Renders one gauge line for an instantaneous level: border, the bar of
/// exactly `BAR_WIDTH` cells, border, space, and the decimal label.
pub fn render(level: u64, cfg: &LevelMeterConfig) -> (r: String)
    requires
        cfg.wf(),
    ensures
        r@ == seq!['|'] + bar_chars(level as int, *cfg) + seq!['|', ' '] + dec_digits(
            level as nat,
        ),
{
    let filled = compute_cells(level, cfg.max_level);
    let marker: Option<usize> = match cfg.threshold {
        Option::Some(t) => {
            let q = compute_cells(t, cfg.max_level);
            if q >= BAR_WIDTH {
                Option::Some(BAR_WIDTH - 1)
            } else {
                Option::Some(q)
            }
        },
        Option::None => Option::None,
    };

    let mut out: String = "|".to_owned();
    proof {
        reveal_strlit("|");
        assert(out@ =~= seq!['|'] + bar_chars(level as int, *cfg).take(0));
    }
    let mut i: usize = 0;
    while i < BAR_WIDTH
        invariant
            cfg.wf(),
            i <= BAR_WIDTH,
            filled == filled_spec(level as int, cfg.max_level as int),
            (match cfg.threshold {
                Option::Some(t) => marker == Option::Some(
                    marker_spec(t as int, cfg.max_level as int) as usize,
                ),
                Option::None => marker is None,
            }),
            out@ == seq!['|'] + bar_chars(level as int, *cfg).take(i as int),
        decreases BAR_WIDTH - i,
    {
        proof {
            reveal_strlit("O");
            reveal_strlit("*");
            reveal_strlit(" ");
            assert(bar_chars(level as int, *cfg).take(i + 1) =~= bar_chars(
                level as int,
                *cfg,
            ).take(i as int).push(bar_char_at(level as int, *cfg, i as int)));
        }
        let is_marker = match marker {
            Option::Some(p) => p == i,
            Option::None => false,
        };
        if is_marker {
            out.append("O");
        } else if i < filled {
            out.append("*");
        } else {
            out.append(" ");
        }
        i = i + 1;
    }
    proof {
        reveal_strlit("| ");
        assert(bar_chars(level as int, *cfg).take(BAR_WIDTH as int) =~= bar_chars(
            level as int,
            *cfg,
        ));
        assert(("| ")@ =~= seq!['|', ' ']);
    }
    out.append("| ");
    let label = u64_to_string(level);
    out.append(label.as_str());
    proof {
        assert(out@ =~= seq!['|'] + bar_chars(level as int, *cfg) + seq!['|', ' '] + dec_digits(
            level as nat,
        ));
    }
    out
}

/// The level's proportion of full scale in bar cells, rounded half up and
/// clamped to the bar width.
fn compute_cells(level: u64, max: u64) -> (c: usize)
    requires
        max >= 1,
    ensures
        c == scaled_cells(level as int, max as int, BAR_WIDTH as int),
{
    let num: u128 = 2 * (level as u128) * 78 + (max as u128);
    let den: u128 = 2 * (max as u128);
    let q = num / den;
    if q >= 78 {
        BAR_WIDTH
    } else {
        q as usize
    }
}

} // verus!
