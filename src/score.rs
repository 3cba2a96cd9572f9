//! Result records: judgement counts, the accuracy formula of each game mode,
//! and the text of active mods.
use vstd::prelude::*;

use crate::text::{decimal, fixed_digits, join_commas, push_decimal, push_fixed_digits};

verus! {

/// Judgement counts of a play.
#[derive(Debug, PartialEq, Eq, Structural, Clone, Copy)]
pub struct Hit {
    pub _geki: i16,
    pub _300: i16,
    pub _katu: i16,
    pub _100: i16,
    pub _50: i16,
    pub _miss: i16,
}

impl Default for Hit {
    fn default() -> (r: Hit)
        ensures
            r == (Hit { _geki: 0, _300: 0, _katu: 0, _100: 0, _50: 0, _miss: 0 }),
    {
        Hit { _geki: 0, _300: 0, _katu: 0, _100: 0, _50: 0, _miss: 0 }
    }
}

/// An accuracy as the exact fraction `numerator / denominator`, with a
/// positive denominator.
#[derive(Debug, PartialEq, Eq, Structural, Clone, Copy)]
pub struct Accuracy {
    pub numerator: i64,
    pub denominator: i64,
}

#[derive(Debug, PartialEq, Eq, Structural, Clone, Copy)]
pub enum AccuracyError {
    /// The game mode has no accuracy formula.
    UnsupportedMode(u8),
    /// A judgement count is negative.
    NegativeCount,
    /// The formula's denominator is zero: there is nothing to judge.
    NoHits,
}

/// Numerator and denominator of the accuracy formula of `mode`, if it has one.
pub open spec fn accuracy_terms(mode: u8, h: Hit) -> Option<(int, int)> {
    if mode == 0 {
        Some(
            (
                h._300 * 6 + h._100 * 2 + h._50,
                (h._300 + h._100 + h._50 + h._miss) * 6,
            ),
        )
    } else if mode == 1 {
        Some((h._300 * 2 + h._100, (h._300 + h._100 + h._50 + h._miss) * 2))
    } else if mode == 2 {
        Some((h._300 + h._100 + h._50, h._300 + h._100 + h._50 + h._katu + h._miss))
    } else if mode == 3 {
        Some(
            (
                (h._geki + h._300) * 6 + h._katu * 4 + h._100 * 2 + h._50,
                (h._geki + h._300 + h._katu + h._100 + h._50 + h._miss) * 6,
            ),
        )
    } else {
        None
    }
}

pub open spec fn counts_nonnegative(h: Hit) -> bool {
    h._geki >= 0 && h._300 >= 0 && h._katu >= 0 && h._100 >= 0 && h._50 >= 0 && h._miss >= 0
}

/// The accuracy of a play in `mode`, or why there is none.
pub open spec fn accuracy_of(mode: u8, h: Hit) -> Result<Accuracy, AccuracyError> {
    match accuracy_terms(mode, h) {
        None => Err(AccuracyError::UnsupportedMode(mode)),
        Some((n, d)) => if !counts_nonnegative(h) {
            Err(AccuracyError::NegativeCount)
        } else if d == 0 {
            Err(AccuracyError::NoHits)
        } else {
            Ok(Accuracy { numerator: n as i64, denominator: d as i64 })
        },
    }
}

/// The accuracy of a play from its judgement counts, by the formula of its
/// game mode (0 to 3). Any other mode has no formula and fails.
pub fn calculate_accuracy(
    gamemode: u8,
    hit_300: i16,
    hit_100: i16,
    hit_50: i16,
    hit_geki: i16,
    hit_katu: i16,
    hit_miss: i16,
) -> (r: Result<Accuracy, AccuracyError>)
    ensures
        r == accuracy_of(
            gamemode,
            Hit {
                _geki: hit_geki,
                _300: hit_300,
                _katu: hit_katu,
                _100: hit_100,
                _50: hit_50,
                _miss: hit_miss,
            },
        ),
{
    if gamemode > 3 {
        return Err(AccuracyError::UnsupportedMode(gamemode));
    }
    if hit_300 < 0 || hit_100 < 0 || hit_50 < 0 || hit_geki < 0 || hit_katu < 0 || hit_miss < 0 {
        return Err(AccuracyError::NegativeCount);
    }
    let h300 = hit_300 as i64;
    let h100 = hit_100 as i64;
    let h50 = hit_50 as i64;
    let geki = hit_geki as i64;
    let katu = hit_katu as i64;
    let miss = hit_miss as i64;
    let (n, d) = if gamemode == 0 {
        (h300 * 6 + h100 * 2 + h50, (h300 + h100 + h50 + miss) * 6)
    } else if gamemode == 1 {
        (h300 * 2 + h100, (h300 + h100 + h50 + miss) * 2)
    } else if gamemode == 2 {
        (h300 + h100 + h50, h300 + h100 + h50 + katu + miss)
    } else {
        ((geki + h300) * 6 + katu * 4 + h100 * 2 + h50, (geki + h300 + katu + h100 + h50 + miss)
            * 6)
    };
    if d == 0 {
        return Err(AccuracyError::NoHits);
    }
    Ok(Accuracy { numerator: n, denominator: d })
}

/// Decimal places written for an accuracy percentage: with judgement counts
/// of 16 bits, any non-zero accuracy gets more than 15 significant digits.
pub const PERCENT_DECIMALS: u32 = 24;

/// `10` to the power [`PERCENT_DECIMALS`].
pub const PERCENT_SCALE: u128 = 1_000_000_000_000_000_000_000_000;

/// The accuracy as a percentage times `10^24`, rounded to the nearest
/// integer, halves upward.
pub open spec fn scaled_percent(a: Accuracy) -> nat {
    ((2 * 100 * PERCENT_SCALE * a.numerator + a.denominator) / (2 * a.denominator as int)) as nat
}

/// A percentage given times `10^24`, written with 24 decimals.
pub open spec fn percent_text(q: nat) -> Seq<char> {
    decimal(q / PERCENT_SCALE as nat) + seq!['.'] + fixed_digits(
        q % PERCENT_SCALE as nat,
        PERCENT_DECIMALS as nat,
    )
}

impl Accuracy {
    /// The accuracy as a percentage with 24 decimals, rounded to nearest
    /// (`1` is `100.000000000000000000000000`).
    pub fn percent_string(&self) -> (r: String)
        requires
            0 <= self.numerator <= self.denominator <= 0x1_0000_0000,
            0 < self.denominator,
        ensures
            r@ == percent_text(scaled_percent(*self)),
    {
        let num = self.numerator as u128;
        let den = self.denominator as u128;
        assert(2 * 100 * PERCENT_SCALE * num + den <= 2 * 100 * PERCENT_SCALE * 0x1_0000_0000
            + 0x1_0000_0000) by (nonlinear_arith)
            requires
                num <= 0x1_0000_0000,
                den <= 0x1_0000_0000,
        ;
        let q: u128 = (2 * 100 * PERCENT_SCALE * num + den) / (2 * den);
        let mut s = String::new();
        push_decimal(&mut s, q / PERCENT_SCALE);
        proof {
            reveal_strlit(".");
        }
        s.append(".");
        push_fixed_digits(&mut s, q % PERCENT_SCALE, PERCENT_DECIMALS);
        assert(s@ =~= percent_text(q as nat));
        s
    }
}

/// Number of mods in the table of mod bits.
pub const MOD_COUNT: usize = 31;

/// The position of the Nightcore mod, which is never listed: its bit always
/// comes with that of DoubleTime, which is.
pub const EXCLUDED_MOD: usize = 9;

/// The acronym of the mod at bit `i` of a mods bitmask.
pub open spec fn mod_name(i: int) -> Seq<char> {
    if i == 0 { "NF"@ }
    else if i == 1 { "EZ"@ }
    else if i == 2 { "TD"@ }
    else if i == 3 { "HD"@ }
    else if i == 4 { "HR"@ }
    else if i == 5 { "SD"@ }
    else if i == 6 { "DT"@ }
    else if i == 7 { "RX"@ }
    else if i == 8 { "HT"@ }
    else if i == 9 { "NC"@ }
    else if i == 10 { "FL"@ }
    else if i == 11 { "AT"@ }
    else if i == 12 { "SO"@ }
    else if i == 13 { "AP"@ }
    else if i == 14 { "PF"@ }
    else if i == 15 { "4K"@ }
    else if i == 16 { "5K"@ }
    else if i == 17 { "6K"@ }
    else if i == 18 { "7K"@ }
    else if i == 19 { "8K"@ }
    else if i == 20 { "FI"@ }
    else if i == 21 { "RD"@ }
    else if i == 22 { "CN"@ }
    else if i == 23 { "TP"@ }
    else if i == 24 { "9K"@ }
    else if i == 25 { "KC"@ }
    else if i == 26 { "1K"@ }
    else if i == 27 { "3K"@ }
    else if i == 28 { "2K"@ }
    else if i == 29 { "V2"@ }
    else { "MR"@ }
}

fn mod_name_str(i: usize) -> (r: &'static str)
    requires
        i < MOD_COUNT,
    ensures
        r@ == mod_name(i as int),
{
    match i {
        0 => "NF",
        1 => "EZ",
        2 => "TD",
        3 => "HD",
        4 => "HR",
        5 => "SD",
        6 => "DT",
        7 => "RX",
        8 => "HT",
        9 => "NC",
        10 => "FL",
        11 => "AT",
        12 => "SO",
        13 => "AP",
        14 => "PF",
        15 => "4K",
        16 => "5K",
        17 => "6K",
        18 => "7K",
        19 => "8K",
        20 => "FI",
        21 => "RD",
        22 => "CN",
        23 => "TP",
        24 => "9K",
        25 => "KC",
        26 => "1K",
        27 => "3K",
        28 => "2K",
        29 => "V2",
        _ => "MR",
    }
}

/// Whether bit `i` of `bits` is set.
pub open spec fn has_bit(bits: u32, i: int) -> bool {
    (bits >> (i as u32)) & 1 == 1
}

/// The names listed for `bits` among the first `k` mods of the table, in
/// table order: those whose bit is set, except the excluded one.
pub open spec fn listed_mods(bits: u32, k: int) -> Seq<Seq<char>>
    decreases k,
{
    if k <= 0 {
        Seq::empty()
    } else if has_bit(bits, k - 1) && k - 1 != EXCLUDED_MOD {
        listed_mods(bits, k - 1).push(mod_name(k - 1))
    } else {
        listed_mods(bits, k - 1)
    }
}

/// The active mods of a bitmask as comma-joined acronyms, in bit order.
pub fn mods_to_string(mod_bits: u32) -> (r: String)
    ensures
        r@ == join_commas(listed_mods(mod_bits, MOD_COUNT as int)),
{
    let mut out = String::new();
    let mut any = false;
    let mut i: usize = 0;
    while i < MOD_COUNT
        invariant
            i <= MOD_COUNT,
            out@ == join_commas(listed_mods(mod_bits, i as int)),
            any == (listed_mods(mod_bits, i as int).len() > 0),
        decreases MOD_COUNT - i,
    {
        let set = (mod_bits >> (i as u32)) & 1 == 1;
        if set && i != EXCLUDED_MOD {
            let ghost before = listed_mods(mod_bits, i as int);
            if any {
                proof {
                    reveal_strlit(",");
                }
                out.append(",");
            }
            out.append(mod_name_str(i));
            proof {
                let after = listed_mods(mod_bits, i + 1);
                assert(after == before.push(mod_name(i as int)));
                assert(after.drop_last() =~= before);
                if before.len() == 0 {
                    assert(out@ =~= join_commas(after));
                } else {
                    assert(out@ =~= join_commas(after));
                }
            }
            any = true;
        }
        i = i + 1;
    }
    out
}

} // verus!
