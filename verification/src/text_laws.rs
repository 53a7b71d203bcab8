//! What the numbers on screen read and what the keys mean, whatever the
//! values and whichever key.
use vstd::prelude::*;

use crate::game::PlayerAction;
use crate::input::{key_action, Key};
use crate::game::{rows_for_wave, GameView};
use crate::render::{bar_filled, centered, decimal, digit, repeat, wave_progress, zero_padded};
use crate::screens::{menu_step_for, MenuChoice, MenuStep};

verus! {

/// Whether every character of `s` is a decimal digit `0` to `9`.
pub open spec fn is_numeral(s: Seq<char>) -> bool {
    forall|i: int| 0 <= i < s.len() ==> 48 <= #[trigger] (s[i] as int) <= 57
}

/// The number a string of decimal digits reads as, most significant first.
pub open spec fn numeral_value(s: Seq<char>) -> int
    decreases s.len(),
{
    if s.len() == 0 {
        0
    } else {
        numeral_value(s.drop_last()) * 10 + (s.last() as int - 48)
    }
}

/// The digit `d` is written with the character whose code is that of `0`
/// plus `d`.
pub proof fn law_digit_is_its_character(d: nat)
    requires
        d < 10,
    ensures
        digit(d) as int == 48 + d,
{
}

/// Numbers are written in decimal: the digits of `n` read back as `n`,
/// there is at least one, and there is no leading zero.
pub proof fn law_decimal_reads_back(n: nat)
    ensures
        is_numeral(decimal(n)),
        numeral_value(decimal(n)) == n,
        decimal(n).len() >= 1,
        n >= 10 ==> decimal(n)[0] != '0',
    decreases n,
{
    law_digit_is_its_character(n % 10);
    if n >= 10 {
        law_decimal_reads_back(n / 10);
        let s = decimal(n);
        assert(s.drop_last() =~= decimal(n / 10));
        assert(s[0] == decimal(n / 10)[0]);
        assert((n / 10) * 10 + n % 10 == n);
        assert(s.last() == digit(n % 10));
        assert(numeral_value(s) == numeral_value(decimal(n / 10)) * 10 + (digit(n % 10) as int
            - 48));
    } else {
        let s = decimal(n);
        assert(s.drop_last() =~= Seq::<char>::empty());
        assert(n % 10 == n);
        assert(numeral_value(s) == numeral_value(s.drop_last()) * 10 + (digit(n) as int - 48));
    }
}

/// Zeros in front do not change what a numeral reads.
proof fn lemma_leading_zeros(k: nat, s: Seq<char>)
    ensures
        numeral_value(repeat('0', k) + s) == numeral_value(s),
    decreases s.len(),
{
    if s.len() == 0 {
        assert(repeat('0', k) + s =~= repeat('0', k));
        lemma_zeros_read_zero(k);
    } else {
        assert((repeat('0', k) + s).drop_last() =~= repeat('0', k) + s.drop_last());
        lemma_leading_zeros(k, s.drop_last());
    }
}

/// A row of zeros reads zero.
proof fn lemma_zeros_read_zero(k: nat)
    ensures
        numeral_value(repeat('0', k)) == 0,
    decreases k,
{
    if k > 0 {
        assert(repeat('0', k).drop_last() =~= repeat('0', (k - 1) as nat));
        lemma_zeros_read_zero((k - 1) as nat);
    }
}

/// Zero-padded numbers, as the score and the wave are shown, read back as
/// the number, in at least `width` digits, and no longer than needed.
pub proof fn law_zero_padded_reads_back(n: nat, width: nat)
    ensures
        is_numeral(zero_padded(n, width)),
        numeral_value(zero_padded(n, width)) == n,
        zero_padded(n, width).len() == if decimal(n).len() < width {
            width
        } else {
            decimal(n).len()
        },
{
    law_decimal_reads_back(n);
    let d = decimal(n);
    if d.len() < width {
        let k = (width - d.len()) as nat;
        lemma_leading_zeros(k, d);
        assert forall|i: int| 0 <= i < zero_padded(n, width).len() implies 48 <= #[trigger] (
        zero_padded(n, width)[i] as int) <= 57 by {
            if i >= k {
                assert(zero_padded(n, width)[i] == d[i - k]);
            }
        }
    }
}

/// The lower-case form of an ASCII capital letter; any other character
/// stays as it is.
pub open spec fn lowercase(c: char) -> char {
    if 65 <= c as u32 <= 90 {
        ((c as u32) + 32) as char
    } else {
        c
    }
}

/// Menu keys ignore case: a capital letter does in the main menu what its
/// lower-case letter does.
pub proof fn law_menu_keys_ignore_case(c: char)
    ensures
        menu_step_for(Key::Char(c)) == menu_step_for(Key::Char(lowercase(c))),
{
}

/// The keys of the main menu: exactly `s` starts a mission, exactly `h`
/// shows the help, exactly `q` and Escape quit, in either case; every other
/// key is ignored.
pub proof fn law_menu_keys(k: Key)
    ensures
        menu_step_for(k) == MenuStep::Choose(MenuChoice::Start) <==> (k matches Key::Char(c)
            && lowercase(c) == 's'),
        menu_step_for(k) == MenuStep::Help <==> (k matches Key::Char(c) && lowercase(c) == 'h'),
        menu_step_for(k) == MenuStep::Choose(MenuChoice::Quit) <==> (k == Key::Esc || (
        k matches Key::Char(c) && lowercase(c) == 'q')),
{
}

/// Keys during a match ignore case too: a capital letter asks for what its
/// lower-case letter asks for.
pub proof fn law_match_keys_ignore_case(c: char)
    ensures
        key_action(Key::Char(c)) == key_action(Key::Char(lowercase(c))),
{
}

/// The keys during a match: the arrows move, the space bar fires, `q` in
/// either case and Escape quit, and no other key does anything.
pub proof fn law_match_keys(k: Key)
    ensures
        key_action(k) == Some(PlayerAction::MoveLeft) <==> k == Key::Left,
        key_action(k) == Some(PlayerAction::MoveRight) <==> k == Key::Right,
        key_action(k) == Some(PlayerAction::Shoot) <==> k == Key::Char(' '),
        key_action(k) == Some(PlayerAction::Quit) <==> (k == Key::Esc || (k matches Key::Char(c)
            && lowercase(c) == 'q')),
{
}

/// Centring: a text shorter than the width fills exactly the width, with
/// the text itself starting at half the free space (rounded down) and
/// spaces everywhere else; a longer text is left as it is.
pub proof fn law_centered_text(s: Seq<char>, width: nat)
    ensures
        s.len() < width ==> {
            let left = (width - s.len()) / 2;
            &&& centered(s, width).len() == width
            &&& forall|i: int| 0 <= i < s.len() ==> #[trigger] centered(s, width)[left + i] == s[i]
            &&& forall|i: int|
                0 <= i < width && !(left <= i < left + s.len()) ==> #[trigger] centered(s, width)[i]
                    == ' '
        },
        s.len() >= width ==> centered(s, width) == s,
{
}

/// The progress bar is proportional: of its 60 cells, the filled ones are
/// the share of the wave destroyed so far, rounded down, and never more
/// than all 60.
pub proof fn law_progress_bar_is_proportional(g: GameView)
    ensures
        bar_filled(g) * (rows_for_wave(g.wave) * 10) <= wave_progress(g) * 60 < (bar_filled(g) + 1)
            * (rows_for_wave(g.wave) * 10),
        bar_filled(g) <= 60,
{
    let total: int = rows_for_wave(g.wave) * 10;
    assert(50 <= total <= 80);
    assert(wave_progress(g) <= total);
    let p: int = (wave_progress(g) * 60) as int;
    assert(bar_filled(g) == p / total);
    assert((p / total) * total <= p < (p / total + 1) * total) by (nonlinear_arith)
        requires
            total > 0,
            p >= 0,
    ;
    assert(p / total <= 60) by (nonlinear_arith)
        requires
            total > 0,
            p <= total * 60,
    ;
}

} // verus!
