//! Rendering of non-negative integers as decimal text, used by the creature
//! cards and the save-file format.

use vstd::prelude::*;
use vstd::string::StringExecFns;

verus! {

/// The character that writes a single decimal digit.
pub open spec fn chiffre_car(d: int) -> char
    recommends
        0 <= d < 10,
{
    if d == 0 {
        '0'
    } else if d == 1 {
        '1'
    } else if d == 2 {
        '2'
    } else if d == 3 {
        '3'
    } else if d == 4 {
        '4'
    } else if d == 5 {
        '5'
    } else if d == 6 {
        '6'
    } else if d == 7 {
        '7'
    } else if d == 8 {
        '8'
    } else {
        '9'
    }
}

/// The usual decimal writing of `n`: no sign, no leading zero except for the
/// number zero itself.
pub open spec fn texte_decimal(n: nat) -> Seq<char>
    decreases n,
{
    if n < 10 {
        seq![chiffre_car(n as int)]
    } else {
        texte_decimal(n / 10).push(chiffre_car((n % 10) as int))
    }
}

/// One decimal digit as text.
fn chiffre_texte(d: u64) -> (r: &'static str)
    requires
        d < 10,
    ensures
        r@ == seq![chiffre_car(d as int)],
{
    let r: &'static str = match d {
        0 => "0",
        1 => "1",
        2 => "2",
        3 => "3",
        4 => "4",
        5 => "5",
        6 => "6",
        7 => "7",
        8 => "8",
        _ => "9",
    };
    proof {
        reveal_strlit("0");
        reveal_strlit("1");
        reveal_strlit("2");
        reveal_strlit("3");
        reveal_strlit("4");
        reveal_strlit("5");
        reveal_strlit("6");
        reveal_strlit("7");
        reveal_strlit("8");
        reveal_strlit("9");
        assert(r@ =~= seq![chiffre_car(d as int)]);
    }
    r
}

/// Writes `n` in decimal.
pub fn texte_nombre(n: u64) -> (r: String)
    ensures
        r@ == texte_decimal(n as nat),
    decreases n,
{
    if n < 10 {
        chiffre_texte(n).to_owned()
    } else {
        proof {
            vstd::arithmetic::div_mod::lemma_div_decreases(n as int, 10);
            vstd::arithmetic::div_mod::lemma_div_pos_is_pos(n as int, 10);
        }
        let mut r = texte_nombre(n / 10);
        r.append(chiffre_texte(n % 10));
        proof {
            assert(r@ =~= texte_decimal(n as nat));
        }
        r
    }
}

} // verus!
