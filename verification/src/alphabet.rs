//! The alphabetic sequence encoder: bijective base-26 rendering over the 26
//! lowercase Latin letters, spreadsheet-column style ("a".."z", "aa", "ab",
//! ..., "zz", "aaa", ...).

use vstd::prelude::*;

verus! {

/// The letter at a 0-based alphabet position.
pub open spec fn alpha_char(i: int) -> char {
    if i == 0 { 'a' }
    else if i == 1 { 'b' }
    else if i == 2 { 'c' }
    else if i == 3 { 'd' }
    else if i == 4 { 'e' }
    else if i == 5 { 'f' }
    else if i == 6 { 'g' }
    else if i == 7 { 'h' }
    else if i == 8 { 'i' }
    else if i == 9 { 'j' }
    else if i == 10 { 'k' }
    else if i == 11 { 'l' }
    else if i == 12 { 'm' }
    else if i == 13 { 'n' }
    else if i == 14 { 'o' }
    else if i == 15 { 'p' }
    else if i == 16 { 'q' }
    else if i == 17 { 'r' }
    else if i == 18 { 's' }
    else if i == 19 { 't' }
    else if i == 20 { 'u' }
    else if i == 21 { 'v' }
    else if i == 22 { 'w' }
    else if i == 23 { 'x' }
    else if i == 24 { 'y' }
    else { 'z' }
}

/// The bijective base-26 rendering of `v`: the word that stands at position
/// `v` in the infinite column sequence "a", "b", ..., "z", "aa", "ab", ...
pub open spec fn letters_of(v: nat) -> Seq<char>
    decreases v,
{
    if v <= 25 {
        seq![alpha_char(v as int)]
    } else {
        letters_of((v / 26 - 1) as nat).push(alpha_char((v % 26) as int))
    }
}

/// The one-letter string at a 0-based alphabet position.
fn letter_str(d: u8) -> (r: &'static str)
    requires
        d < 26,
    ensures
        r@ == seq![alpha_char(d as int)],
{
    match d {
        0 => {
            proof {
                reveal_strlit("a");
                assert("a"@ =~= seq![alpha_char(0)]);
            }
            "a"
        },
        1 => {
            proof {
                reveal_strlit("b");
                assert("b"@ =~= seq![alpha_char(1)]);
            }
            "b"
        },
        2 => {
            proof {
                reveal_strlit("c");
                assert("c"@ =~= seq![alpha_char(2)]);
            }
            "c"
        },
        3 => {
            proof {
                reveal_strlit("d");
                assert("d"@ =~= seq![alpha_char(3)]);
            }
            "d"
        },
        4 => {
            proof {
                reveal_strlit("e");
                assert("e"@ =~= seq![alpha_char(4)]);
            }
            "e"
        },
        5 => {
            proof {
                reveal_strlit("f");
                assert("f"@ =~= seq![alpha_char(5)]);
            }
            "f"
        },
        6 => {
            proof {
                reveal_strlit("g");
                assert("g"@ =~= seq![alpha_char(6)]);
            }
            "g"
        },
        7 => {
            proof {
                reveal_strlit("h");
                assert("h"@ =~= seq![alpha_char(7)]);
            }
            "h"
        },
        8 => {
            proof {
                reveal_strlit("i");
                assert("i"@ =~= seq![alpha_char(8)]);
            }
            "i"
        },
        9 => {
            proof {
                reveal_strlit("j");
                assert("j"@ =~= seq![alpha_char(9)]);
            }
            "j"
        },
        10 => {
            proof {
                reveal_strlit("k");
                assert("k"@ =~= seq![alpha_char(10)]);
            }
            "k"
        },
        11 => {
            proof {
                reveal_strlit("l");
                assert("l"@ =~= seq![alpha_char(11)]);
            }
            "l"
        },
        12 => {
            proof {
                reveal_strlit("m");
                assert("m"@ =~= seq![alpha_char(12)]);
            }
            "m"
        },
        13 => {
            proof {
                reveal_strlit("n");
                assert("n"@ =~= seq![alpha_char(13)]);
            }
            "n"
        },
        14 => {
            proof {
                reveal_strlit("o");
                assert("o"@ =~= seq![alpha_char(14)]);
            }
            "o"
        },
        15 => {
            proof {
                reveal_strlit("p");
                assert("p"@ =~= seq![alpha_char(15)]);
            }
            "p"
        },
        16 => {
            proof {
                reveal_strlit("q");
                assert("q"@ =~= seq![alpha_char(16)]);
            }
            "q"
        },
        17 => {
            proof {
                reveal_strlit("r");
                assert("r"@ =~= seq![alpha_char(17)]);
            }
            "r"
        },
        18 => {
            proof {
                reveal_strlit("s");
                assert("s"@ =~= seq![alpha_char(18)]);
            }
            "s"
        },
        19 => {
            proof {
                reveal_strlit("t");
                assert("t"@ =~= seq![alpha_char(19)]);
            }
            "t"
        },
        20 => {
            proof {
                reveal_strlit("u");
                assert("u"@ =~= seq![alpha_char(20)]);
            }
            "u"
        },
        21 => {
            proof {
                reveal_strlit("v");
                assert("v"@ =~= seq![alpha_char(21)]);
            }
            "v"
        },
        22 => {
            proof {
                reveal_strlit("w");
                assert("w"@ =~= seq![alpha_char(22)]);
            }
            "w"
        },
        23 => {
            proof {
                reveal_strlit("x");
                assert("x"@ =~= seq![alpha_char(23)]);
            }
            "x"
        },
        24 => {
            proof {
                reveal_strlit("y");
                assert("y"@ =~= seq![alpha_char(24)]);
            }
            "y"
        },
        _ => {
            proof {
                reveal_strlit("z");
                assert("z"@ =~= seq![alpha_char(25)]);
            }
            "z"
        },
    }
}

/// Converts a number to its bijective base-26 word: 0 is "a", 25 is "z",
/// 26 is "aa", and so on, column style.
pub fn to_alphabet(n: u128) -> (r: String)
    ensures
        r@ == letters_of(n as nat),
    decreases n,
{
    if n > 25 {
        let rest = n / 26 - 1;
        let prefix = to_alphabet(rest);
        let r = prefix.concat(letter_str((n % 26) as u8));
        proof {
            assert(r@ =~= letters_of(n as nat));
        }
        r
    } else {
        String::from_str(letter_str(n as u8))
    }
}

} // verus!
