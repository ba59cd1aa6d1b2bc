//! Decimal rendering of unsigned integers as ASCII bytes, with optional
//! zero padding to a minimum width.

use vstd::prelude::*;

verus! {

/// The ASCII decimal digits of `n`, most significant first.
pub open spec fn dec_spec(n: nat) -> Seq<u8>
    decreases n,
{
    if n < 10 {
        seq![(48 + n) as u8]
    } else {
        dec_spec(n / 10).push((48 + (n % 10)) as u8)
    }
}

/// `w` ASCII zero digits.
pub open spec fn zeros_spec(w: nat) -> Seq<u8> {
    Seq::new(w, |i: int| 48u8)
}

/// The decimal digits of `n`, left-filled with zeros to at least `w` bytes.
pub open spec fn pad_spec(n: nat, w: nat) -> Seq<u8> {
    if dec_spec(n).len() >= w {
        dec_spec(n)
    } else {
        zeros_spec((w - dec_spec(n).len()) as nat) + dec_spec(n)
    }
}

/// Every byte of a decimal rendering is an ASCII digit.
pub proof fn lemma_dec_digits_range(n: nat)
    ensures
        forall|i: int| 0 <= i < dec_spec(n).len() ==> 48 <= #[trigger] dec_spec(n)[i] <= 57,
    decreases n,
{
    if n >= 10 {
        lemma_dec_digits_range(n / 10);
        assert forall|i: int| 0 <= i < dec_spec(n).len() implies 48 <= #[trigger] dec_spec(n)[i]
            <= 57 by {
            if i < dec_spec(n / 10).len() {
                assert(dec_spec(n)[i] == dec_spec(n / 10)[i]);
            }
        }
    }
}

/// Every byte of a padded rendering is an ASCII digit.
pub proof fn lemma_pad_digits_range(n: nat, w: nat)
    ensures
        forall|i: int| 0 <= i < pad_spec(n, w).len() ==> 48 <= #[trigger] pad_spec(n, w)[i]
            <= 57,
{
    lemma_dec_digits_range(n);
    if dec_spec(n).len() < w {
        let z = zeros_spec((w - dec_spec(n).len()) as nat);
        assert forall|i: int| 0 <= i < pad_spec(n, w).len() implies 48 <= #[trigger] pad_spec(
            n,
            w,
        )[i] <= 57 by {
            if i < z.len() {
                assert(pad_spec(n, w)[i] == z[i]);
            } else {
                assert(pad_spec(n, w)[i] == dec_spec(n)[i - z.len()]);
            }
        }
    }
}

/// The decimal digits of `n`, most significant first.
pub fn u64_dec(n: u64) -> (r: Vec<u8>)
    ensures
        r@ == dec_spec(n as nat),
    decreases n,
{
    if n < 10 {
        let mut v: Vec<u8> = Vec::new();
        v.push(48 + (n as u8));
        proof {
            assert(v@ =~= dec_spec(n as nat));
        }
        v
    } else {
        let mut v = u64_dec(n / 10);
        v.push(48 + ((n % 10) as u8));
        proof {
            assert(v@ =~= dec_spec(n as nat));
        }
        v
    }
}

/// The decimal digits of `n`, left-filled with ASCII zeros to at least `w`
/// bytes.
pub fn u64_pad(n: u64, w: usize) -> (r: Vec<u8>)
    ensures
        r@ == pad_spec(n as nat, w as nat),
{
    let mut digits = u64_dec(n);
    if digits.len() >= w {
        return digits;
    }
    let fill = w - digits.len();
    let mut v: Vec<u8> = Vec::new();
    let mut i: usize = 0;
    while i < fill
        invariant
            0 <= i <= fill,
            v@ =~= zeros_spec(i as nat),
        decreases fill - i,
    {
        v.push(48);
        proof {
            assert(v@ =~= zeros_spec((i + 1) as nat));
        }
        i += 1;
    }
    v.append(&mut digits);
    proof {
        assert(v@ =~= pad_spec(n as nat, w as nat));
    }
    v
}

/// The decimal digit `d` as a character.
pub open spec fn digit_char_spec(d: nat) -> char {
    if d == 0 {
        '0'
    } else if d == 1 {
        '1'
    } else if d == 2 {
        '2'
    } else if d == 3 {
        '3'
    } else if d == 4 {
        '4'
    } else if d == 5 {
        '5'
    } else if d == 6 {
        '6'
    } else if d == 7 {
        '7'
    } else if d == 8 {
        '8'
    } else {
        '9'
    }
}

/// The decimal digit characters of `n`, most significant first.
pub open spec fn dec_chars_spec(n: nat) -> Seq<char>
    decreases n,
{
    if n < 10 {
        seq![digit_char_spec(n)]
    } else {
        dec_chars_spec(n / 10).push(digit_char_spec(n % 10))
    }
}

/// One decimal digit as text.
fn digit_str(d: u64) -> (r: &'static str)
    requires
        d < 10,
    ensures
        r@ == seq![digit_char_spec(d as nat)],
{
    proof {
        reveal_strlit("0");
        reveal_strlit("1");
        reveal_strlit("2");
        reveal_strlit("3");
        reveal_strlit("4");
        reveal_strlit("5");
        reveal_strlit("6");
        reveal_strlit("7");
        reveal_strlit("8");
        reveal_strlit("9");
    }
    let r = if d == 0 {
        "0"
    } else if d == 1 {
        "1"
    } else if d == 2 {
        "2"
    } else if d == 3 {
        "3"
    } else if d == 4 {
        "4"
    } else if d == 5 {
        "5"
    } else if d == 6 {
        "6"
    } else if d == 7 {
        "7"
    } else if d == 8 {
        "8"
    } else {
        "9"
    };
    proof {
        assert(r@ =~= seq![digit_char_spec(d as nat)]);
    }
    r
}

/// The decimal digits of `n` as text.
pub fn u64_dec_str(n: u64) -> (r: String)
    ensures
        r@ == dec_chars_spec(n as nat),
    decreases n,
{
    if n < 10 {
        digit_str(n).to_owned()
    } else {
        let mut s = u64_dec_str(n / 10);
        s.append(digit_str(n % 10));
        proof {
            assert(s@ =~= dec_chars_spec(n as nat));
        }
        s
    }
}

} // verus!
