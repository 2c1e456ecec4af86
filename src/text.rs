//! Decimal rendering of integers and joining of path components.
use vstd::prelude::*;

verus! {

/// The character of a decimal digit.
pub open spec fn digit_char(d: int) -> char {
    if d == 0 {
        '0'
    } else if d == 1 {
        '1'
    } else if d == 2 {
        '2'
    } else if d == 3 {
        '3'
    } else if d == 4 {
        '4'
    } else if d == 5 {
        '5'
    } else if d == 6 {
        '6'
    } else if d == 7 {
        '7'
    } else if d == 8 {
        '8'
    } else {
        '9'
    }
}

/// The shortest decimal text of `n`.
pub open spec fn decimal(n: nat) -> Seq<char>
    decreases n,
{
    if n < 10 {
        seq![digit_char(n as int)]
    } else {
        decimal(n / 10).push(digit_char((n % 10) as int))
    }
}

/// Decimal text of a signed integer, with a leading `-` when negative.
pub open spec fn signed_decimal(n: int) -> Seq<char> {
    if n < 0 {
        seq!['-'] + decimal((-n) as nat)
    } else {
        decimal(n as nat)
    }
}

/// `s` preceded by as many `0` as make it `width` characters long.
pub open spec fn zero_padded(s: Seq<char>, width: nat) -> Seq<char> {
    if s.len() >= width {
        s
    } else {
        Seq::new((width - s.len()) as nat, |i: int| '0') + s
    }
}

/// Milliseconds as seconds with three decimals: 1500 gives `1.500`.
pub open spec fn seconds_text(ms: nat) -> Seq<char> {
    decimal(ms / 1000) + seq!['.'] + zero_padded(decimal(ms % 1000), 3)
}

/// `name` placed under the directory `root`.
pub open spec fn joined(root: Seq<char>, name: Seq<char>) -> Seq<char> {
    if root.len() == 0 || root.last() == '/' {
        root + name
    } else {
        root + seq!['/'] + name
    }
}

fn digit_str(d: usize) -> (r: &'static str)
    requires
        d < 10,
    ensures
        r@ == seq![digit_char(d as int)],
{
    proof {
        reveal_strlit("0");
        reveal_strlit("1");
        reveal_strlit("2");
        reveal_strlit("3");
        reveal_strlit("4");
        reveal_strlit("5");
        reveal_strlit("6");
        reveal_strlit("7");
        reveal_strlit("8");
        reveal_strlit("9");
    }
    if d == 0 {
        "0"
    } else if d == 1 {
        "1"
    } else if d == 2 {
        "2"
    } else if d == 3 {
        "3"
    } else if d == 4 {
        "4"
    } else if d == 5 {
        "5"
    } else if d == 6 {
        "6"
    } else if d == 7 {
        "7"
    } else if d == 8 {
        "8"
    } else {
        "9"
    }
}

/// Appends the decimal text of `n` to `out`.
pub fn push_decimal(out: &mut String, n: usize)
    ensures
        final(out)@ == old(out)@ + decimal(n as nat),
    decreases n,
{
    if n < 10 {
        out.append(digit_str(n));
    } else {
        push_decimal(out, n / 10);
        out.append(digit_str(n % 10));
    }
}

/// The decimal text of `n`.
pub fn decimal_string(n: usize) -> (r: String)
    ensures
        r@ == decimal(n as nat),
{
    let mut out = String::new();
    push_decimal(&mut out, n);
    out
}

/// The decimal text of a signed integer.
pub fn signed_decimal_string(n: i32) -> (r: String)
    ensures
        r@ == signed_decimal(n as int),
{
    let mut out = String::new();
    if n < 0 {
        out.append("-");
        let m: i64 = -(n as i64);
        push_decimal(&mut out, m as usize);
        proof {
            reveal_strlit("-");
        }
    } else {
        push_decimal(&mut out, n as usize);
    }
    out
}

/// Appends the decimal text of `n`, padded with `0` to `width` characters.
pub fn push_padded(out: &mut String, n: usize, width: usize)
    ensures
        final(out)@ == old(out)@ + zero_padded(decimal(n as nat), width as nat),
{
    let digits = decimal_string(n);
    let len = digits.unicode_len();
    if len < width {
        let mut k: usize = 0;
        while k < width - len
            invariant
                k <= width - len,
                out@ == old(out)@ + Seq::new(k as nat, |i: int| '0'),
            decreases width - len - k,
        {
            out.append("0");
            proof {
                reveal_strlit("0");
                assert(out@ =~= old(out)@ + Seq::new((k + 1) as nat, |i: int| '0'));
            }
            k = k + 1;
        }
    }
    out.append(digits.as_str());
    proof {
        let pad = Seq::new((width - len) as nat, |i: int| '0');
        if len < width {
            assert(out@ =~= old(out)@ + (pad + decimal(n as nat)));
        }
    }
}

/// Milliseconds rendered as seconds with three decimals.
pub fn seconds_string(ms: usize) -> (r: String)
    ensures
        r@ == seconds_text(ms as nat),
{
    let mut out = decimal_string(ms / 1000);
    out.append(".");
    push_padded(&mut out, ms % 1000, 3);
    proof {
        reveal_strlit(".");
        assert(out@ =~= seconds_text(ms as nat));
    }
    out
}

/// The path of `name` under the directory `root`.
pub fn join_path(root: &str, name: &str) -> (r: String)
    ensures
        r@ == joined(root@, name@),
{
    let n = root.unicode_len();
    let mut out = String::from_str(root);
    if n > 0 && root.get_char(n - 1) != '/' {
        out.append("/");
        proof {
            reveal_strlit("/");
        }
    }
    out.append(name);
    proof {
        assert(out@ =~= joined(root@, name@));
    }
    out
}

} // verus!
