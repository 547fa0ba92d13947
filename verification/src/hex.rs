use vstd::prelude::*;
use vstd::string::StringExecFns;

verus! {

/// True for the sixteen characters of a lowercase hexadecimal rendering.
pub open spec fn is_hex_digit_char(c: char) -> bool {
    ('0' <= c && c <= '9') || ('a' <= c && c <= 'f')
}

/// The lowercase hex digit character for a value below sixteen.
pub open spec fn hex_char(d: nat) -> char {
    if d == 0 {
        '0'
    } else if d == 1 {
        '1'
    } else if d == 2 {
        '2'
    } else if d == 3 {
        '3'
    } else if d == 4 {
        '4'
    } else if d == 5 {
        '5'
    } else if d == 6 {
        '6'
    } else if d == 7 {
        '7'
    } else if d == 8 {
        '8'
    } else if d == 9 {
        '9'
    } else if d == 10 {
        'a'
    } else if d == 11 {
        'b'
    } else if d == 12 {
        'c'
    } else if d == 13 {
        'd'
    } else if d == 14 {
        'e'
    } else {
        'f'
    }
}

/// Fixed-width lowercase hex rendering of `v`: exactly `width` digits, most
/// significant first.  Digits above the given width are dropped.
pub open spec fn hex_seq(v: nat, width: nat) -> Seq<char>
    decreases width,
{
    if width == 0 {
        Seq::empty()
    } else {
        hex_seq(v / 16, (width - 1) as nat).push(hex_char(v % 16))
    }
}

/// Sixteen to the given power: the count of values a rendering of that
/// width can tell apart.
pub open spec fn pow16(width: nat) -> nat
    decreases width,
{
    if width == 0 {
        1
    } else {
        16 * pow16((width - 1) as nat)
    }
}

pub proof fn lemma_hex_seq_len(v: nat, width: nat)
    ensures
        hex_seq(v, width).len() == width,
    decreases width,
{
    if width > 0 {
        lemma_hex_seq_len(v / 16, (width - 1) as nat);
    }
}

pub proof fn lemma_hex_seq_digits(v: nat, width: nat)
    ensures
        forall|i: int|
            0 <= i < hex_seq(v, width).len() ==> is_hex_digit_char(#[trigger] hex_seq(v, width)[i]),
    decreases width,
{
    if width > 0 {
        lemma_hex_seq_digits(v / 16, (width - 1) as nat);
        lemma_hex_seq_len(v / 16, (width - 1) as nat);
    }
}

proof fn lemma_hex_char_injective(a: nat, b: nat)
    requires
        a < 16,
        b < 16,
        hex_char(a) == hex_char(b),
    ensures
        a == b,
{
}

/// Two values below `pow16(width)` with the same rendering are the same
/// value: a rendering of that width loses nothing.
pub proof fn lemma_hex_seq_injective(a: nat, b: nat, width: nat)
    requires
        a < pow16(width),
        b < pow16(width),
        hex_seq(a, width) == hex_seq(b, width),
    ensures
        a == b,
    decreases width,
{
    if width == 0 {
        assert(a == 0 && b == 0);
    } else {
        let w1 = (width - 1) as nat;
        let s1 = hex_seq(a / 16, w1);
        let s2 = hex_seq(b / 16, w1);
        lemma_hex_seq_len(a / 16, w1);
        lemma_hex_seq_len(b / 16, w1);
        assert(s1.push(hex_char(a % 16))[w1 as int] == hex_char(a % 16));
        assert(s2.push(hex_char(b % 16))[w1 as int] == hex_char(b % 16));
        lemma_hex_char_injective(a % 16, b % 16);
        assert forall|i: int| 0 <= i < w1 implies s1[i] == s2[i] by {
            assert(s1.push(hex_char(a % 16))[i] == s1[i]);
            assert(s2.push(hex_char(b % 16))[i] == s2[i]);
        }
        assert(s1 =~= s2);
        assert(a < 16 * pow16(w1));
        assert(b < 16 * pow16(w1));
        vstd::arithmetic::div_mod::lemma_fundamental_div_mod(a as int, 16);
        vstd::arithmetic::div_mod::lemma_fundamental_div_mod(b as int, 16);
        assert(a / 16 < pow16(w1));
        assert(b / 16 < pow16(w1));
        lemma_hex_seq_injective(a / 16, b / 16, w1);
    }
}

/// Appends the lowercase hex digit for `d` to `s`.
fn push_hex_digit(s: &mut String, d: u64)
    requires
        d < 16,
    ensures
        final(s)@ == old(s)@ + seq![hex_char(d as nat)],
{
    let t: &str = if d == 0 {
        "0"
    } else if d == 1 {
        "1"
    } else if d == 2 {
        "2"
    } else if d == 3 {
        "3"
    } else if d == 4 {
        "4"
    } else if d == 5 {
        "5"
    } else if d == 6 {
        "6"
    } else if d == 7 {
        "7"
    } else if d == 8 {
        "8"
    } else if d == 9 {
        "9"
    } else if d == 10 {
        "a"
    } else if d == 11 {
        "b"
    } else if d == 12 {
        "c"
    } else if d == 13 {
        "d"
    } else if d == 14 {
        "e"
    } else {
        "f"
    };
    proof {
        reveal_strlit("0");
        reveal_strlit("1");
        reveal_strlit("2");
        reveal_strlit("3");
        reveal_strlit("4");
        reveal_strlit("5");
        reveal_strlit("6");
        reveal_strlit("7");
        reveal_strlit("8");
        reveal_strlit("9");
        reveal_strlit("a");
        reveal_strlit("b");
        reveal_strlit("c");
        reveal_strlit("d");
        reveal_strlit("e");
        reveal_strlit("f");
        assert(t@ =~= seq![hex_char(d as nat)]);
    }
    s.append(t);
}

/// Appends the fixed-width lowercase hex rendering of `v` to `s`.
pub fn append_hex(s: &mut String, v: u64, width: u64)
    ensures
        final(s)@ == old(s)@ + hex_seq(v as nat, width as nat),
    decreases width,
{
    if width == 0 {
        proof {
            assert(old(s)@ + hex_seq(v as nat, 0) =~= old(s)@);
        }
    } else {
        append_hex(s, v / 16, width - 1);
        push_hex_digit(s, v % 16);
        proof {
            assert((old(s)@ + hex_seq((v / 16) as nat, (width - 1) as nat)) + seq![
                hex_char((v % 16) as nat),
            ] =~= old(s)@ + hex_seq(v as nat, width as nat));
        }
    }
}

} // verus!
