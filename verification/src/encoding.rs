//! The canonical encoding hashed for block linkage, merkle aggregation and
//! proof-of-work. Correctness of linkage and sealing depends on this encoding
//! being deterministic and unambiguous, so it is fixed here: every integer is
//! rendered as a fixed-width, big-endian hexadecimal string, and every string
//! field is preceded by its character count, so that no two distinct field
//! tuples share an encoding.

use vstd::prelude::*;

verus! {

/// The lowercase hexadecimal character for one digit value.
pub open spec fn hex_digit(v: nat) -> char {
    if v == 0 {
        '0'
    } else if v == 1 {
        '1'
    } else if v == 2 {
        '2'
    } else if v == 3 {
        '3'
    } else if v == 4 {
        '4'
    } else if v == 5 {
        '5'
    } else if v == 6 {
        '6'
    } else if v == 7 {
        '7'
    } else if v == 8 {
        '8'
    } else if v == 9 {
        '9'
    } else if v == 10 {
        'a'
    } else if v == 11 {
        'b'
    } else if v == 12 {
        'c'
    } else if v == 13 {
        'd'
    } else if v == 14 {
        'e'
    } else {
        'f'
    }
}

/// The i-th hexadecimal digit value of a `u64`, most significant first.
pub open spec fn nibble64(n: u64, i: int) -> nat {
    ((n >> (((15 - i) * 4) as u64)) & 0xf) as nat
}

/// A `u64` rendered as exactly 16 hexadecimal characters, big-endian.
pub open spec fn u64_hex(n: u64) -> Seq<char> {
    Seq::new(16, |i: int| hex_digit(nibble64(n, i)))
}

/// The i-th hexadecimal digit value of a `u32`, most significant first.
pub open spec fn nibble32(n: u32, i: int) -> nat {
    ((n >> (((7 - i) * 4) as u32)) & 0xf) as nat
}

/// A `u32` rendered as exactly 8 hexadecimal characters, big-endian.
pub open spec fn u32_hex(n: u32) -> Seq<char> {
    Seq::new(8, |i: int| hex_digit(nibble32(n, i)))
}

/// A string field rendered unambiguously: its character count as 16
/// hexadecimal digits, then the characters themselves.
pub open spec fn str_block(s: Seq<char>) -> Seq<char> {
    u64_hex(s.len() as u64) + s
}

proof fn lemma_low_nibble_bounded(x: u64)
    ensures
        x & 0xf < 16,
{
    assert(x & 0xf < 16) by (bit_vector);
}

proof fn lemma_low_nibble_bounded32(x: u32)
    ensures
        x & 0xf < 16,
{
    assert(x & 0xf < 16) by (bit_vector);
}

/// The one-character string holding the hexadecimal digit for `v`.
fn hex_digit_str(v: u64) -> (r: &'static str)
    requires
        v < 16,
    ensures
        r@ == seq![hex_digit(v as nat)],
{
    proof {
        reveal_strlit("0");
        reveal_strlit("1");
        reveal_strlit("2");
        reveal_strlit("3");
        reveal_strlit("4");
        reveal_strlit("5");
        reveal_strlit("6");
        reveal_strlit("7");
        reveal_strlit("8");
        reveal_strlit("9");
        reveal_strlit("a");
        reveal_strlit("b");
        reveal_strlit("c");
        reveal_strlit("d");
        reveal_strlit("e");
        reveal_strlit("f");
    }
    let r: &'static str = match v {
        0 => "0",
        1 => "1",
        2 => "2",
        3 => "3",
        4 => "4",
        5 => "5",
        6 => "6",
        7 => "7",
        8 => "8",
        9 => "9",
        10 => "a",
        11 => "b",
        12 => "c",
        13 => "d",
        14 => "e",
        _ => "f",
    };
    proof {
        assert(r@ =~= seq![hex_digit(v as nat)]);
    }
    r
}

/// Renders `n` as its 16-character hexadecimal form.
pub fn u64_hex_string(n: u64) -> (r: String)
    ensures
        r@ == u64_hex(n),
{
    let mut r = String::new();
    let mut i: usize = 0;
    while i < 16
        invariant
            i <= 16,
            r@ == u64_hex(n).subrange(0, i as int),
        decreases 16 - i,
    {
        let shift: u64 = ((15 - i) * 4) as u64;
        let nib: u64 = (n >> shift) & 0xf;
        proof {
            lemma_low_nibble_bounded(n >> shift);
        }
        let d = hex_digit_str(nib);
        r.append(d);
        proof {
            assert(nib as nat == nibble64(n, i as int));
            assert(r@ =~= u64_hex(n).subrange(0, i + 1));
        }
        i = i + 1;
    }
    proof {
        assert(u64_hex(n).subrange(0, 16) =~= u64_hex(n));
    }
    r
}

/// Renders `n` as its 8-character hexadecimal form.
pub fn u32_hex_string(n: u32) -> (r: String)
    ensures
        r@ == u32_hex(n),
{
    let mut r = String::new();
    let mut i: usize = 0;
    while i < 8
        invariant
            i <= 8,
            r@ == u32_hex(n).subrange(0, i as int),
        decreases 8 - i,
    {
        let shift: u32 = ((7 - i) * 4) as u32;
        let nib: u32 = (n >> shift) & 0xf;
        proof {
            lemma_low_nibble_bounded32(n >> shift);
        }
        let d = hex_digit_str(nib as u64);
        r.append(d);
        proof {
            assert(nib as nat == nibble32(n, i as int));
            assert(r@ =~= u32_hex(n).subrange(0, i + 1));
        }
        i = i + 1;
    }
    proof {
        assert(u32_hex(n).subrange(0, 8) =~= u32_hex(n));
    }
    r
}

/// Appends the length-prefixed rendering of the string field `s` to `out`.
pub fn append_str_block(out: &mut String, s: &str)
    ensures
        final(out)@ == old(out)@ + str_block(s@),
{
    let len = s.unicode_len();
    let prefix = u64_hex_string(len as u64);
    out.append(prefix.as_str());
    out.append(s);
    proof {
        assert(out@ =~= old(out)@ + str_block(s@));
    }
}

} // verus!
