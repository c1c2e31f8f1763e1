//! A deterministic digest over block contents.
//!
//! The digest folds every field of a block (and of each transaction in it)
//! into a 64-bit accumulator with a multiply-and-add step, then renders the
//! accumulator as a fixed-width hexadecimal string. The fold below is the
//! definition of the digest; blocks store the rendered string in their
//! `hash` field and the chain invariants are stated against it.

use vstd::prelude::*;

verus! {

/// One step of the fold: multiply the accumulator by 31, add the next value,
/// and keep the low 64 bits.
pub open spec fn mix(h: u64, v: u64) -> u64 {
    (((h as int) * 31 + (v as int)) % 0x1_0000_0000_0000_0000) as u64
}

/// Executable form of `mix`.
pub fn mix_exec(h: u64, v: u64) -> (r: u64)
    ensures
        r == mix(h, v),
{
    let wide: u128 = (h as u128) * 31 + (v as u128);
    (wide % 0x1_0000_0000_0000_0000u128) as u64
}

/// An order-preserving embedding of signed timestamps into the fold domain.
pub open spec fn encode_i64(x: i64) -> u64 {
    if x >= 0 {
        (2 * (x as int)) as u64
    } else {
        (2 * (-(x as int) - 1) + 1) as u64
    }
}

/// Executable form of `encode_i64`.
pub fn encode_i64_exec(x: i64) -> (r: u64)
    ensures
        r == encode_i64(x),
{
    if x >= 0 {
        (x as u64) * 2
    } else {
        let m: u64 = (-(x + 1)) as u64;
        m * 2 + 1
    }
}

/// Folds a character sequence into the accumulator, front to back.
pub open spec fn fold_chars(h: u64, s: Seq<char>) -> u64
    decreases s.len(),
{
    if s.len() == 0 {
        h
    } else {
        mix(fold_chars(h, s.drop_last()), s.last() as u64)
    }
}

/// Folds the characters of a string slice into the accumulator.
pub fn fold_str(h: u64, s: &str) -> (r: u64)
    ensures
        r == fold_chars(h, s@),
{
    let len = s.unicode_len();
    let mut acc = h;
    let mut i: usize = 0;
    while i < len
        invariant
            len == s@.len(),
            i <= len,
            acc == fold_chars(h, s@.subrange(0, i as int)),
        decreases len - i,
    {
        let c = s.get_char(i);
        acc = mix_exec(acc, c as u64);
        proof {
            let pre = s@.subrange(0, i as int);
            let post = s@.subrange(0, i + 1);
            assert(post.drop_last() =~= pre);
            assert(post.last() == s@[i as int]);
        }
        i += 1;
    }
    proof {
        assert(s@.subrange(0, len as int) =~= s@);
    }
    acc
}

/// Folds a byte sequence into the accumulator, front to back.
pub open spec fn fold_byte_seq(h: u64, s: Seq<u8>) -> u64
    decreases s.len(),
{
    if s.len() == 0 {
        h
    } else {
        mix(fold_byte_seq(h, s.drop_last()), s.last() as u64)
    }
}

/// Folds the bytes of a vector into the accumulator.
pub fn fold_bytes(h: u64, s: &Vec<u8>) -> (r: u64)
    ensures
        r == fold_byte_seq(h, s@),
{
    let mut acc = h;
    let mut i: usize = 0;
    while i < s.len()
        invariant
            i <= s@.len(),
            acc == fold_byte_seq(h, s@.subrange(0, i as int)),
        decreases s@.len() - i,
    {
        acc = mix_exec(acc, s[i] as u64);
        proof {
            let pre = s@.subrange(0, i as int);
            let post = s@.subrange(0, i + 1);
            assert(post.drop_last() =~= pre);
            assert(post.last() == s@[i as int]);
        }
        i += 1;
    }
    proof {
        assert(s@.subrange(0, s@.len() as int) =~= s@);
    }
    acc
}

/// The hexadecimal character for one value below sixteen.
pub open spec fn hex_digit(d: u64) -> char {
    if d == 0 {
        '0'
    } else if d == 1 {
        '1'
    } else if d == 2 {
        '2'
    } else if d == 3 {
        '3'
    } else if d == 4 {
        '4'
    } else if d == 5 {
        '5'
    } else if d == 6 {
        '6'
    } else if d == 7 {
        '7'
    } else if d == 8 {
        '8'
    } else if d == 9 {
        '9'
    } else if d == 10 {
        'a'
    } else if d == 11 {
        'b'
    } else if d == 12 {
        'c'
    } else if d == 13 {
        'd'
    } else if d == 14 {
        'e'
    } else {
        'f'
    }
}

/// The nibble of `h` at position `i`, counting from the most significant.
pub open spec fn nibble(h: u64, i: int) -> u64 {
    (h >> (((15 - i) * 4) as u64)) & 0xf
}

/// The sixteen-character hexadecimal rendering of a 64-bit accumulator.
pub open spec fn hex_chars(h: u64) -> Seq<char> {
    Seq::new(16, |i: int| hex_digit(nibble(h, i)))
}

/// Renders the accumulator as a sixteen-character hexadecimal string.
pub fn to_hex(h: u64) -> (s: String)
    ensures
        s@ == hex_chars(h),
{
    let mut s = String::new();
    let mut i: usize = 0;
    while i < 16
        invariant
            i <= 16,
            s@ =~= hex_chars(h).subrange(0, i as int),
        decreases 16 - i,
    {
        let shift: u64 = (15 - i as u64) * 4;
        let nib: u64 = (h >> shift) & 0xf;
        proof {
            assert((h >> shift) & 0xf <= 15) by (bit_vector);
            assert(nib == nibble(h, i as int));
        }
        if nib == 0 {
            s.append("0");
            proof { reveal_strlit("0"); }
        } else if nib == 1 {
            s.append("1");
            proof { reveal_strlit("1"); }
        } else if nib == 2 {
            s.append("2");
            proof { reveal_strlit("2"); }
        } else if nib == 3 {
            s.append("3");
            proof { reveal_strlit("3"); }
        } else if nib == 4 {
            s.append("4");
            proof { reveal_strlit("4"); }
        } else if nib == 5 {
            s.append("5");
            proof { reveal_strlit("5"); }
        } else if nib == 6 {
            s.append("6");
            proof { reveal_strlit("6"); }
        } else if nib == 7 {
            s.append("7");
            proof { reveal_strlit("7"); }
        } else if nib == 8 {
            s.append("8");
            proof { reveal_strlit("8"); }
        } else if nib == 9 {
            s.append("9");
            proof { reveal_strlit("9"); }
        } else if nib == 10 {
            s.append("a");
            proof { reveal_strlit("a"); }
        } else if nib == 11 {
            s.append("b");
            proof { reveal_strlit("b"); }
        } else if nib == 12 {
            s.append("c");
            proof { reveal_strlit("c"); }
        } else if nib == 13 {
            s.append("d");
            proof { reveal_strlit("d"); }
        } else if nib == 14 {
            s.append("e");
            proof { reveal_strlit("e"); }
        } else {
            s.append("f");
            proof { reveal_strlit("f"); }
        }
        proof {
            assert(s@ =~= hex_chars(h).subrange(0, i + 1));
        }
        i += 1;
    }
    proof {
        assert(hex_chars(h).subrange(0, 16) =~= hex_chars(h));
    }
    s
}

} // verus!
