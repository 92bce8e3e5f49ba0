//! The digest function: a deterministic, pure mapping from a record's linkage
//! fields (previous digest, timestamp, payload) to a hexadecimal identifier
//! string, built on the standard library's generic hasher.

use std::collections::hash_map::DefaultHasher;
use vstd::prelude::*;
use vstd::std_specs::hash::DefaultHasherAdditionalSpecFns;
use vstd::string::StringExecFns;
use vstd::utf8::encode_utf8;

verus! {

/// The lower-case hexadecimal digit character for a value below sixteen.
pub open spec fn spec_hex_digit(d: u64) -> char {
    if d == 0 {
        '0'
    } else if d == 1 {
        '1'
    } else if d == 2 {
        '2'
    } else if d == 3 {
        '3'
    } else if d == 4 {
        '4'
    } else if d == 5 {
        '5'
    } else if d == 6 {
        '6'
    } else if d == 7 {
        '7'
    } else if d == 8 {
        '8'
    } else if d == 9 {
        '9'
    } else if d == 10 {
        'a'
    } else if d == 11 {
        'b'
    } else if d == 12 {
        'c'
    } else if d == 13 {
        'd'
    } else if d == 14 {
        'e'
    } else {
        'f'
    }
}

/// The lower-case hexadecimal digits of `x`, most significant first, without
/// leading zeroes (zero itself is the single digit `0`).
pub open spec fn spec_hex(x: u64) -> Seq<char>
    decreases x,
{
    if x < 16 {
        seq![spec_hex_digit(x)]
    } else {
        spec_hex(x / 16).push(spec_hex_digit(x % 16))
    }
}

/// The hexadecimal digit for `d` as a one-character string slice.
fn hex_digit_str(d: u64) -> (r: &'static str)
    requires
        d < 16,
    ensures
        r@ == seq![spec_hex_digit(d)],
{
    if d == 0 {
        proof {
            reveal_strlit("0");
            assert("0"@ =~= seq![spec_hex_digit(d)]);
        }
        "0"
    } else if d == 1 {
        proof {
            reveal_strlit("1");
            assert("1"@ =~= seq![spec_hex_digit(d)]);
        }
        "1"
    } else if d == 2 {
        proof {
            reveal_strlit("2");
            assert("2"@ =~= seq![spec_hex_digit(d)]);
        }
        "2"
    } else if d == 3 {
        proof {
            reveal_strlit("3");
            assert("3"@ =~= seq![spec_hex_digit(d)]);
        }
        "3"
    } else if d == 4 {
        proof {
            reveal_strlit("4");
            assert("4"@ =~= seq![spec_hex_digit(d)]);
        }
        "4"
    } else if d == 5 {
        proof {
            reveal_strlit("5");
            assert("5"@ =~= seq![spec_hex_digit(d)]);
        }
        "5"
    } else if d == 6 {
        proof {
            reveal_strlit("6");
            assert("6"@ =~= seq![spec_hex_digit(d)]);
        }
        "6"
    } else if d == 7 {
        proof {
            reveal_strlit("7");
            assert("7"@ =~= seq![spec_hex_digit(d)]);
        }
        "7"
    } else if d == 8 {
        proof {
            reveal_strlit("8");
            assert("8"@ =~= seq![spec_hex_digit(d)]);
        }
        "8"
    } else if d == 9 {
        proof {
            reveal_strlit("9");
            assert("9"@ =~= seq![spec_hex_digit(d)]);
        }
        "9"
    } else if d == 10 {
        proof {
            reveal_strlit("a");
            assert("a"@ =~= seq![spec_hex_digit(d)]);
        }
        "a"
    } else if d == 11 {
        proof {
            reveal_strlit("b");
            assert("b"@ =~= seq![spec_hex_digit(d)]);
        }
        "b"
    } else if d == 12 {
        proof {
            reveal_strlit("c");
            assert("c"@ =~= seq![spec_hex_digit(d)]);
        }
        "c"
    } else if d == 13 {
        proof {
            reveal_strlit("d");
            assert("d"@ =~= seq![spec_hex_digit(d)]);
        }
        "d"
    } else if d == 14 {
        proof {
            reveal_strlit("e");
            assert("e"@ =~= seq![spec_hex_digit(d)]);
        }
        "e"
    } else {
        proof {
            reveal_strlit("f");
            assert("f"@ =~= seq![spec_hex_digit(d)]);
        }
        "f"
    }
}

/// The eight bytes of `x`, least significant first.
pub open spec fn u64_le_bytes(x: u64) -> Seq<u8> {
    seq![
        (x & 0xff) as u8,
        ((x >> 8) & 0xff) as u8,
        ((x >> 16) & 0xff) as u8,
        ((x >> 24) & 0xff) as u8,
        ((x >> 32) & 0xff) as u8,
        ((x >> 40) & 0xff) as u8,
        ((x >> 48) & 0xff) as u8,
        ((x >> 56) & 0xff) as u8,
    ]
}

/// Splits `x` into its eight bytes, least significant first.
pub fn u64_to_le_bytes(x: u64) -> (r: Vec<u8>)
    ensures
        r@ == u64_le_bytes(x),
{
    proof {
        assert((x & 0xff) < 256 && ((x >> 8) & 0xff) < 256 && ((x >> 16) & 0xff) < 256 && ((x
            >> 24) & 0xff) < 256 && ((x >> 32) & 0xff) < 256 && ((x >> 40) & 0xff) < 256 && ((x
            >> 48) & 0xff) < 256 && ((x >> 56) & 0xff) < 256) by (bit_vector);
    }
    let mut r: Vec<u8> = Vec::new();
    r.push((x & 0xff) as u8);
    r.push(((x >> 8) & 0xff) as u8);
    r.push(((x >> 16) & 0xff) as u8);
    r.push(((x >> 24) & 0xff) as u8);
    r.push(((x >> 32) & 0xff) as u8);
    r.push(((x >> 40) & 0xff) as u8);
    r.push(((x >> 48) & 0xff) as u8);
    r.push(((x >> 56) & 0xff) as u8);
    proof {
        assert(r@ =~= u64_le_bytes(x));
    }
    r
}

/// The digest of a record's linkage fields: the standard hasher is fed the
/// UTF-8 bytes of the previous digest, the bytes of the timestamp and the
/// UTF-8 bytes of the payload, and its value is written in hexadecimal.
pub open spec fn spec_digest(previous_hash: Seq<char>, timestamp: u64, data: Seq<char>) -> Seq<
    char,
> {
    spec_hex(
        DefaultHasher::spec_finish(
            seq![encode_utf8(previous_hash), u64_le_bytes(timestamp), encode_utf8(data)],
        ),
    )
}

/// Determinism of the digest: identical inputs always yield the identical
/// digest, since the digest is a pure function of its three inputs.
pub proof fn lemma_digest_deterministic(
    previous_hash1: Seq<char>,
    timestamp1: u64,
    data1: Seq<char>,
    previous_hash2: Seq<char>,
    timestamp2: u64,
    data2: Seq<char>,
)
    requires
        previous_hash1 == previous_hash2,
        timestamp1 == timestamp2,
        data1 == data2,
    ensures
        spec_digest(previous_hash1, timestamp1, data1) == spec_digest(
            previous_hash2,
            timestamp2,
            data2,
        ),
{
}

/// Formats `x` in lower-case hexadecimal without leading zeroes.
pub fn u64_to_hex(x: u64) -> (r: String)
    ensures
        r@ == spec_hex(x),
    decreases x,
{
    if x < 16 {
        let mut s = String::new();
        s.append(hex_digit_str(x));
        proof {
            assert(s@ =~= spec_hex(x));
        }
        s
    } else {
        proof {
            assert(x / 16 < x) by (nonlinear_arith)
                requires
                    x >= 16,
            ;
        }
        let mut s = u64_to_hex(x / 16);
        s.append(hex_digit_str(x % 16));
        proof {
            assert(s@ =~= spec_hex(x));
        }
        s
    }
}

} // verus!
