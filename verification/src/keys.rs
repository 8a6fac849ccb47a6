//! Storage-key codec: the mapping between dataset versions, collection ids and
//! the sort keys under which entities and tombstones are stored.
//!
//! A dataset version is a 64-bit counter whose high 32 bits are the collection
//! id and whose low 32 bits count ordinary mutations within that collection.
//! Every key of a collection starts with the collection id written as a
//! fixed-width decimal number followed by `#`, so keys of one collection share
//! a prefix and sort together. After the prefix comes a kind tag and the
//! entity's local id; the kind tags and id widths are chosen so that the kind
//! of a row can be recovered from the length of its key alone.

use vstd::prelude::*;

verus! {

/// Width of the decimal collection id inside a key prefix.
pub const COLLECTION_LEN: usize = 9;

/// Largest collection id that still fits the fixed-width decimal prefix.
pub const MAX_COLLECTION: u32 = 999_999_999;

/// Number of characters in a date id (`YYYY-MM-DD`).
pub const DATE_LEN: usize = 10;

/// Number of characters in a UUID id.
pub const UUID_LEN: usize = 36;

/// Length of a full collection prefix: the decimal id plus the separator.
pub const PREFIX_LEN: usize = 10;

/// Length of a measurement-set key: prefix, `MEASUREMENT#`, date.
pub const MEASUREMENT_KEY_LEN: usize = 32;

/// Length of a workout key: prefix, `WORKOUT#`, UUID.
pub const WORKOUT_KEY_LEN: usize = 54;

/// Length of an exercise key: prefix, `WORKOUT#`, two UUIDs joined by `#`.
pub const EXERCISE_KEY_LEN: usize = 91;

/// Offset of the local id within a measurement-set key.
pub const MEASUREMENT_ID_START: usize = 22;

/// Offset of the local id within a workout or exercise key.
pub const WORKOUT_ID_START: usize = 18;

pub open spec fn pow10(k: nat) -> nat
    decreases k,
{
    if k == 0 {
        1
    } else {
        10 * pow10((k - 1) as nat)
    }
}

/// The decimal digit character for a value below ten.
pub open spec fn digit_char(d: nat) -> char {
    if d == 0 {
        '0'
    } else if d == 1 {
        '1'
    } else if d == 2 {
        '2'
    } else if d == 3 {
        '3'
    } else if d == 4 {
        '4'
    } else if d == 5 {
        '5'
    } else if d == 6 {
        '6'
    } else if d == 7 {
        '7'
    } else if d == 8 {
        '8'
    } else {
        '9'
    }
}

/// The collection id of a dataset version: its high 32 bits.
pub open spec fn spec_collection_of(version: u64) -> u32 {
    (version / 0x1_0000_0000) as u32
}

/// The dataset version that starts a collection: the id shifted into the high
/// 32 bits, with the local counter at zero.
pub open spec fn spec_version_of(collection: u32) -> u64 {
    (collection * 0x1_0000_0000) as u64
}

/// The key prefix of a collection: nine decimal digits followed by `#`.
pub open spec fn spec_collection_prefix(collection: u32) -> Seq<char> {
    Seq::new(10, |i: int|
        if i < 9 {
            digit_char(((collection as nat) / pow10((8 - i) as nat)) % 10)
        } else {
            '#'
        }
    )
}

/// Extracts the collection id (the high 32 bits) from a dataset version.
pub fn collection_from_version(version: u64) -> (c: u32)
    ensures
        c == spec_collection_of(version),
{
    proof {
        assert(version / 0x1_0000_0000 < 0x1_0000_0000) by (nonlinear_arith);
    }
    (version / 0x1_0000_0000) as u32
}

/// Builds the dataset version that opens a collection: the id in the high 32
/// bits, local counter zero.
pub fn version_from_collection(collection: u32) -> (v: u64)
    ensures
        v == spec_version_of(collection),
        spec_collection_of(v) == collection,
{
    proof {
        assert((collection as u64) * 0x1_0000_0000 <= 0xffff_ffffu64 * 0x1_0000_0000)
            by (nonlinear_arith)
            requires collection <= 0xffff_ffffu64;
        assert((collection as u64) * 0x1_0000_0000 / 0x1_0000_0000 == collection as u64)
            by (nonlinear_arith);
    }
    (collection as u64) * 0x1_0000_0000
}

/// A one-character string for a decimal digit.
fn digit_str(d: u64) -> (s: &'static str)
    requires
        d < 10,
    ensures
        s@.len() == 1,
        s@[0] == digit_char(d as nat),
{
    proof {
        reveal_strlit("0");
        reveal_strlit("1");
        reveal_strlit("2");
        reveal_strlit("3");
        reveal_strlit("4");
        reveal_strlit("5");
        reveal_strlit("6");
        reveal_strlit("7");
        reveal_strlit("8");
        reveal_strlit("9");
    }
    if d == 0 {
        "0"
    } else if d == 1 {
        "1"
    } else if d == 2 {
        "2"
    } else if d == 3 {
        "3"
    } else if d == 4 {
        "4"
    } else if d == 5 {
        "5"
    } else if d == 6 {
        "6"
    } else if d == 7 {
        "7"
    } else if d == 8 {
        "8"
    } else {
        "9"
    }
}

proof fn lemma_pow10_pos(k: nat)
    ensures
        pow10(k) >= 1,
    decreases k,
{
    if k > 0 {
        lemma_pow10_pos((k - 1) as nat);
    }
}

/// Renders the key prefix of a collection: the id as nine zero-padded decimal
/// digits, then `#`.
pub fn get_collection_prefix(collection: u32) -> (s: String)
    requires
        collection <= MAX_COLLECTION,
    ensures
        s@ == spec_collection_prefix(collection),
        s@.len() == PREFIX_LEN,
{
    let mut s = String::new();
    let c: u64 = collection as u64;
    let mut div: u64 = 100_000_000;
    let mut i: usize = 0;
    proof {
        reveal_with_fuel(pow10, 9);
        assert(pow10(8) == 100_000_000);
    }
    while i < 9
        invariant
            i <= 9,
            c == collection as u64,
            c <= MAX_COLLECTION,
            i < 9 ==> div == pow10((8 - i) as nat),
            s@.len() == i,
            forall|j: int| 0 <= j < i ==> s@[j] == spec_collection_prefix(collection)[j],
        decreases 9 - i,
    {
        proof {
            lemma_pow10_pos((8 - i) as nat);
        }
        let d: u64 = (c / div) % 10;
        s.append(digit_str(d));
        proof {
            assert(((c / div) % 10) as nat == ((collection as nat) / pow10((8 - i) as nat)) % 10);
        }
        if i < 8 {
            proof {
                assert(pow10((8 - i) as nat) == 10 * pow10((8 - (i + 1)) as nat));
            }
            div = div / 10;
        }
        i = i + 1;
    }
    s.append("#");
    proof {
        reveal_strlit("#");
        assert(s@ =~= spec_collection_prefix(collection));
    }
    s
}


proof fn lemma_digits_determine(a: nat, b: nat, n: nat)
    requires
        a < pow10(n),
        b < pow10(n),
        forall|k: nat| k < n ==> #[trigger] ((a / pow10(k)) % 10) == (b / pow10(k)) % 10,
    ensures
        a == b,
    decreases n,
{
    if n == 0 {
        assert(pow10(0) == 1);
    } else {
        assert(pow10(0) == 1);
        assert(a % 10 == b % 10) by {
            assert((a / pow10(0)) % 10 == (b / pow10(0)) % 10);
        }
        assert(a / 10 < pow10((n - 1) as nat)) by (nonlinear_arith)
            requires
                a < pow10(n),
                pow10(n) == 10 * pow10((n - 1) as nat),
        ;
        assert(b / 10 < pow10((n - 1) as nat)) by (nonlinear_arith)
            requires
                b < pow10(n),
                pow10(n) == 10 * pow10((n - 1) as nat),
        ;
        assert forall|k: nat| k < (n - 1) as nat implies #[trigger] (((a / 10) / pow10(k)) % 10)
            == ((b / 10) / pow10(k)) % 10 by {
            lemma_pow10_pos(k);
            vstd::arithmetic::div_mod::lemma_div_denominator(a as int, 10, pow10(k) as int);
            vstd::arithmetic::div_mod::lemma_div_denominator(b as int, 10, pow10(k) as int);
            assert(pow10((k + 1) as nat) == 10 * pow10(k));
            assert((a / pow10((k + 1) as nat)) % 10 == (b / pow10((k + 1) as nat)) % 10);
        }
        lemma_digits_determine(a / 10, b / 10, (n - 1) as nat);
        vstd::arithmetic::div_mod::lemma_fundamental_div_mod(a as int, 10);
        vstd::arithmetic::div_mod::lemma_fundamental_div_mod(b as int, 10);
    }
}

/// Distinct collection ids render to distinct key prefixes, so filtering
/// rows by prefix separates collections exactly.
pub proof fn lemma_prefix_injective(c1: u32, c2: u32)
    requires
        c1 <= MAX_COLLECTION,
        c2 <= MAX_COLLECTION,
        c1 != c2,
    ensures
        spec_collection_prefix(c1) != spec_collection_prefix(c2),
{
    if spec_collection_prefix(c1) == spec_collection_prefix(c2) {
        reveal_with_fuel(pow10, 10);
        assert forall|k: nat| k < 9 implies #[trigger] (((c1 as nat) / pow10(k)) % 10) == ((
        c2 as nat) / pow10(k)) % 10 by {
            let i = 8 - k;
            assert(spec_collection_prefix(c1)[i as int] == spec_collection_prefix(c2)[i as int]);
            let d1 = ((c1 as nat) / pow10(k)) % 10;
            let d2 = ((c2 as nat) / pow10(k)) % 10;
            assert(digit_char(d1) == digit_char(d2));
        }
        lemma_digits_determine(c1 as nat, c2 as nat, 9);
    }
}

} // verus!
