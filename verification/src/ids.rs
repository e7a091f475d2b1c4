//! The prefix of the ids that connect an SVG to its accessible name and
//! description. Two charts on one page need different prefixes; without
//! one given, the prefix is derived from the specification itself.

use vstd::prelude::*;

use crate::digits::{hex_char, hex_digits, push_hex};
use crate::error::{outcome, ChartError};

verus! {

/// Start value of the 64-bit FNV-1a hash.
pub const FNV_OFFSET: u64 = 0xcbf2_9ce4_8422_2325;

/// Multiplier of the 64-bit FNV-1a hash.
pub const FNV_PRIME: u64 = 0x0000_0100_0000_01b3;

/// Whether `c` is an ASCII letter.
pub open spec fn is_ascii_letter(c: char) -> bool {
    ('a' <= c <= 'z') || ('A' <= c <= 'Z')
}

/// Whether `c` may follow the first character of an id prefix.
pub open spec fn is_id_char(c: char) -> bool {
    is_ascii_letter(c) || ('0' <= c <= '9') || c == '-' || c == '_'
}

/// Whether `prefix` is 1 to 64 ASCII letters, digits, hyphens or
/// underscores, starting with a letter.
pub open spec fn valid_id_prefix(prefix: Seq<char>) -> bool {
    &&& 1 <= prefix.len() <= 64
    &&& is_ascii_letter(prefix[0])
    &&& forall|i: int| 1 <= i < prefix.len() ==> is_id_char(#[trigger] prefix[i])
}

/// The error for a prefix that is not valid.
pub open spec fn id_prefix_issue(prefix: Seq<char>) -> Option<(Seq<char>, Seq<char>, Seq<char>)> {
    if valid_id_prefix(prefix) {
        None
    } else {
        Some(
            (
                "invalid_id_prefix"@,
                "/render/idPrefix"@,
                "use 1–64 ASCII letters, digits, hyphens, or underscores, starting with a letter"@,
            ),
        )
    }
}

/// Checks a caller-given id prefix. A prefix with a character outside
/// ASCII is rejected whatever its length, so counting characters gives the
/// same answer as counting bytes.
pub fn validate_id_prefix(value: &str) -> (result: Result<(), ChartError>)
    ensures
        outcome(result) == id_prefix_issue(value@),
{
    let length = value.unicode_len();
    let mut valid = 1 <= length && length <= 64;
    if valid {
        let first = value.get_char(0);
        valid = match first {
            'a'..='z' | 'A'..='Z' => true,
            _ => false,
        };
        let mut i: usize = 1;
        while i < length
            invariant
                length == value@.len(),
                1 <= i <= length,
                valid == (is_ascii_letter(value@[0]) && forall|j: int|
                    1 <= j < i ==> is_id_char(#[trigger] value@[j])),
            decreases length - i,
        {
            let c = value.get_char(i);
            let allowed = match c {
                'a'..='z' | 'A'..='Z' | '0'..='9' | '-' | '_' => true,
                _ => false,
            };
            if !allowed {
                valid = false;
            }
            i += 1;
        }
    }
    if !valid {
        return Err(
            ChartError::new(
                "invalid_id_prefix",
                "/render/idPrefix",
                "use 1–64 ASCII letters, digits, hyphens, or underscores, starting with a letter",
            ),
        );
    }
    Ok(())
}

/// The 64-bit FNV-1a hash of `bytes`.
pub open spec fn fnv1a(bytes: Seq<u8>) -> u64
    decreases bytes.len(),
{
    if bytes.len() == 0 {
        FNV_OFFSET
    } else {
        (((fnv1a(bytes.drop_last()) ^ (bytes.last() as u64)) as nat * FNV_PRIME as nat)
            % 0x1_0000_0000_0000_0000nat) as u64
    }
}

/// The 64-bit FNV-1a hash of `bytes`.
pub fn fnv1a_hash(bytes: &[u8]) -> (hash: u64)
    ensures
        hash == fnv1a(bytes@),
{
    let mut hash = FNV_OFFSET;
    let mut i: usize = 0;
    while i < bytes.len()
        invariant
            i <= bytes@.len(),
            hash == fnv1a(bytes@.take(i as int)),
        decreases bytes@.len() - i,
    {
        assert(bytes@.take(i + 1).drop_last() =~= bytes@.take(i as int));
        hash = (hash ^ (bytes[i] as u64)).wrapping_mul(FNV_PRIME);
        i += 1;
    }
    assert(bytes@.take(bytes@.len() as int) =~= bytes@);
    hash
}

/// The prefix derived from a specification: `chartlet-` and the FNV-1a
/// hash of its canonical JSON as 16 lowercase hexadecimal digits.
pub open spec fn derived_id_prefix(canonical: Seq<u8>) -> Seq<char> {
    "chartlet-"@ + hex_digits(fnv1a(canonical) as nat, 16)
}

/// The prefix of a chart without a given one, from the canonical JSON of
/// its specification: the same specification always gets the same prefix.
pub fn default_id_prefix(canonical: &[u8]) -> (prefix: String)
    ensures
        prefix@ == derived_id_prefix(canonical@),
{
    let hash = fnv1a_hash(canonical);
    let mut prefix = "chartlet-".to_string();
    push_hex(&mut prefix, hash, 16);
    prefix
}

proof fn lemma_hex_digits(n: nat, count: nat)
    ensures
        hex_digits(n, count).len() == count,
        forall|i: int| 0 <= i < count ==> is_id_char(#[trigger] hex_digits(n, count)[i]),
    decreases count,
{
    if count > 0 {
        lemma_hex_digits(n / 16, (count - 1) as nat);
        let d = (n % 16) as int;
        assert(is_id_char(hex_char(d)));
        assert forall|i: int| 0 <= i < count implies is_id_char(#[trigger] hex_digits(n, count)[i]) by {
            if i < count - 1 {
                assert(hex_digits(n, count)[i] == hex_digits(n / 16, (count - 1) as nat)[i]);
            }
        }
    }
}

/// A derived prefix is always one that a caller could have given.
pub proof fn lemma_derived_id_prefix_is_valid(canonical: Seq<u8>)
    ensures
        valid_id_prefix(derived_id_prefix(canonical)),
{
    reveal_strlit("chartlet-");
    lemma_hex_digits(fnv1a(canonical) as nat, 16);
    let prefix = derived_id_prefix(canonical);
    assert forall|i: int| 1 <= i < prefix.len() implies is_id_char(#[trigger] prefix[i]) by {
        if i >= 9 {
            assert(prefix[i] == hex_digits(fnv1a(canonical) as nat, 16)[i - 9]);
        }
    }
}

} // verus!
