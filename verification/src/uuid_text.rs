use vstd::prelude::*;
use vstd::string::StringExecFns;
use crate::hex::{append_hex, hex_seq, is_hex_digit_char, lemma_hex_seq_digits, lemma_hex_seq_injective, lemma_hex_seq_len, pow16};

verus! {

/// What the character at position `i` of a canonical UUID string must be:
/// a hyphen at positions 8, 13, 18 and 23, a lowercase hex digit elsewhere.
pub open spec fn uuid_char_ok(s: Seq<char>, i: int) -> bool {
    if i == 8 || i == 13 || i == 18 || i == 23 {
        s[i] == '-'
    } else {
        is_hex_digit_char(s[i])
    }
}

/// A UUID in canonical hyphenated form: 36 characters, in five groups of
/// 8, 4, 4, 4 and 12 lowercase hex digits separated by hyphens.
pub open spec fn is_canonical_uuid(s: Seq<char>) -> bool {
    s.len() == 36 && (forall|i: int| 0 <= i < 36 ==> #[trigger] uuid_char_ok(s, i))
}

/// What `uuid::Uuid::parse_str` makes of a string: `None` where parsing
/// fails, and otherwise the canonical hyphenated lowercase rendering of the
/// parsed value.  The result depends on the characters alone.
pub uninterp spec fn parsed_uuid(s: Seq<char>) -> Option<Seq<char>>;

/// Relies on `uuid::Uuid::parse_str` to decide whether the string denotes a
/// UUID, and on the `Display` rendering of `uuid::Uuid` for the canonical
/// lowercase hyphenated form of an accepted one.  A string already in that
/// form parses, and the round trip through parse and render gives it back
/// unchanged.  On rejection the error's text is returned; nothing is
/// promised of its content.
#[verifier::external_body]
pub fn parse_uuid(s: &String) -> (r: Result<String, String>)
    ensures
        r is Ok <==> parsed_uuid(s@) is Some,
        r is Ok ==> r->Ok_0@ == parsed_uuid(s@)->0,
        r is Ok ==> is_canonical_uuid(r->Ok_0@),
        is_canonical_uuid(s@) ==> r is Ok && r->Ok_0@ == s@,
{
    match uuid::Uuid::parse_str(s) {
        Ok(u) => Ok(u.to_string()),
        Err(e) => Err(e.to_string()),
    }
}

/// The 24-character constant head of every identifier this library
/// generates: four all-zero groups, each closed by its hyphen.
pub open spec fn uuid_prefix() -> Seq<char> {
    seq![
        '0',
        '0',
        '0',
        '0',
        '0',
        '0',
        '0',
        '0',
        '-',
        '0',
        '0',
        '0',
        '0',
        '-',
        '0',
        '0',
        '0',
        '0',
        '-',
        '0',
        '0',
        '0',
        '0',
        '-',
    ]
}

/// The canonical UUID string that stands for the logical clock value `k`:
/// an all-zero head and `k` rendered as the final twelve hex digits.
pub open spec fn uuid_seq(k: nat) -> Seq<char> {
    uuid_prefix() + hex_seq(k, 12)
}

/// The timestamp text assigned at logical clock value `k`: a fixed-width
/// rendering of the tick.  Timestamps are opaque to clients.
pub open spec fn ts_seq(k: nat) -> Seq<char> {
    hex_seq(k, 16)
}

pub proof fn lemma_uuid_seq_canonical(k: nat)
    ensures
        is_canonical_uuid(uuid_seq(k)),
{
    lemma_hex_seq_len(k, 12);
    lemma_hex_seq_digits(k, 12);
    assert forall|i: int| 0 <= i < 36 implies #[trigger] uuid_char_ok(uuid_seq(k), i) by {
        if i < 24 {
            assert(uuid_seq(k)[i] == uuid_prefix()[i]);
        } else {
            assert(uuid_seq(k)[i] == hex_seq(k, 12)[i - 24]);
        }
    }
    assert(uuid_seq(k).len() == 36);
}

/// Distinct clock values below `pow16(12)` give distinct identifiers.
pub proof fn lemma_uuid_seq_injective(k1: nat, k2: nat)
    requires
        k1 < pow16(12),
        k2 < pow16(12),
        uuid_seq(k1) == uuid_seq(k2),
    ensures
        k1 == k2,
{
    lemma_hex_seq_len(k1, 12);
    lemma_hex_seq_len(k2, 12);
    assert forall|i: int| 0 <= i < 12 implies hex_seq(k1, 12)[i] == hex_seq(k2, 12)[i] by {
        assert(uuid_seq(k1)[24 + i] == hex_seq(k1, 12)[i]);
        assert(uuid_seq(k2)[24 + i] == hex_seq(k2, 12)[i]);
    }
    assert(hex_seq(k1, 12) =~= hex_seq(k2, 12));
    lemma_hex_seq_injective(k1, k2, 12);
}

/// The bound on the store's logical clock: clock values stay below
/// `pow16(12)`, so each has its own twelve-digit rendering.
pub proof fn lemma_pow16_12()
    ensures
        pow16(12) == 0x1000000000000,
{
    assert(pow16(0) == 1);
    assert(pow16(1) == 16);
    assert(pow16(2) == 256);
    assert(pow16(3) == 4096);
    assert(pow16(4) == 0x10000);
    assert(pow16(5) == 0x100000);
    assert(pow16(6) == 0x1000000);
    assert(pow16(7) == 0x10000000);
    assert(pow16(8) == 0x100000000);
    assert(pow16(9) == 0x1000000000);
    assert(pow16(10) == 0x10000000000);
    assert(pow16(11) == 0x100000000000);
    assert(pow16(12) == 0x1000000000000);
}

/// Builds the canonical UUID string for clock value `k`.
pub fn make_uuid(k: u64) -> (r: String)
    ensures
        r@ == uuid_seq(k as nat),
{
    let mut s = String::from_str("00000000-0000-0000-0000-");
    proof {
        reveal_strlit("00000000-0000-0000-0000-");
        assert(s@ =~= uuid_prefix());
    }
    append_hex(&mut s, k, 12);
    s
}

/// Builds the timestamp text for clock value `k`.
pub fn make_timestamp(k: u64) -> (r: String)
    ensures
        r@ == ts_seq(k as nat),
{
    let mut s = String::new();
    append_hex(&mut s, k, 16);
    proof {
        assert(Seq::<char>::empty() + hex_seq(k as nat, 16) =~= hex_seq(k as nat, 16));
    }
    s
}

} // verus!
