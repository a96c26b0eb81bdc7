use sha2::Digest;
use crate::decimal::{decimal_value, digits_of, is_decimal, is_digit, lemma_digits_round_trip, push_decimal};
use crate::extract::{canonical_ids, lemma_canonical_ids, lemma_canonical_ids_by_set, sorted_ids};
use vstd::prelude::*;
use vstd::string::*;

verus! {

/// The lowercase hex SHA-256 digest of the UTF-8 bytes of `text`.
pub uninterp spec fn sha256_hex_of(text: Seq<char>) -> Seq<char>;

/// A lowercase hexadecimal digit.
pub open spec fn is_lower_hex(c: char) -> bool {
    ('0' <= c && c <= '9') || ('a' <= c && c <= 'f')
}

/// Relies on sha2::Sha256 (`Digest::update`, `Digest::finalize`) and the
/// digest's `LowerHex` formatting: the result depends on `text` alone and
/// is two lowercase hex digits for each of the 32 bytes of the digest.
#[verifier::external_body]
fn sha256_hex(text: &str) -> (r: String)
    ensures
        r@ == sha256_hex_of(text@),
        r@.len() == 64,
        forall|i: int| 0 <= i < r@.len() ==> is_lower_hex(#[trigger] r@[i]),
{
    let mut h = sha2::Sha256::new();
    h.update(text.as_bytes());
    format!("{:x}", h.finalize())
}

/// The ids in decimal, joined by commas.
pub open spec fn joined_ids(ids: Seq<u32>) -> Seq<char>
    decreases ids.len(),
{
    if ids.len() == 0 {
        Seq::empty()
    } else if ids.len() == 1 {
        digits_of(ids[0] as nat)
    } else {
        joined_ids(ids.drop_last()) + seq![','] + digits_of(ids.last() as nat)
    }
}

/// What is hashed: the joined ids, or the count where there are no ids.
pub open spec fn signature_source(count: u32, ids: Seq<u32>) -> Seq<char> {
    if ids.len() > 0 {
        joined_ids(ids)
    } else {
        "count:"@ + digits_of(count as nat)
    }
}

/// The text that the signature of `(count, ids)` is the digest of: the
/// ids ascending and each once, joined by commas, or the count where there
/// is no id.
pub fn signature_source_text(count: u32, ids: &[u32]) -> (r: String)
    ensures
        r@ == signature_source(count, canonical_ids(ids@)),
{
    let sorted = sorted_ids(ids);
    joined_source_text(count, sorted.as_slice())
}

fn joined_source_text(count: u32, ids: &[u32]) -> (r: String)
    ensures
        r@ == signature_source(count, ids@),
{
    let mut s = String::new();
    if ids.len() == 0 {
        s.append("count:");
        push_decimal(&mut s, count as u64);
        return s;
    }
    let mut i: usize = 0;
    while i < ids.len()
        invariant
            0 <= i <= ids@.len(),
            s@ == joined_ids(ids@.take(i as int)),
        decreases ids@.len() - i,
    {
        assert(ids@.take(i as int + 1).drop_last() =~= ids@.take(i as int));
        if i > 0 {
            proof {
                reveal_strlit(",");
            }
            s.append(",");
        }
        push_decimal(&mut s, ids[i] as u64);
        i = i + 1;
    }
    assert(ids@.take(ids@.len() as int) =~= ids@);
    s
}

proof fn lemma_digits_have_no_comma(n: nat, i: int)
    requires
        0 <= i < digits_of(n).len(),
    ensures
        digits_of(n)[i] != ',',
{
    lemma_digits_round_trip(n);
    assert(is_digit(digits_of(n)[i]));
}

proof fn lemma_digits_injective(a: nat, b: nat)
    requires
        digits_of(a) == digits_of(b),
    ensures
        a == b,
{
    lemma_digits_round_trip(a);
    lemma_digits_round_trip(b);
}

proof fn lemma_split_at_last_comma(x: Seq<char>, a: nat, y: Seq<char>, b: nat)
    requires
        x + seq![','] + digits_of(a) == y + seq![','] + digits_of(b),
    ensures
        x == y,
        a == b,
{
    let s = x + seq![','] + digits_of(a);
    let t = y + seq![','] + digits_of(b);
    let da = digits_of(a);
    let db = digits_of(b);
    assert(s.len() == t.len());
    if da.len() < db.len() {
        let p = x.len() as int;
        assert(s[p] == ',');
        assert(t[p] == db[p - y.len() - 1]);
        lemma_digits_have_no_comma(b, p - y.len() - 1);
    } else if db.len() < da.len() {
        let p = y.len() as int;
        assert(t[p] == ',');
        assert(s[p] == da[p - x.len() - 1]);
        lemma_digits_have_no_comma(a, p - x.len() - 1);
    } else {
        assert(x =~= s.subrange(0, x.len() as int));
        assert(y =~= t.subrange(0, y.len() as int));
        assert(da =~= s.subrange(x.len() as int + 1, s.len() as int));
        assert(db =~= t.subrange(y.len() as int + 1, t.len() as int));
        lemma_digits_injective(a, b);
    }
}

proof fn lemma_single_has_no_comma(a: nat, y: Seq<char>, b: nat)
    ensures
        digits_of(a) != y + seq![','] + digits_of(b),
{
    let t = y + seq![','] + digits_of(b);
    if digits_of(a) == t {
        assert(t[y.len() as int] == ',');
        lemma_digits_have_no_comma(a, y.len() as int);
    }
}

/// Distinct non-empty id lists are joined into distinct texts, so the text
/// that is hashed changes with any change of the ids.
pub proof fn lemma_joined_ids_injective(a: Seq<u32>, b: Seq<u32>)
    requires
        a.len() > 0,
        b.len() > 0,
        joined_ids(a) == joined_ids(b),
    ensures
        a == b,
    decreases a.len() + b.len(),
{
    if a.len() == 1 && b.len() == 1 {
        lemma_digits_injective(a[0] as nat, b[0] as nat);
        assert(a =~= b);
    } else if a.len() == 1 {
        lemma_single_has_no_comma(a[0] as nat, joined_ids(b.drop_last()), b.last() as nat);
    } else if b.len() == 1 {
        lemma_single_has_no_comma(b[0] as nat, joined_ids(a.drop_last()), a.last() as nat);
    } else {
        lemma_split_at_last_comma(joined_ids(a.drop_last()), a.last() as nat, joined_ids(b.drop_last()), b.last() as nat);
        lemma_joined_ids_injective(a.drop_last(), b.drop_last());
        assert(a =~= a.drop_last().push(a.last()));
        assert(b =~= b.drop_last().push(b.last()));
    }
}

/// The signature text depends on the set of ids alone: the same ids in any
/// order or repetition give the same text; for a non-empty list the count
/// plays no part; and two different non-empty id sets never share a text.
pub proof fn lemma_signature_source_by_id_set(c1: u32, c2: u32, a: Seq<u32>, b: Seq<u32>)
    ensures
        a.to_set() == b.to_set() ==> signature_source(c1, canonical_ids(a)) == signature_source(
            c1,
            canonical_ids(b),
        ),
        a.len() > 0 ==> signature_source(c1, canonical_ids(a)) == signature_source(c2, canonical_ids(a)),
        a.len() > 0 && b.len() > 0 && a.to_set() != b.to_set() ==> signature_source(c1, canonical_ids(a))
            != signature_source(c2, canonical_ids(b)),
{
    lemma_canonical_ids(a);
    lemma_canonical_ids(b);
    if a.to_set() == b.to_set() {
        lemma_canonical_ids_by_set(a, b);
    }
    if a.len() > 0 {
        assert(a.contains(a[0]));
        assert(canonical_ids(a).contains(a[0]));
    }
    if b.len() > 0 {
        assert(b.contains(b[0]));
        assert(canonical_ids(b).contains(b[0]));
    }
    if a.len() > 0 && b.len() > 0 && signature_source(c1, canonical_ids(a)) == signature_source(
        c2,
        canonical_ids(b),
    ) {
        lemma_joined_ids_injective(canonical_ids(a), canonical_ids(b));
        assert forall|y: u32| a.to_set().contains(y) <==> b.to_set().contains(y) by {
            assert(a.contains(y) == canonical_ids(a).contains(y));
            assert(b.contains(y) == canonical_ids(b).contains(y));
        }
        assert(a.to_set() =~= b.to_set());
    }
}

/// The fingerprint of a set of pending games: the hex SHA-256 of the
/// comma-joined ids, ascending and each once, or of `count:<count>` when
/// there is no id.
pub fn make_signature(count: u32, ids: &[u32]) -> (r: String)
    ensures
        r@ == sha256_hex_of(signature_source(count, canonical_ids(ids@))),
        r@.len() == 64,
        forall|i: int| 0 <= i < r@.len() ==> is_lower_hex(#[trigger] r@[i]),
{
    let source = signature_source_text(count, ids);
    sha256_hex(source.as_str())
}

} // verus!
