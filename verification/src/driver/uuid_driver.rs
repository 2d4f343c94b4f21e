use vstd::prelude::*;
use crate::component::id::{Id, IdRepository};

verus! {

/// The value of `b` read as a little-endian number: `b[0]` is the least
/// significant byte.
pub open spec fn le_value(b: Seq<u8>) -> nat
    decreases b.len(),
{
    if b.len() == 0 {
        0
    } else {
        b[0] as nat + 256 * le_value(b.drop_first())
    }
}

/// `256` to the power `n`.
pub open spec fn pow256(n: nat) -> nat
    decreases n,
{
    if n == 0 {
        1
    } else {
        256 * pow256((n - 1) as nat)
    }
}

/// The 16 bytes of a version 4 UUID of the RFC 4122 variant: the high nibble
/// of byte 6 is `4` and the two high bits of byte 8 are `0b10`.
pub open spec fn is_v4_uuid_bytes(b: Seq<u8>) -> bool {
    &&& b.len() == 16
    &&& b[6] / 16 == 4
    &&& b[8] / 64 == 2
}

/// The bytes of the version 4 UUID made from 16 random bytes: the high
/// nibble of byte 6 becomes the version `4` and the two high bits of byte 8
/// become the RFC 4122 variant `0b10`; every other bit is the random one.
pub open spec fn v4_uuid_bytes(random: Seq<u8>) -> Seq<u8> {
    random.update(6, (random[6] & 0x0fu8) | 0x40u8).update(8, (random[8] & 0x3fu8) | 0x80u8)
}

/// The identifier made from 16 random bytes: the little-endian value of the
/// version 4 UUID built from them.
pub open spec fn id_value_from_random(random: Seq<u8>) -> nat {
    le_value(v4_uuid_bytes(random))
}

/// Two random byte strings agree everywhere but in the six bits that the
/// version and the variant overwrite.
pub open spec fn same_uuid_randomness(r1: Seq<u8>, r2: Seq<u8>) -> bool {
    &&& forall|i: int| 0 <= i < 16 && i != 6 && i != 8 ==> #[trigger] r1[i] == r2[i]
    &&& r1[6] & 0x0fu8 == r2[6] & 0x0fu8
    &&& r1[8] & 0x3fu8 == r2[8] & 0x3fu8
}

/// `v` is the identifier made from some 16 random bytes.
pub open spec fn is_v4_uuid_le_value(v: u128) -> bool {
    exists|r: Seq<u8>| r.len() == 16 && #[trigger] id_value_from_random(r) == v
}

/// A little-endian number of `n` bytes is below `256^n`.
proof fn lemma_le_value_bound(b: Seq<u8>)
    ensures
        le_value(b) < pow256(b.len()),
    decreases b.len(),
{
    if b.len() > 0 {
        lemma_le_value_bound(b.drop_first());
    }
}

/// `pow256` grows with its exponent.
proof fn lemma_pow256_monotonic(a: nat, c: nat)
    requires
        a <= c,
    ensures
        pow256(a) <= pow256(c),
    decreases c,
{
    if a < c {
        lemma_pow256_monotonic(a, (c - 1) as nat);
    }
}

/// Byte `i` of a little-endian number is its `i`-th base-256 digit.
proof fn lemma_le_value_byte(b: Seq<u8>, i: int)
    requires
        0 <= i < b.len(),
    ensures
        b[i] == (le_value(b) / pow256(i as nat)) % 256,
    decreases i,
{
    let rest = le_value(b.drop_first());
    assert(le_value(b) == b[0] as nat + 256 * rest);
    let x = le_value(b) as int;
    vstd::arithmetic::div_mod::lemma_fundamental_div_mod_converse(x, 256, rest as int, b[0] as int);
    if i == 0 {
        assert(pow256(0) == 1);
        assert(x / 1 == x);
    } else {
        lemma_le_value_byte(b.drop_first(), i - 1);
        assert(b[i] == b.drop_first()[i - 1]);
        let p = pow256((i - 1) as nat);
        assert(pow256(i as nat) == 256 * p);
        lemma_pow256_positive((i - 1) as nat);
        vstd::arithmetic::div_mod::lemma_div_denominator(x, 256, p as int);
        assert(x / 256 == rest);
        assert(x / (256 * (p as int)) == (rest as int) / (p as int));
        assert(b[i] == (rest / p) % 256);
    }
}

/// `256^n` is positive.
proof fn lemma_pow256_positive(n: nat)
    ensures
        pow256(n) > 0,
    decreases n,
{
    if n > 0 {
        lemma_pow256_positive((n - 1) as nat);
    }
}

/// Equal little-endian values of byte strings of one length come from equal
/// byte strings.
proof fn lemma_le_value_injective(a: Seq<u8>, b: Seq<u8>)
    requires
        a.len() == b.len(),
        le_value(a) == le_value(b),
    ensures
        a == b,
    decreases a.len(),
{
    if a.len() > 0 {
        let x = le_value(a.drop_first());
        let y = le_value(b.drop_first());
        assert(a[0] as nat + 256 * x == b[0] as nat + 256 * y);
        assert(a[0] == b[0] && x == y);
        lemma_le_value_injective(a.drop_first(), b.drop_first());
        assert forall|i: int| 0 <= i < a.len() implies a[i] == b[i] by {
            if i > 0 {
                assert(a[i] == a.drop_first()[i - 1]);
                assert(b[i] == b.drop_first()[i - 1]);
            }
        }
        assert(a =~= b);
    }
}

/// The version 4 UUID of any random bytes has version `4` and variant
/// `0b10`.
proof fn lemma_v4_uuid_bytes_are_v4(random: Seq<u8>)
    requires
        random.len() == 16,
    ensures
        is_v4_uuid_bytes(v4_uuid_bytes(random)),
{
    let (x, y) = (random[6], random[8]);
    assert(((x & 0x0fu8) | 0x40u8) / 16 == 4 && ((y & 0x3fu8) | 0x80u8) / 64 == 2) by (bit_vector);
}

/// Every identifier made from random bytes carries the version `4` in bits
/// 52 to 55 and the RFC 4122 variant `0b10` in bits 70 and 71.
pub proof fn lemma_v4_value_fields(v: u128)
    requires
        is_v4_uuid_le_value(v),
    ensures
        (v >> 52u128) & 0xfu128 == 4,
        (v >> 70u128) & 0x3u128 == 2,
{
    let r = choose|r: Seq<u8>| r.len() == 16 && #[trigger] id_value_from_random(r) == v;
    lemma_v4_uuid_bytes_are_v4(r);
    let b = v4_uuid_bytes(r);
    reveal_with_fuel(le_value, 17);
    let (b0, b1, b2, b3, b4, b5, b6, b7) = (b[0], b[1], b[2], b[3], b[4], b[5], b[6], b[7]);
    let (b8, b9, b10, b11, b12, b13, b14, b15) = (b[8], b[9], b[10], b[11], b[12], b[13], b[14], b[15]);
    assert(v == b0 + 256 * (b1 + 256 * (b2 + 256 * (b3 + 256 * (b4 + 256 * (b5 + 256 * (b6 + 256 * (b7
        + 256 * (b8 + 256 * (b9 + 256 * (b10 + 256 * (b11 + 256 * (b12 + 256 * (b13 + 256 * (b14 + 256 * b15)))))))))))))));
    assert((v >> 52u128) & 0xfu128 == 4 && (v >> 70u128) & 0x3u128 == 2) by (bit_vector)
        requires
            v == b0 + 256 * (b1 + 256 * (b2 + 256 * (b3 + 256 * (b4 + 256 * (b5 + 256 * (b6 + 256 * (b7
                + 256 * (b8 + 256 * (b9 + 256 * (b10 + 256 * (b11 + 256 * (b12 + 256 * (b13 + 256 * (b14 + 256 * b15)))))))))))))),
            b6 / 16 == 4,
            b8 / 64 == 2,
    ;
}

/// Two draws of random bytes give the same identifier exactly when they
/// agree outside the six version and variant bits: the identifier keeps the
/// other 122 random bits.
pub proof fn lemma_random_ids_equal_iff(r1: Seq<u8>, r2: Seq<u8>)
    requires
        r1.len() == 16,
        r2.len() == 16,
    ensures
        (id_value_from_random(r1) == id_value_from_random(r2)) <==> same_uuid_randomness(r1, r2),
{
    let b1 = v4_uuid_bytes(r1);
    let b2 = v4_uuid_bytes(r2);
    if id_value_from_random(r1) == id_value_from_random(r2) {
        lemma_le_value_injective(b1, b2);
        assert forall|i: int| 0 <= i < 16 && i != 6 && i != 8 implies #[trigger] r1[i] == r2[i] by {
            assert(b1[i] == b2[i]);
        }
        let (x1, x2, y1, y2) = (r1[6], r2[6], r1[8], r2[8]);
        assert(b1[6] == b2[6] && b1[8] == b2[8]);
        assert((x1 & 0x0fu8) | 0x40u8 == (x2 & 0x0fu8) | 0x40u8 ==> x1 & 0x0fu8 == x2 & 0x0fu8)
            by (bit_vector);
        assert((y1 & 0x3fu8) | 0x80u8 == (y2 & 0x3fu8) | 0x80u8 ==> y1 & 0x3fu8 == y2 & 0x3fu8)
            by (bit_vector);
    }
    if same_uuid_randomness(r1, r2) {
        assert forall|i: int| 0 <= i < 16 implies b1[i] == b2[i] by {
            if i != 6 && i != 8 {
                assert(r1[i] == r2[i]);
            }
        }
        assert(b1 =~= b2);
    }
}

/// Reads 16 bytes as a little-endian 128-bit number, as
/// `Uuid::to_u128_le` does with a UUID's bytes.
pub fn u128_from_le_bytes(bytes: [u8; 16]) -> (v: u128)
    ensures
        v as nat == le_value(bytes@),
        forall|i: int| 0 <= i < 16 ==> #[trigger] bytes@[i] == (v as nat / pow256(i as nat)) % 256,
{
    let mut v: u128 = 0;
    let mut i: usize = 16;
    proof {
        assert(bytes@.subrange(16, 16) =~= Seq::<u8>::empty());
    }
    while i > 0
        invariant
            i <= 16,
            v as nat == le_value(bytes@.subrange(i as int, 16)),
        decreases i,
    {
        let ghost tail = bytes@.subrange(i as int, 16);
        i = i - 1;
        proof {
            lemma_le_value_bound(tail);
            lemma_pow256_monotonic(tail.len(), 15);
            reveal_with_fuel(pow256, 16);
            assert(bytes@.subrange(i as int, 16).drop_first() =~= tail);
        }
        v = v * 256 + bytes[i] as u128;
    }
    proof {
        assert(bytes@.subrange(0, 16) =~= bytes@);
        assert forall|i: int| 0 <= i < 16 implies #[trigger] bytes@[i] == (v as nat / pow256(
            i as nat,
        )) % 256 by {
            lemma_le_value_byte(bytes@, i);
        }
    }
    v
}

/// Calls `getrandom::fill` on a 16-byte buffer: `Some` of the bytes when
/// the operating system's random source filled it, `None` when it reported
/// an error. Nothing is claimed of the bytes: they are random.
#[verifier::external_body]
fn os_random_bytes() -> (random: Option<[u8; 16]>) {
    let mut random = [0u8; 16];
    getrandom::fill(&mut random).ok().map(|()| random)
}

/// Calls `uuid::Builder::from_random_bytes(random).into_uuid().into_bytes()`.
/// The claim, from the builder's `with_variant` and `with_version`: the
/// bytes are `random` with the high nibble of byte 6 set to `4` and the two
/// high bits of byte 8 set to `0b10`.
#[verifier::external_body]
fn uuid_v4_from_random_bytes(random: [u8; 16]) -> (bytes: [u8; 16])
    ensures
        bytes@ == v4_uuid_bytes(random@),
{
    uuid::Builder::from_random_bytes(random).into_uuid().into_bytes()
}

/// The identifier of the version 4 UUID built from 16 random bytes, read
/// little-endian as `Uuid::to_u128_le` reads it.
pub fn id_from_random_bytes(random: [u8; 16]) -> (id: Id)
    ensures
        id.id == id_value_from_random(random@),
        forall|i: int|
            0 <= i < 16 && i != 6 && i != 8 ==> (id.id as nat / pow256(i as nat)) % 256
                == #[trigger] random@[i],
        (id.id as nat / pow256(6)) % 256 == (random[6] & 0x0fu8) | 0x40u8,
        (id.id as nat / pow256(8)) % 256 == (random[8] & 0x3fu8) | 0x80u8,
{
    let bytes = uuid_v4_from_random_bytes(random);
    let v = u128_from_le_bytes(bytes);
    proof {
        assert(bytes@[6] == (v as nat / pow256(6)) % 256);
        assert(bytes@[8] == (v as nat / pow256(8)) % 256);
        assert forall|i: int| 0 <= i < 16 && i != 6 && i != 8 implies (v as nat / pow256(i as nat))
            % 256 == #[trigger] random@[i] by {
            assert(bytes@[i] == (v as nat / pow256(i as nat)) % 256);
        }
    }
    Id { id: v }
}

/// `random` is a value that a call of the operating system's random source
/// (`os_random_bytes`) can hand back: the call that made it did return it.
pub closed spec fn random_source_can_return(random: [u8; 16]) -> bool {
    call_ensures(os_random_bytes, (), Some(random))
}

/// A repository of random (version 4) UUIDs.
pub struct UuidRepository;

impl IdRepository for UuidRepository {
    /// A UUID repository hands out the identifiers made from 16 random
    /// bytes.
    open spec fn can_generate(&self, id: Id) -> bool {
        is_v4_uuid_le_value(id.id)
    }

    /// `None` when the operating system's random source fails; otherwise the
    /// identifier made from all 16 bytes that the source handed back.
    fn generate(&self) -> (id: Option<Id>)
        ensures
            id matches Some(i) ==> exists|random: [u8; 16]|
                random_source_can_return(random) && #[trigger] id_value_from_random(random@)
                    == i.id,
    {
        let drawn = os_random_bytes();
        match drawn {
            Some(random) => {
                let id = id_from_random_bytes(random);
                assert(random_source_can_return(random));
                Some(id)
            },
            None => None,
        }
    }
}

} // verus!
