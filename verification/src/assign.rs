use crate::analysis::{lemma_weighted_sum_remove, total};
use crate::hasher::KeyedHasher;
use crate::pubkey::Pubkey2;
use crate::BUCKETS;
use std::hash::{BuildHasher, Hasher};
use vstd::prelude::*;

verus! {

/// The bucket of a digest among `buckets` buckets: the digest's place in the range
/// of all 64-bit numbers, scaled to the number of buckets and rounded down.
pub open spec fn bucket_of(buckets: nat, digest: u64) -> nat {
    buckets * (digest as nat) / 0x1_0000_0000_0000_0000
}

/// With at least one bucket, the bucket of every digest is one of the buckets.
pub proof fn lemma_bucket_in_range(buckets: nat, digest: u64)
    requires
        buckets > 0,
    ensures
        0 <= bucket_of(buckets, digest) < buckets,
{
    let d = digest as nat;
    assert(buckets * d < buckets * 0x1_0000_0000_0000_0000) by (nonlinear_arith)
        requires
            buckets > 0,
            d < 0x1_0000_0000_0000_0000,
    ;
    assert(buckets * d / 0x1_0000_0000_0000_0000 < buckets) by (nonlinear_arith)
        requires
            0 <= buckets * d < buckets * 0x1_0000_0000_0000_0000,
    ;
}

/// Maps a digest to its bucket among `buckets` buckets.
pub fn bucket_index(buckets: usize, digest: u64) -> (bucket: usize)
    ensures
        bucket == bucket_of(buckets as nat, digest),
        buckets > 0 ==> bucket < buckets,
{
    proof {
        assert(buckets * digest <= 0xffff_ffff_ffff_ffff * 0xffff_ffff_ffff_ffff) by (nonlinear_arith)
            requires
                buckets <= 0xffff_ffff_ffff_ffff,
                digest <= 0xffff_ffff_ffff_ffff,
        ;
        if buckets > 0 {
            lemma_bucket_in_range(buckets as nat, digest);
        } else {
            assert(buckets * digest == 0) by (nonlinear_arith)
                requires
                    buckets == 0,
            ;
        }
    }
    ((buckets as u128) * (digest as u128) / ((u64::MAX as u128) + 1)) as usize
}

/// The bucket that a hasher of family `H`, made from `seed` and having taken in
/// `written`, gives to the identifier with the bytes `address`.
pub open spec fn assigned_bucket<H: KeyedHasher>(
    buckets: nat,
    seed: u64,
    written: Seq<u8>,
    address: Seq<u8>,
) -> nat {
    bucket_of(buckets, H::digest_of(seed, written + address))
}

/// Feeds the identifier to the hasher and maps the digest to a bucket.
pub fn address_to_bucket_with_epoch_hasher<H: KeyedHasher>(
    buckets: usize,
    hasher: H,
    address: &Pubkey2,
) -> (bucket: usize)
    ensures
        bucket == assigned_bucket::<H>(buckets as nat, hasher.seed(), hasher.written(), address@),
        buckets > 0 ==> bucket < buckets,
{
    let mut hasher = hasher;
    hasher.write(address.as_bytes().as_slice());
    let digest = hasher.finish();
    bucket_index(buckets, digest)
}

/// The same seed, the same bytes taken in before and the same identifier bytes
/// give the same bucket.
pub proof fn lemma_assignment_deterministic<H: KeyedHasher>(
    buckets: nat,
    seed_a: u64,
    seed_b: u64,
    written_a: Seq<u8>,
    written_b: Seq<u8>,
    address_a: Pubkey2,
    address_b: Pubkey2,
)
    requires
        seed_a == seed_b,
        written_a == written_b,
        address_a@ == address_b@,
    ensures
        assigned_bucket::<H>(buckets, seed_a, written_a, address_a@) == assigned_bucket::<H>(
            buckets,
            seed_b,
            written_b,
            address_b@,
        ),
{
}

/// The buckets that the identifiers of a dataset are given, in the order of the
/// dataset.
pub open spec fn assignments<H: KeyedHasher>(
    seed: u64,
    written: Seq<u8>,
    addresses: Seq<Pubkey2>,
) -> Seq<nat> {
    addresses.map(|i: int, address: Pubkey2| assigned_bucket::<H>(BUCKETS as nat, seed, written, address@))
}

/// Adding one to a count adds one to the sum of the counts.
proof fn lemma_total_increment(counts: Seq<usize>, at: int)
    requires
        0 <= at < counts.len(),
        counts[at] < usize::MAX,
    ensures
        total(counts.update(at, (counts[at] + 1) as usize)) == total(counts) + 1,
{
    let weight = |c: usize| c as nat;
    let raised = counts.update(at, (counts[at] + 1) as usize);
    lemma_weighted_sum_remove(counts, weight, at);
    lemma_weighted_sum_remove(raised, weight, at);
    assert(raised.remove(at) =~= counts.remove(at));
}

/// No count exceeds the sum of all counts.
proof fn lemma_count_within_total(counts: Seq<usize>, at: int)
    requires
        0 <= at < counts.len(),
    ensures
        counts[at] <= total(counts),
{
    lemma_weighted_sum_remove(counts, |c: usize| c as nat, at);
}

/// The sum of counts that are all zero is zero.
proof fn lemma_total_of_zeros(counts: Seq<usize>)
    requires
        forall|i: int| 0 <= i < counts.len() ==> counts[i] == 0,
    ensures
        total(counts) == 0,
    decreases counts.len(),
{
    if counts.len() > 0 {
        lemma_total_of_zeros(counts.drop_last());
    }
}

/// Counts, for each bucket, the identifiers of the dataset that fall into it. Each
/// identifier is fed to a copy of `hasher`, so that none sees the bytes of another.
pub fn fill_buckets<H: KeyedHasher>(hasher: &H, addresses: &[Pubkey2]) -> (buckets: Vec<usize>)
    ensures
        buckets@.len() == BUCKETS,
        forall|b: int|
            0 <= b < BUCKETS ==> buckets@[b] == assignments::<H>(
                hasher.seed(),
                hasher.written(),
                addresses@,
            ).to_multiset().count(b as nat),
        total(buckets@) == addresses@.len(),
{
    broadcast use vstd::seq_lib::group_to_multiset_ensures;
    broadcast use vstd::multiset::group_multiset_axioms;

    let mut buckets: Vec<usize> = Vec::with_capacity(BUCKETS);
    buckets.resize(BUCKETS, 0);
    proof {
        lemma_total_of_zeros(buckets@);
        assert(assignments::<H>(hasher.seed(), hasher.written(), addresses@.take(0)) =~= Seq::<
            nat,
        >::empty());
    }
    let mut i: usize = 0;
    while i < addresses.len()
        invariant
            i <= addresses.len(),
            buckets@.len() == BUCKETS,
            forall|b: int|
                0 <= b < BUCKETS ==> buckets@[b] == assignments::<H>(
                    hasher.seed(),
                    hasher.written(),
                    addresses@.take(i as int),
                ).to_multiset().count(b as nat),
            total(buckets@) == i,
        decreases addresses.len() - i,
    {
        let bucket = address_to_bucket_with_epoch_hasher(BUCKETS, hasher.duplicate(), &addresses[i]);
        proof {
            let before = assignments::<H>(hasher.seed(), hasher.written(), addresses@.take(i as int));
            let after = assignments::<H>(hasher.seed(), hasher.written(), addresses@.take(i + 1));
            assert(addresses@.take(i + 1) =~= addresses@.take(i as int).push(addresses@[i as int]));
            assert(after =~= before.push(bucket as nat));
            vstd::seq_lib::to_multiset_build(before, bucket as nat);
            assert forall|b: nat| b < BUCKETS implies #[trigger] after.to_multiset().count(b)
                == before.to_multiset().count(b) + if b == bucket {
                1nat
            } else {
                0nat
            } by {
                assert(after.to_multiset() == before.to_multiset().insert(bucket as nat));
            }
            lemma_count_within_total(buckets@, bucket as int);
            lemma_total_increment(buckets@, bucket as int);
        }
        buckets[bucket] += 1;
        i = i + 1;
    }
    proof {
        assert(addresses@.take(addresses.len() as int) =~= addresses@);
    }
    buckets
}

/// `ahash::RandomState`, the seeds from which ahash makes its hashers.
#[verifier::external_type_specification]
#[verifier::external_body]
pub struct ExAHashState(ahash::RandomState);

/// `ahash::AHasher`, the hasher of ahash.
#[verifier::external_type_specification]
#[verifier::external_body]
pub struct ExAHasher(ahash::AHasher);

/// The state that `RandomState::with_seeds` of ahash makes from four seeds.
pub uninterp spec fn ahash_state(k0: u64, k1: u64, k2: u64, k3: u64) -> ahash::RandomState;

/// The hasher that `build_hasher` of ahash makes from a state, before it has
/// taken in anything.
pub uninterp spec fn ahash_fresh(state: ahash::RandomState) -> ahash::AHasher;

/// The hasher that `write` of ahash turns a hasher into by feeding it `bytes`.
pub uninterp spec fn ahash_fed(hasher: ahash::AHasher, bytes: Seq<u8>) -> ahash::AHasher;

/// The digest that `finish` of ahash reads from a hasher.
pub uninterp spec fn ahash_digest(hasher: ahash::AHasher) -> u64;

/// `RandomState::with_seeds` of ahash: the state is made from the four seeds
/// alone, and is the one that `ahash_state` names for them.
pub assume_specification[ ahash::RandomState::with_seeds ](
    k0: u64,
    k1: u64,
    k2: u64,
    k3: u64,
) -> (state: ahash::RandomState)
    ensures
        state == ahash_state(k0, k1, k2, k3),
;

/// `BuildHasher::build_hasher` of ahash's `RandomState`: the hasher is made from
/// the state alone, and is the one that `ahash_fresh` names for it.
pub assume_specification[ <ahash::RandomState as std::hash::BuildHasher>::build_hasher ](
    state: &ahash::RandomState,
) -> (hasher: ahash::AHasher)
    ensures
        hasher == ahash_fresh(*state),
;

/// `Hasher::write` of ahash's hasher: what the hasher becomes follows from what it
/// was and from the bytes alone, and is what `ahash_fed` names for them.
#[verifier::external_body]
fn ahash_write(hasher: &mut ahash::AHasher, bytes: &[u8])
    ensures
        *final(hasher) == ahash_fed(*old(hasher), bytes@),
{
    hasher.write(bytes);
}

/// `Hasher::finish` of ahash's hasher: the digest follows from the hasher alone,
/// and is the one that `ahash_digest` names for it. Which number that is, is left
/// open: ahash picks its algorithm when it is built, so two builds may differ.
#[verifier::external_body]
fn ahash_finish(hasher: &ahash::AHasher) -> (digest: u64)
    ensures
        digest == ahash_digest(*hasher),
{
    hasher.finish()
}

/// The bucket that ahash, seeded four times with the epoch, gives to the
/// identifier with the bytes `address`.
pub open spec fn ahash_bucket(buckets: nat, epoch: u64, address: Seq<u8>) -> nat {
    bucket_of(
        buckets,
        ahash_digest(ahash_fed(ahash_fresh(ahash_state(epoch, epoch, epoch, epoch)), address)),
    )
}

/// The bucket of an identifier under ahash seeded with the epoch.
pub fn address_to_bucket(buckets: usize, epoch: u64, address: &Pubkey2) -> (bucket: usize)
    ensures
        bucket == ahash_bucket(buckets as nat, epoch, address@),
        buckets > 0 ==> bucket < buckets,
{
    let state = ahash::RandomState::with_seeds(epoch, epoch, epoch, epoch);
    let mut hasher = state.build_hasher();
    ahash_write(&mut hasher, address.as_bytes().as_slice());
    let digest = ahash_finish(&hasher);
    bucket_index(buckets, digest)
}

/// Under ahash too, the same number of buckets, the same epoch and the same
/// identifier bytes give the same bucket.
pub proof fn lemma_ahash_assignment_deterministic(
    buckets_a: nat,
    buckets_b: nat,
    epoch_a: u64,
    epoch_b: u64,
    address_a: Pubkey2,
    address_b: Pubkey2,
)
    requires
        buckets_a == buckets_b,
        epoch_a == epoch_b,
        address_a@ == address_b@,
    ensures
        ahash_bucket(buckets_a, epoch_a, address_a@) == ahash_bucket(
            buckets_b,
            epoch_b,
            address_b@,
        ),
{
}

} // verus!
