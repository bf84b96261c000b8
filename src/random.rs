use vstd::prelude::*;
use vstd::arithmetic::div_mod::{lemma_add_mod_noop, lemma_sub_mod_noop, lemma_mod_bound};
use secret_cosmwasm_std::StdError;

use crate::error::ContractError;

verus! {

/// Number of bytes of key material derived for every draw.
pub const SECRET_LENGTH: usize = 64;

/// Number of bytes of the little-endian encoding of the draw counter.
pub const COUNTER_BYTES: usize = 16;

/// 2^64, the modulus of all share arithmetic.
pub open spec fn modulus() -> int {
    0x1_0000_0000_0000_0000
}

/// `n` little-endian base-256 digits of `v` (higher digits are dropped).
pub open spec fn le_bytes(v: nat, n: nat) -> Seq<u8>
    decreases n,
{
    if n == 0 {
        Seq::empty()
    } else {
        seq![(v % 256) as u8] + le_bytes(v / 256, (n - 1) as nat)
    }
}

/// The number whose little-endian base-256 digits are `s`.
pub open spec fn le_value(s: Seq<u8>) -> nat
    decreases s.len(),
{
    if s.len() == 0 {
        0
    } else {
        s[0] as nat + 256 * le_value(s.drop_first())
    }
}

/// 256 to the power `n`.
pub open spec fn pow256(n: nat) -> nat
    decreases n,
{
    if n == 0 {
        1
    } else {
        256 * pow256((n - 1) as nat)
    }
}

/// A number of `k` little-endian bytes is below 256^k.
pub proof fn lemma_le_value_bound(s: Seq<u8>)
    ensures
        le_value(s) < pow256(s.len()),
    decreases s.len(),
{
    if s.len() > 0 {
        lemma_le_value_bound(s.drop_first());
        assert(le_value(s) < pow256(s.len())) by (nonlinear_arith)
            requires
                le_value(s) == s[0] as nat + 256 * le_value(s.drop_first()),
                le_value(s.drop_first()) < pow256(s.drop_first().len()),
                pow256(s.len()) == 256 * pow256(s.drop_first().len()),
                s[0] < 256,
        ;
    }
}

/// Little-endian encoding of `v` on `n` bytes.
pub fn le_bytes_of(v: u128, n: usize) -> (r: Vec<u8>)
    ensures
        r@ == le_bytes(v as nat, n as nat),
{
    let mut out: Vec<u8> = Vec::new();
    let mut x: u128 = v;
    let mut i: usize = 0;
    while i < n
        invariant
            i <= n,
            out@ + le_bytes(x as nat, (n - i) as nat) == le_bytes(v as nat, n as nat),
        decreases n - i,
    {
        let ghost before = out@;
        let ghost rest = le_bytes(x as nat, (n - i) as nat);
        out.push((x % 256) as u8);
        assert(rest == seq![(x % 256) as u8] + le_bytes((x / 256) as nat, (n - i - 1) as nat));
        x = x / 256;
        i = i + 1;
        assert(out@ + le_bytes(x as nat, (n - i) as nat) =~= before + rest);
    }
    out
}

/// The `u64` whose little-endian bytes are the first eight of `b`.
pub fn u64_from_le(b: &[u8]) -> (r: u64)
    requires
        b@.len() >= 8,
    ensures
        r as nat == le_value(b@.take(8)),
{
    let mut acc: u64 = 0;
    let mut i: usize = 8;
    while i > 0
        invariant
            i <= 8,
            b@.len() >= 8,
            acc as nat == le_value(b@.subrange(i as int, 8)),
        decreases i,
    {
        let ghost tail = b@.subrange(i as int, 8);
        let ghost longer = b@.subrange(i - 1, 8);
        assert(longer.drop_first() =~= tail);
        proof {
            lemma_le_value_bound(longer);
            reveal_with_fuel(pow256, 9);
            assert(pow256(longer.len()) <= pow256(8));
        }
        let d = b[i - 1];
        assert(le_value(longer) == d as nat + 256 * acc as nat);
        acc = d as u64 + 256 * acc;
        i = i - 1;
    }
    assert(b@.subrange(0, 8) =~= b@.take(8));
    acc
}

/// The `u128` whose little-endian bytes are the first sixteen of `b`.
pub fn u128_from_le(b: &[u8]) -> (r: u128)
    requires
        b@.len() >= 16,
    ensures
        r as nat == le_value(b@.take(16)),
{
    let mut acc: u128 = 0;
    let mut i: usize = 16;
    while i > 0
        invariant
            i <= 16,
            b@.len() >= 16,
            acc as nat == le_value(b@.subrange(i as int, 16)),
        decreases i,
    {
        let ghost tail = b@.subrange(i as int, 16);
        let ghost longer = b@.subrange(i - 1, 16);
        assert(longer.drop_first() =~= tail);
        proof {
            lemma_le_value_bound(longer);
            reveal_with_fuel(pow256, 17);
            assert(pow256(longer.len()) <= pow256(16));
        }
        let d = b[i - 1];
        assert(le_value(longer) == d as nat + 256 * acc as nat);
        acc = d as u128 + 256 * acc;
        i = i - 1;
    }
    assert(b@.subrange(0, 16) =~= b@.take(16));
    acc
}

/// Number of entropy bytes read to seed the counter.
pub const RANDOM_SEED_SIZE: usize = 16;

/// The counter a deployment starts from: the first sixteen entropy bytes read as a
/// little-endian number, reduced modulo 1000. Fails when fewer than sixteen bytes are available.
pub fn init_counter(random: &Option<Vec<u8>>) -> (r: Result<u128, ContractError>)
    ensures
        (random is None || random->Some_0@.len() < RANDOM_SEED_SIZE) <==> r == Err::<u128, ContractError>(ContractError::EntropyUnavailable),
        (random is Some && random->Some_0@.len() >= RANDOM_SEED_SIZE) ==> r is Ok,
        r matches Ok(c) ==> c < 1000 && c as nat == le_value(random->Some_0@.take(RANDOM_SEED_SIZE as int)) % 1000,
{
    match random {
        Some(seed) => {
            if seed.len() < RANDOM_SEED_SIZE {
                return Err(ContractError::EntropyUnavailable);
            }
            let seed_number = u128_from_le(seed.as_slice());
            Ok(seed_number % 1000)
        },
        None => Err(ContractError::EntropyUnavailable),
    }
}

/// The error type of the key derivation, carried through without being inspected.
#[verifier::external_type_specification]
#[verifier::external_body]
pub struct ExStdError(StdError);

/// What `secret_toolkit_crypto::hkdf_sha_512` derives from a salt, input keying material,
/// context information and an output length.
pub uninterp spec fn hkdf_sha_512_of(salt: Seq<u8>, ikm: Seq<u8>, info: Seq<u8>, length: nat) -> Seq<u8>;

/// Relies on secret_toolkit_crypto::hkdf_sha_512: HKDF-SHA-512 expanded to `length` bytes,
/// which fails only when `length` exceeds 255 blocks of 64 bytes.
#[verifier::external_body]
fn hkdf_sha_512(salt: &Vec<u8>, ikm: &[u8], info: &[u8], length: usize) -> (r: Result<Vec<u8>, StdError>)
    ensures
        r is Ok <==> length <= 255 * 64,
        r matches Ok(okm) ==> okm@ == hkdf_sha_512_of(salt@, ikm@, info@, length as nat),
        r matches Ok(okm) ==> okm@.len() == length,
{
    secret_toolkit_crypto::hkdf_sha_512(&Some(salt.clone()), ikm, info, length)
}

/// The all-zero salt of the derivation.
pub open spec fn zero_salt() -> Seq<u8> {
    Seq::new(SECRET_LENGTH as nat, |i: int| 0u8)
}

/// The value drawn from the stream of `entropy` at position `counter`.
pub open spec fn stream_value(entropy: Seq<u8>, counter: u128) -> u64 {
    le_value(
        hkdf_sha_512_of(zero_salt(), entropy, le_bytes(counter as nat, COUNTER_BYTES as nat), SECRET_LENGTH as nat).take(8),
    ) as u64
}

/// The `n` values drawn from the stream of `entropy` at positions `start`, `start + 1`, ...
pub open spec fn stream_draws(entropy: Seq<u8>, start: int, n: nat) -> Seq<u64> {
    Seq::new(n, |i: int| stream_value(entropy, (start + i) as u128))
}

/// A counter-indexed stream of pseudorandom `u64` values expanded from one entropy value.
pub struct RandomStream {
    entropy: Vec<u8>,
    counter: u128,
}

impl RandomStream {
    /// The entropy value the stream expands.
    pub closed spec fn seed_bytes(&self) -> Seq<u8> {
        self.entropy@
    }

    /// The counter value the next draw consumes.
    pub closed spec fn position(&self) -> u128 {
        self.counter
    }

    /// A stream over `entropy` whose next draw consumes `counter`; fails when no entropy is
    /// available.
    pub fn new(entropy: Option<Vec<u8>>, counter: u128) -> (r: Result<RandomStream, ContractError>)
        ensures
            r is Ok <==> entropy is Some,
            entropy is None <==> r == Err::<RandomStream, ContractError>(ContractError::EntropyUnavailable),
            r matches Ok(s) ==> s.seed_bytes() == entropy->Some_0@ && s.position() == counter,
    {
        match entropy {
            Some(e) => Ok(RandomStream { entropy: e, counter }),
            None => Err(ContractError::EntropyUnavailable),
        }
    }

    /// The counter value to persist after this stream's draws.
    pub fn counter(&self) -> (r: u128)
        ensures
            r == self.position(),
    {
        self.counter
    }
}

/// Draws the value at the stream's position and advances the position by one.
pub fn generate_random_number(stream: &mut RandomStream) -> (r: u64)
    requires
        old(stream).position() < u128::MAX,
    ensures
        r == stream_value(old(stream).seed_bytes(), old(stream).position()),
        final(stream).seed_bytes() == old(stream).seed_bytes(),
        final(stream).position() == old(stream).position() + 1,
{
    let salt: Vec<u8> = vec![0u8; SECRET_LENGTH];
    assert(salt@ =~= zero_salt());
    let info = le_bytes_of(stream.counter, COUNTER_BYTES);
    let derived = hkdf_sha_512(&salt, stream.entropy.as_slice(), info.as_slice(), SECRET_LENGTH);
    stream.counter = stream.counter + 1;
    match derived {
        Ok(okm) => u64_from_le(okm.as_slice()),
        Err(_) => 0,
    }
}

/// A draw depends on the entropy and the counter alone: two streams over the same entropy at
/// the same position draw the same value.
pub proof fn lemma_draw_deterministic(a: RandomStream, b: RandomStream)
    requires
        a.seed_bytes() == b.seed_bytes(),
        a.position() == b.position(),
    ensures
        stream_value(a.seed_bytes(), a.position()) == stream_value(b.seed_bytes(), b.position()),
{
}

/// Sum of `s` over the integers.
pub open spec fn seq_sum(s: Seq<u64>) -> int
    decreases s.len(),
{
    if s.len() == 0 {
        0
    } else {
        seq_sum(s.drop_last()) + s.last() as int
    }
}

/// Sum of `s` modulo 2^64.
pub open spec fn wrapping_sum(s: Seq<u64>) -> u64 {
    (seq_sum(s) % modulus()) as u64
}

/// The shares of `secret`: the `draws` followed by the share that completes the sum.
pub open spec fn split_shares(secret: u64, draws: Seq<u64>) -> Seq<u64> {
    draws.push(((secret as int - seq_sum(draws)) % modulus()) as u64)
}

/// Whatever the draws, the shares of a secret add up, modulo 2^64, to the secret.
pub proof fn lemma_split_reconstructs(secret: u64, draws: Seq<u64>)
    ensures
        wrapping_sum(split_shares(secret, draws)) == secret,
{
    let s = split_shares(secret, draws);
    let m = modulus();
    let last = (secret as int - seq_sum(draws)) % m;
    assert(s.drop_last() =~= draws);
    lemma_mod_bound(secret as int - seq_sum(draws), m);
    lemma_add_mod_noop(seq_sum(draws), secret as int - seq_sum(draws), m);
    lemma_add_mod_noop(seq_sum(draws), last, m);
    lemma_mod_bound(seq_sum(draws), m);
    assert((seq_sum(draws) + last) % m == (seq_sum(draws) + (secret as int - seq_sum(draws))) % m) by {
        assert(last % m == last) by {
            vstd::arithmetic::div_mod::lemma_small_mod(last as nat, m as nat);
        }
    }
    vstd::arithmetic::div_mod::lemma_small_mod(secret as nat, m as nat);
}

proof fn lemma_wrapping_sum_push(s: Seq<u64>, x: u64)
    ensures
        wrapping_sum(s.push(x)) == vstd::wrapping::u64_specs::wrapping_add(wrapping_sum(s), x),
{
    let m = modulus();
    assert(s.push(x).drop_last() =~= s);
    lemma_mod_bound(seq_sum(s), m);
    lemma_add_mod_noop(seq_sum(s), x as int, m);
    vstd::arithmetic::div_mod::lemma_small_mod(x as nat, m as nat);
    let w = seq_sum(s) % m;
    if w + x >= m {
        vstd::arithmetic::div_mod::lemma_small_mod((w + x - m) as nat, m as nat);
        vstd::arithmetic::div_mod::lemma_mod_multiples_vanish(1, w + x - m, m);
    } else {
        vstd::arithmetic::div_mod::lemma_small_mod((w + x) as nat, m as nat);
    }
}

/// Splits `secret` into `players` shares: `players - 1` values drawn from the stream, then the
/// share that makes all of them add up, modulo 2^64, to `secret`.
pub fn additive_secret_sharing(stream: &mut RandomStream, players: usize, secret: u64) -> (r: Vec<u64>)
    requires
        players >= 1,
        old(stream).position() + players - 1 <= u128::MAX,
    ensures
        r@ == split_shares(secret, stream_draws(old(stream).seed_bytes(), old(stream).position() as int, (players - 1) as nat)),
        r@.len() == players,
        wrapping_sum(r@) == secret,
        final(stream).seed_bytes() == old(stream).seed_bytes(),
        final(stream).position() == old(stream).position() + players - 1,
{
    let ghost e = stream.seed_bytes();
    let ghost start = stream.position() as int;
    let mut shares: Vec<u64> = Vec::with_capacity(players);
    let mut sum: u64 = 0;
    let mut i: usize = 0;
    while i < players - 1
        invariant
            i <= players - 1,
            stream.seed_bytes() == e,
            stream.position() == start + i,
            start + players - 1 <= u128::MAX,
            shares@ == stream_draws(e, start, i as nat),
            sum == wrapping_sum(shares@),
        decreases players - 1 - i,
    {
        let share = generate_random_number(stream);
        proof {
            lemma_wrapping_sum_push(shares@, share);
        }
        shares.push(share);
        sum = sum.wrapping_add(share);
        i = i + 1;
        assert(shares@ =~= stream_draws(e, start, i as nat));
    }
    let ghost draws = shares@;
    proof {
        let m = modulus();
        lemma_mod_bound(seq_sum(draws), m);
        lemma_sub_mod_noop(secret as int, seq_sum(draws), m);
        vstd::arithmetic::div_mod::lemma_small_mod(secret as nat, m as nat);
        let w = seq_sum(draws) % m;
        if secret as int - w < 0 {
            vstd::arithmetic::div_mod::lemma_small_mod((secret - w + m) as nat, m as nat);
            vstd::arithmetic::div_mod::lemma_mod_multiples_vanish(1, secret - w, m);
        } else {
            vstd::arithmetic::div_mod::lemma_small_mod((secret - w) as nat, m as nat);
        }
    }
    shares.push(secret.wrapping_sub(sum));
    proof {
        lemma_split_reconstructs(secret, draws);
    }
    shares
}

/// Adds the shares modulo 2^64.
pub fn reconstruct_secret(shares: &Vec<u64>) -> (r: u64)
    ensures
        r == wrapping_sum(shares@),
{
    let mut sum: u64 = 0;
    let mut i: usize = 0;
    while i < shares.len()
        invariant
            i <= shares@.len(),
            sum == wrapping_sum(shares@.take(i as int)),
        decreases shares@.len() - i,
    {
        proof {
            lemma_wrapping_sum_push(shares@.take(i as int), shares@[i as int]);
            assert(shares@.take(i as int).push(shares@[i as int]) =~= shares@.take(i + 1));
        }
        sum = sum.wrapping_add(shares[i]);
        i = i + 1;
    }
    assert(shares@.take(i as int) =~= shares@);
    sum
}

} // verus!
