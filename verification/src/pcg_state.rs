use vstd::prelude::*;
use vstd::bytes::{spec_u128_to_le_bytes, spec_u128_from_le_bytes, lemma_auto_spec_u128_to_from_le_bytes};
use rand_pcg::{Pcg64, Pcg64Dxsm};
use rand_pcg::rand_core::RngCore;

verus! {

#[verifier::external_type_specification]
#[verifier::external_body]
pub struct ExLcg128Xsl64(rand_pcg::Lcg128Xsl64);

#[verifier::external_type_specification]
#[verifier::external_body]
pub struct ExLcg128CmDxsm64(rand_pcg::Lcg128CmDxsm64);

#[verifier::external_type_specification]
#[verifier::external_body]
pub struct ExBincodeErrorKind(bincode::ErrorKind);

/// The state of a 128-bit PCG generator: its state word and its increment.
#[derive(Clone, Copy, Debug, PartialEq, Eq, Structural)]
pub struct Pcg128State {
    pub state: u128,
    pub increment: u128,
}

/// The bincode layout of a state: both words, little-endian, state first.
pub open spec fn state_bytes(s: Pcg128State) -> Seq<u8> {
    spec_u128_to_le_bytes(s.state) + spec_u128_to_le_bytes(s.increment)
}

/// The state that a byte string holds: the two little-endian words in its
/// first 32 bytes, or none when it is shorter.
pub open spec fn state_from_bytes(bytes: Seq<u8>) -> Option<Pcg128State> {
    if bytes.len() >= 32 {
        Some(
            Pcg128State {
                state: spec_u128_from_le_bytes(bytes.subrange(0, 16)),
                increment: spec_u128_from_le_bytes(bytes.subrange(16, 32)),
            },
        )
    } else {
        None
    }
}

/// Calls `bincode::serialize` on a pair of `u128`. The contract claims what
/// bincode 1's fixed-width little-endian encoding writes for it: sixteen
/// little-endian bytes per word, first word first, and that writing into a
/// `Vec` with no size limit does not fail.
#[verifier::external_body]
fn bincode_serialize_u128_pair(first: u128, second: u128) -> (res: Result<Vec<u8>, Box<bincode::ErrorKind>>)
    ensures
        res is Ok,
        res matches Ok(bytes) ==> bytes@ == spec_u128_to_le_bytes(first) + spec_u128_to_le_bytes(second),
{
    bincode::serialize(&(first, second))
}

/// Calls `bincode::deserialize` for a pair of `u128`. The contract claims that
/// it succeeds exactly when at least 32 bytes are given (trailing bytes are
/// allowed) and then reads the two little-endian words of the first 32 bytes.
#[verifier::external_body]
fn bincode_deserialize_u128_pair(bytes: &[u8]) -> (res: Result<(u128, u128), Box<bincode::ErrorKind>>)
    ensures
        res is Ok <==> bytes@.len() >= 32,
        res matches Ok(pair) ==> pair == (
            spec_u128_from_le_bytes(bytes@.subrange(0, 16)),
            spec_u128_from_le_bytes(bytes@.subrange(16, 32)),
        ),
{
    bincode::deserialize::<(u128, u128)>(bytes)
}

/// The bytes that `bincode::serialize` writes for a PCG64 generator: its
/// state word and its increment, each as sixteen little-endian bytes.
pub uninterp spec fn pcg64_serialized(rng: Pcg64) -> Seq<u8>;

/// The bytes that `bincode::serialize` writes for a PCG64-DXSM generator: its
/// state word and its increment, each as sixteen little-endian bytes.
pub uninterp spec fn pcg64dxsm_serialized(rng: Pcg64Dxsm) -> Seq<u8>;

/// Calls `bincode::serialize` on a `Pcg64`. The contract claims that it
/// succeeds, that the bytes are the generator's serialised form, and that
/// they are 32 long (the derived `Serialize` writes two `u128` fields).
#[verifier::external_body]
fn bincode_serialize_pcg64(rng: &Pcg64) -> (res: Result<Vec<u8>, Box<bincode::ErrorKind>>)
    ensures
        res is Ok,
        res matches Ok(bytes) ==> bytes@ == pcg64_serialized(*rng),
        res matches Ok(bytes) ==> bytes@.len() == 32,
{
    bincode::serialize(rng)
}

/// Calls `bincode::serialize` on a `Pcg64Dxsm`. The contract claims that it
/// succeeds, that the bytes are the generator's serialised form, and that
/// they are 32 long.
#[verifier::external_body]
fn bincode_serialize_pcg64dxsm(rng: &Pcg64Dxsm) -> (res: Result<Vec<u8>, Box<bincode::ErrorKind>>)
    ensures
        res is Ok,
        res matches Ok(bytes) ==> bytes@ == pcg64dxsm_serialized(*rng),
        res matches Ok(bytes) ==> bytes@.len() == 32,
{
    bincode::serialize(rng)
}

/// Calls `bincode::deserialize` for a `Pcg64`. The contract claims that it
/// succeeds exactly on at least 32 bytes (trailing bytes are allowed), and
/// that the generator it builds serialises back to the first 32 bytes (the
/// derived `Deserialize` takes the two words as they are).
#[verifier::external_body]
fn bincode_deserialize_pcg64(bytes: &[u8]) -> (res: Result<Pcg64, Box<bincode::ErrorKind>>)
    ensures
        res is Ok <==> bytes@.len() >= 32,
        res matches Ok(g) ==> pcg64_serialized(g) == bytes@.subrange(0, 32),
{
    bincode::deserialize::<Pcg64>(bytes)
}

/// Calls `bincode::deserialize` for a `Pcg64Dxsm`. The contract claims that
/// it succeeds exactly on at least 32 bytes, and that the generator it builds
/// serialises back to the first 32 bytes.
#[verifier::external_body]
fn bincode_deserialize_pcg64dxsm(bytes: &[u8]) -> (res: Result<Pcg64Dxsm, Box<bincode::ErrorKind>>)
    ensures
        res is Ok <==> bytes@.len() >= 32,
        res matches Ok(g) ==> pcg64dxsm_serialized(g) == bytes@.subrange(0, 32),
{
    bincode::deserialize::<Pcg64Dxsm>(bytes)
}

/// What `RngCore::next_u64` does on a PCG64 generator whose serialised form is
/// given: the word it returns and the serialised form of the generator after.
pub uninterp spec fn pcg64_next(serialized: Seq<u8>) -> (u64, Seq<u8>);

/// What `RngCore::next_u64` does on a PCG64-DXSM generator whose serialised
/// form is given: the word it returns and the serialised form after.
pub uninterp spec fn pcg64dxsm_next(serialized: Seq<u8>) -> (u64, Seq<u8>);

/// Calls `RngCore::next_u64` on a `Pcg64`. The contract claims that the word
/// drawn and the generator after depend only on the generator's two words
/// (its serialised form): the method steps the state by the increment and
/// outputs a function of the new state.
#[verifier::external_body]
fn rng_core_next_u64_pcg64(rng: &mut Pcg64) -> (word: u64)
    ensures
        word == pcg64_next(pcg64_serialized(*old(rng))).0,
        pcg64_serialized(*final(rng)) == pcg64_next(pcg64_serialized(*old(rng))).1,
{
    rng.next_u64()
}

/// Calls `RngCore::next_u64` on a `Pcg64Dxsm`. The contract claims that the
/// word drawn and the generator after depend only on the generator's two
/// words (its serialised form).
#[verifier::external_body]
fn rng_core_next_u64_pcg64dxsm(rng: &mut Pcg64Dxsm) -> (word: u64)
    ensures
        word == pcg64dxsm_next(pcg64dxsm_serialized(*old(rng))).0,
        pcg64dxsm_serialized(*final(rng)) == pcg64dxsm_next(pcg64dxsm_serialized(*old(rng))).1,
{
    rng.next_u64()
}

/// The serialised form of a PCG64 generator after `n` draws.
pub open spec fn pcg64_advanced(serialized: Seq<u8>, n: nat) -> Seq<u8>
    decreases n,
{
    if n == 0 {
        serialized
    } else {
        pcg64_next(pcg64_advanced(serialized, (n - 1) as nat)).1
    }
}

/// The first `n` words that a PCG64 generator with the given serialised form
/// draws.
pub open spec fn pcg64_words(serialized: Seq<u8>, n: nat) -> Seq<u64>
    decreases n,
{
    if n == 0 {
        Seq::empty()
    } else {
        pcg64_words(serialized, (n - 1) as nat).push(
            pcg64_next(pcg64_advanced(serialized, (n - 1) as nat)).0,
        )
    }
}

/// The serialised form of a PCG64-DXSM generator after `n` draws.
pub open spec fn pcg64dxsm_advanced(serialized: Seq<u8>, n: nat) -> Seq<u8>
    decreases n,
{
    if n == 0 {
        serialized
    } else {
        pcg64dxsm_next(pcg64dxsm_advanced(serialized, (n - 1) as nat)).1
    }
}

/// The first `n` words that a PCG64-DXSM generator with the given serialised
/// form draws.
pub open spec fn pcg64dxsm_words(serialized: Seq<u8>, n: nat) -> Seq<u64>
    decreases n,
{
    if n == 0 {
        Seq::empty()
    } else {
        pcg64dxsm_words(serialized, (n - 1) as nat).push(
            pcg64dxsm_next(pcg64dxsm_advanced(serialized, (n - 1) as nat)).0,
        )
    }
}

impl Pcg128State {
    /// Encodes the state in the layout that both generators serialise to.
    pub fn to_bytes(&self) -> (bytes: Vec<u8>)
        ensures
            bytes@ == state_bytes(*self),
            bytes@ == spec_u128_to_le_bytes(self.state) + spec_u128_to_le_bytes(self.increment),
            bytes@.len() == 32,
    {
        proof {
            lemma_auto_spec_u128_to_from_le_bytes();
        }
        bincode_serialize_u128_pair(self.state, self.increment).unwrap()
    }

    /// Decodes a state from the first 32 bytes; `None` on fewer bytes.
    pub fn from_bytes(bytes: &[u8]) -> (r: Option<Pcg128State>)
        ensures
            r == state_from_bytes(bytes@),
            r is Some <==> bytes@.len() >= 32,
            r matches Some(s) ==> s.state == spec_u128_from_le_bytes(bytes@.subrange(0, 16)),
            r matches Some(s) ==> s.increment == spec_u128_from_le_bytes(bytes@.subrange(16, 32)),
    {
        match bincode_deserialize_u128_pair(bytes) {
            Ok((state, increment)) => Some(Pcg128State { state, increment }),
            Err(_) => None,
        }
    }
}

/// Decoding the encoding of a state gives the state back.
pub proof fn lemma_state_bytes_round_trip(s: Pcg128State)
    ensures
        state_bytes(s).len() == 32,
        state_from_bytes(state_bytes(s)) == Some(s),
{
    lemma_auto_spec_u128_to_from_le_bytes();
    let b = state_bytes(s);
    assert(b.subrange(0, 16) =~= spec_u128_to_le_bytes(s.state));
    assert(b.subrange(16, 32) =~= spec_u128_to_le_bytes(s.increment));
}

/// Encoding the state that a byte string holds gives back its first 32 bytes.
pub proof fn lemma_bytes_state_round_trip(bytes: Seq<u8>)
    requires
        bytes.len() >= 32,
    ensures
        state_from_bytes(bytes) matches Some(s) && state_bytes(s) == bytes.subrange(0, 32),
{
    lemma_auto_spec_u128_to_from_le_bytes();
    let lo = bytes.subrange(0, 16);
    let hi = bytes.subrange(16, 32);
    assert(spec_u128_to_le_bytes(spec_u128_from_le_bytes(lo)) == lo);
    assert(spec_u128_to_le_bytes(spec_u128_from_le_bytes(hi)) == hi);
    assert(lo + hi =~= bytes.subrange(0, 32));
}

/// Reads the state word and the increment of a PCG64 generator: the two
/// words of its serialised form.
pub fn pcg64_parts(rng: &Pcg64) -> (parts: (u128, u128))
    ensures
        state_from_bytes(pcg64_serialized(*rng)) == Some(Pcg128State { state: parts.0, increment: parts.1 }),
        state_bytes(Pcg128State { state: parts.0, increment: parts.1 }) == pcg64_serialized(*rng),
        pcg64_serialized(*rng).len() == 32,
        parts.0 == spec_u128_from_le_bytes(pcg64_serialized(*rng).subrange(0, 16)),
        parts.1 == spec_u128_from_le_bytes(pcg64_serialized(*rng).subrange(16, 32)),
        pcg64_serialized(*rng) == spec_u128_to_le_bytes(parts.0) + spec_u128_to_le_bytes(parts.1),
{
    let bytes = bincode_serialize_pcg64(rng).unwrap();
    proof {
        lemma_bytes_state_round_trip(bytes@);
        assert(bytes@.subrange(0, 32) =~= bytes@);
    }
    let snapshot = Pcg128State::from_bytes(bytes.as_slice()).unwrap();
    (snapshot.state, snapshot.increment)
}

/// Reads the state word and the increment of a PCG64-DXSM generator: the two
/// words of its serialised form.
pub fn pcg64dxsm_parts(rng: &Pcg64Dxsm) -> (parts: (u128, u128))
    ensures
        state_from_bytes(pcg64dxsm_serialized(*rng)) == Some(Pcg128State { state: parts.0, increment: parts.1 }),
        state_bytes(Pcg128State { state: parts.0, increment: parts.1 }) == pcg64dxsm_serialized(*rng),
        pcg64dxsm_serialized(*rng).len() == 32,
        parts.0 == spec_u128_from_le_bytes(pcg64dxsm_serialized(*rng).subrange(0, 16)),
        parts.1 == spec_u128_from_le_bytes(pcg64dxsm_serialized(*rng).subrange(16, 32)),
        pcg64dxsm_serialized(*rng) == spec_u128_to_le_bytes(parts.0) + spec_u128_to_le_bytes(parts.1),
{
    let bytes = bincode_serialize_pcg64dxsm(rng).unwrap();
    proof {
        lemma_bytes_state_round_trip(bytes@);
        assert(bytes@.subrange(0, 32) =~= bytes@);
    }
    let snapshot = Pcg128State::from_bytes(bytes.as_slice()).unwrap();
    (snapshot.state, snapshot.increment)
}

/// Builds a PCG64 generator whose serialised form holds the given state word
/// and increment.
pub fn pcg64_from_parts(state: u128, increment: u128) -> (g: Pcg64)
    ensures
        pcg64_serialized(g) == state_bytes(Pcg128State { state, increment }),
        pcg64_serialized(g) == spec_u128_to_le_bytes(state) + spec_u128_to_le_bytes(increment),
{
    let snapshot = Pcg128State { state, increment };
    let bytes = snapshot.to_bytes();
    proof {
        assert(bytes@.subrange(0, 32) =~= bytes@);
    }
    bincode_deserialize_pcg64(bytes.as_slice()).unwrap()
}

/// Builds a PCG64-DXSM generator whose serialised form holds the given state
/// word and increment.
pub fn pcg64dxsm_from_parts(state: u128, increment: u128) -> (g: Pcg64Dxsm)
    ensures
        pcg64dxsm_serialized(g) == state_bytes(Pcg128State { state, increment }),
        pcg64dxsm_serialized(g) == spec_u128_to_le_bytes(state) + spec_u128_to_le_bytes(increment),
{
    let snapshot = Pcg128State { state, increment };
    let bytes = snapshot.to_bytes();
    proof {
        assert(bytes@.subrange(0, 32) =~= bytes@);
    }
    bincode_deserialize_pcg64dxsm(bytes.as_slice()).unwrap()
}

/// Reading the parts of a PCG64 generator rebuilt from `(state, increment)`
/// gives back `(state, increment)`: any pair that `pcg64_parts` can return
/// for it is that pair.
pub proof fn lemma_pcg64_parts_of_rebuilt(state: u128, increment: u128, g: Pcg64, parts: (u128, u128))
    requires
        pcg64_serialized(g) == state_bytes(Pcg128State { state, increment }),
        state_from_bytes(pcg64_serialized(g)) == Some(Pcg128State { state: parts.0, increment: parts.1 }),
    ensures
        parts == (state, increment),
{
    lemma_state_bytes_round_trip(Pcg128State { state, increment });
}

/// Reading the parts of a PCG64-DXSM generator rebuilt from
/// `(state, increment)` gives back `(state, increment)`.
pub proof fn lemma_pcg64dxsm_parts_of_rebuilt(state: u128, increment: u128, g: Pcg64Dxsm, parts: (u128, u128))
    requires
        pcg64dxsm_serialized(g) == state_bytes(Pcg128State { state, increment }),
        state_from_bytes(pcg64dxsm_serialized(g)) == Some(Pcg128State { state: parts.0, increment: parts.1 }),
    ensures
        parts == (state, increment),
{
    lemma_state_bytes_round_trip(Pcg128State { state, increment });
}

/// Draws `count` words from a PCG64 generator, in order.
pub fn pcg64_draw_words(rng: &mut Pcg64, count: usize) -> (words: Vec<u64>)
    ensures
        words@.len() == count,
        words@ == pcg64_words(pcg64_serialized(*old(rng)), count as nat),
        forall|k: int| 0 <= k < count ==> #[trigger] words@[k] == pcg64_next(pcg64_advanced(pcg64_serialized(*old(rng)), k as nat)).0,
        pcg64_serialized(*final(rng)) == pcg64_advanced(pcg64_serialized(*old(rng)), count as nat),
{
    let ghost start = pcg64_serialized(*rng);
    let mut words: Vec<u64> = Vec::new();
    let mut i: usize = 0;
    while i < count
        invariant
            i <= count,
            words@.len() == i,
            words@ == pcg64_words(start, i as nat),
            forall|k: int| 0 <= k < i ==> #[trigger] words@[k] == pcg64_next(pcg64_advanced(start, k as nat)).0,
            pcg64_serialized(*rng) == pcg64_advanced(start, i as nat),
        decreases count - i,
    {
        let w = rng_core_next_u64_pcg64(rng);
        words.push(w);
        i = i + 1;
    }
    words
}

/// Draws `count` words from a PCG64-DXSM generator, in order.
pub fn pcg64dxsm_draw_words(rng: &mut Pcg64Dxsm, count: usize) -> (words: Vec<u64>)
    ensures
        words@.len() == count,
        words@ == pcg64dxsm_words(pcg64dxsm_serialized(*old(rng)), count as nat),
        forall|k: int| 0 <= k < count ==> #[trigger] words@[k] == pcg64dxsm_next(pcg64dxsm_advanced(pcg64dxsm_serialized(*old(rng)), k as nat)).0,
        pcg64dxsm_serialized(*final(rng)) == pcg64dxsm_advanced(pcg64dxsm_serialized(*old(rng)), count as nat),
{
    let ghost start = pcg64dxsm_serialized(*rng);
    let mut words: Vec<u64> = Vec::new();
    let mut i: usize = 0;
    while i < count
        invariant
            i <= count,
            words@.len() == i,
            words@ == pcg64dxsm_words(start, i as nat),
            forall|k: int| 0 <= k < i ==> #[trigger] words@[k] == pcg64dxsm_next(pcg64dxsm_advanced(start, k as nat)).0,
            pcg64dxsm_serialized(*rng) == pcg64dxsm_advanced(start, i as nat),
        decreases count - i,
    {
        let w = rng_core_next_u64_pcg64dxsm(rng);
        words.push(w);
        i = i + 1;
    }
    words
}

/// A PCG64 generator rebuilt from the parts read out of another resumes its
/// stream: both draw the same words, and stay in the same state, however many
/// words are drawn.
pub proof fn lemma_pcg64_rebuilt_resumes_stream(a: Pcg64, parts: (u128, u128), b: Pcg64, n: nat)
    requires
        state_bytes(Pcg128State { state: parts.0, increment: parts.1 }) == pcg64_serialized(a),
        pcg64_serialized(b) == state_bytes(Pcg128State { state: parts.0, increment: parts.1 }),
    ensures
        pcg64_words(pcg64_serialized(a), n) == pcg64_words(pcg64_serialized(b), n),
        pcg64_advanced(pcg64_serialized(a), n) == pcg64_advanced(pcg64_serialized(b), n),
{
}

/// A PCG64-DXSM generator rebuilt from the parts read out of another resumes
/// its stream: both draw the same words, and stay in the same state, however
/// many words are drawn.
pub proof fn lemma_pcg64dxsm_rebuilt_resumes_stream(a: Pcg64Dxsm, parts: (u128, u128), b: Pcg64Dxsm, n: nat)
    requires
        state_bytes(Pcg128State { state: parts.0, increment: parts.1 }) == pcg64dxsm_serialized(a),
        pcg64dxsm_serialized(b) == state_bytes(Pcg128State { state: parts.0, increment: parts.1 }),
    ensures
        pcg64dxsm_words(pcg64dxsm_serialized(a), n) == pcg64dxsm_words(pcg64dxsm_serialized(b), n),
        pcg64dxsm_advanced(pcg64dxsm_serialized(a), n) == pcg64dxsm_advanced(pcg64dxsm_serialized(b), n),
{
}

/// The layout of a state in bytes: the state word's sixteen little-endian
/// bytes, then the increment's; reading 32 or more bytes takes the state word
/// from bytes 0..16 and the increment from bytes 16..32, whatever their values.
pub proof fn lemma_state_layout(s: Pcg128State, bytes: Seq<u8>)
    ensures
        state_bytes(s) == spec_u128_to_le_bytes(s.state) + spec_u128_to_le_bytes(s.increment),
        state_bytes(s).subrange(0, 16) == spec_u128_to_le_bytes(s.state),
        state_bytes(s).subrange(16, 32) == spec_u128_to_le_bytes(s.increment),
        bytes.len() >= 32 ==> state_from_bytes(bytes) == Some(
            Pcg128State {
                state: spec_u128_from_le_bytes(bytes.subrange(0, 16)),
                increment: spec_u128_from_le_bytes(bytes.subrange(16, 32)),
            },
        ),
        bytes.len() < 32 ==> state_from_bytes(bytes) is None,
{
    lemma_auto_spec_u128_to_from_le_bytes();
    let b = state_bytes(s);
    assert(b.subrange(0, 16) =~= spec_u128_to_le_bytes(s.state));
    assert(b.subrange(16, 32) =~= spec_u128_to_le_bytes(s.increment));
}

/// The words drawn from a PCG64 generator come one per step: the `k`-th of
/// the first `n` words is the word `next_u64` returns after `k` earlier draws.
pub proof fn lemma_pcg64_words_are_successive_draws(serialized: Seq<u8>, n: nat)
    ensures
        pcg64_words(serialized, n).len() == n,
        forall|k: int| 0 <= k < n ==> #[trigger] pcg64_words(serialized, n)[k]
            == pcg64_next(pcg64_advanced(serialized, k as nat)).0,
    decreases n,
{
    if n > 0 {
        lemma_pcg64_words_are_successive_draws(serialized, (n - 1) as nat);
    }
}

/// Drawing `a` words and then `b` more from a PCG64 generator gives the same
/// words, and leaves it in the same state, as drawing `a + b` at once.
pub proof fn lemma_pcg64_draws_compose(serialized: Seq<u8>, a: nat, b: nat)
    ensures
        pcg64_advanced(serialized, a + b) == pcg64_advanced(pcg64_advanced(serialized, a), b),
        pcg64_words(serialized, a + b) == pcg64_words(serialized, a) + pcg64_words(pcg64_advanced(serialized, a), b),
    decreases b,
{
    if b > 0 {
        lemma_pcg64_draws_compose(serialized, a, (b - 1) as nat);
        assert(pcg64_words(serialized, a + b) =~= pcg64_words(serialized, a) + pcg64_words(pcg64_advanced(serialized, a), b));
    } else {
        assert(pcg64_words(serialized, a) + pcg64_words(pcg64_advanced(serialized, a), 0) =~= pcg64_words(serialized, a));
    }
}

/// The words drawn from a PCG64-DXSM generator come one per step: the `k`-th
/// of the first `n` words is the word `next_u64` returns after `k` earlier
/// draws.
pub proof fn lemma_pcg64dxsm_words_are_successive_draws(serialized: Seq<u8>, n: nat)
    ensures
        pcg64dxsm_words(serialized, n).len() == n,
        forall|k: int| 0 <= k < n ==> #[trigger] pcg64dxsm_words(serialized, n)[k]
            == pcg64dxsm_next(pcg64dxsm_advanced(serialized, k as nat)).0,
    decreases n,
{
    if n > 0 {
        lemma_pcg64dxsm_words_are_successive_draws(serialized, (n - 1) as nat);
    }
}

/// Drawing `a` words and then `b` more from a PCG64-DXSM generator gives the
/// same words, and leaves it in the same state, as drawing `a + b` at once.
pub proof fn lemma_pcg64dxsm_draws_compose(serialized: Seq<u8>, a: nat, b: nat)
    ensures
        pcg64dxsm_advanced(serialized, a + b) == pcg64dxsm_advanced(pcg64dxsm_advanced(serialized, a), b),
        pcg64dxsm_words(serialized, a + b) == pcg64dxsm_words(serialized, a) + pcg64dxsm_words(pcg64dxsm_advanced(serialized, a), b),
    decreases b,
{
    if b > 0 {
        lemma_pcg64dxsm_draws_compose(serialized, a, (b - 1) as nat);
        assert(pcg64dxsm_words(serialized, a + b) =~= pcg64dxsm_words(serialized, a) + pcg64dxsm_words(pcg64dxsm_advanced(serialized, a), b));
    } else {
        assert(pcg64dxsm_words(serialized, a) + pcg64dxsm_words(pcg64dxsm_advanced(serialized, a), 0) =~= pcg64dxsm_words(serialized, a));
    }
}

} // verus!
