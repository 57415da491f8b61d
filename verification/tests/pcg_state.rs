use multihawk::pcg_state::{
    pcg64_draw_words, pcg64_from_parts, pcg64_parts, pcg64dxsm_draw_words, pcg64dxsm_from_parts,
    pcg64dxsm_parts, Pcg128State,
};
use rand::{RngCore, SeedableRng};
use rand_pcg::{Pcg64, Pcg64Dxsm};

#[test]
fn resume_pcg64_exact() {
    let mut a = Pcg64::from_os_rng();
    let _ = a.next_u64();
    let (state, increment) = pcg64_parts(&a);

    let mut b = pcg64_from_parts(state, increment);
    assert_eq!(a.next_u64(), b.next_u64());
}

#[test]
fn resume_pcg64dxsm_exact() {
    let mut a = Pcg64Dxsm::from_os_rng();
    let _ = a.next_u64();
    let (state, increment) = pcg64dxsm_parts(&a);

    let mut b = pcg64dxsm_from_parts(state, increment);
    assert_eq!(a.next_u64(), b.next_u64());
}

#[test]
fn pcg64_parts_of_reference_generator() {
    // new(42, 54) sets increment (54 << 1) | 1 and advances the state once.
    let rng = Pcg64::new(42, 54);
    let (state, increment) = pcg64_parts(&rng);
    assert_eq!(increment, 109);
    assert_eq!(state, 0xde2bce05be013be3d3f6c45a41e54320);
}

#[test]
fn pcg64_from_parts_reproduces_reference_stream() {
    let mut rng = pcg64_from_parts(0xde2bce05be013be3d3f6c45a41e54320, 109);
    assert_eq!(rng.next_u64(), 0x86b1da1d72062b68);
    assert_eq!(rng.next_u64(), 0x1304aa46c9853d39);
}

#[test]
fn pcg64dxsm_parts_of_reference_generator() {
    let rng = Pcg64Dxsm::new(42, 54);
    let (state, increment) = pcg64dxsm_parts(&rng);
    assert_eq!(increment, 109);
    assert_eq!(state, 0x80ed5f0774fe8f5330);
}

#[test]
fn pcg64dxsm_from_parts_reproduces_reference_stream() {
    let mut rng = pcg64dxsm_from_parts(0x80ed5f0774fe8f5330, 109);
    assert_eq!(rng.next_u64(), 17331114245835578256);
    assert_eq!(rng.next_u64(), 10267467544499227306);
}

#[test]
fn parts_round_trip_through_generator() {
    let state: u128 = 0x0123_4567_89ab_cdef_fedc_ba98_7654_3210;
    let increment: u128 = 0xdead_beef_0000_0001_0000_0000_0000_0003;
    assert_eq!(pcg64_parts(&pcg64_from_parts(state, increment)), (state, increment));
    assert_eq!(pcg64dxsm_parts(&pcg64dxsm_from_parts(state, increment)), (state, increment));
}

#[test]
fn state_bytes_are_little_endian_state_first() {
    let s = Pcg128State { state: 0x0102, increment: 0x0a0b0c };
    let bytes = s.to_bytes();
    let mut expected = vec![0u8; 32];
    expected[0] = 0x02;
    expected[1] = 0x01;
    expected[16] = 0x0c;
    expected[17] = 0x0b;
    expected[18] = 0x0a;
    assert_eq!(bytes, expected);
}

#[test]
fn state_bytes_round_trip() {
    let s = Pcg128State { state: u128::MAX, increment: 12345 };
    assert_eq!(Pcg128State::from_bytes(&s.to_bytes()), Some(s));
}

#[test]
fn state_from_bytes_ignores_trailing_bytes() {
    let s = Pcg128State { state: 7, increment: 9 };
    let mut bytes = s.to_bytes();
    bytes.push(0xff);
    bytes.push(0x01);
    assert_eq!(Pcg128State::from_bytes(&bytes), Some(s));
}

#[test]
fn state_from_short_bytes_is_none() {
    assert_eq!(Pcg128State::from_bytes(&[0u8; 31]), None);
    assert_eq!(Pcg128State::from_bytes(&[]), None);
}

#[test]
fn pcg64_draw_words_reference_stream() {
    let mut rng = Pcg64::new(42, 54);
    let words = pcg64_draw_words(&mut rng, 6);
    assert_eq!(
        words,
        vec![
            0x86b1da1d72062b68,
            0x1304aa46c9853d39,
            0xa3670e9e0dd50358,
            0xf9090e529a7dae00,
            0xc85b9fd837996f2c,
            0x606121f8e3919196,
        ]
    );
    assert!(pcg64_draw_words(&mut rng, 0).is_empty());
}

#[test]
fn pcg64dxsm_draw_words_reference_stream() {
    let mut rng = Pcg64Dxsm::new(42, 54);
    let words = pcg64dxsm_draw_words(&mut rng, 3);
    assert_eq!(words, vec![17331114245835578256, 10267467544499227306, 9726600296081716989]);
}

#[test]
fn rebuilt_generators_resume_many_words() {
    let mut a = Pcg64::seed_from_u64(20260901);
    let _ = pcg64_draw_words(&mut a, 5);
    let (state, increment) = pcg64_parts(&a);
    let mut b = pcg64_from_parts(state, increment);
    assert_eq!(pcg64_draw_words(&mut a, 100), pcg64_draw_words(&mut b, 100));
    assert_eq!(pcg64_parts(&a), pcg64_parts(&b));

    let mut c = Pcg64Dxsm::seed_from_u64(7);
    let _ = pcg64dxsm_draw_words(&mut c, 5);
    let (state, increment) = pcg64dxsm_parts(&c);
    let mut d = pcg64dxsm_from_parts(state, increment);
    assert_eq!(pcg64dxsm_draw_words(&mut c, 100), pcg64dxsm_draw_words(&mut d, 100));
    assert_eq!(pcg64dxsm_parts(&c), pcg64dxsm_parts(&d));
}
