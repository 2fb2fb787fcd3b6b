use bit_vec::BitVec;
use oblw::bits::{b2B, r2b, v2b, B2b};
use oblw::codec::Run;
use oblw::error::Error;

fn bools(bits: &BitVec) -> Vec<bool> {
    bits.iter().collect()
}

fn from_bools(bits: &[bool]) -> BitVec {
    let mut v = BitVec::new();
    for &b in bits {
        v.push(b);
    }
    v
}

#[test]
fn uints_become_bits() {
    let bits = v2b(vec![1, 0, 1, 1]).unwrap();
    assert_eq!(bools(&bits), vec![true, false, true, true]);
}

#[test]
fn bits_pack_most_significant_first() {
    let bits = from_bools(&[true, false, true, true]);
    assert_eq!(b2B(bits), vec![0b1011_0000u8]);
}

#[test]
fn uints_to_bytes_end_to_end() {
    let bits = v2b(vec![1, 0, 1, 1]).unwrap();
    assert_eq!(b2B(bits), vec![0b1011_0000u8]);
}

#[test]
fn value_other_than_bit_is_refused() {
    assert_eq!(v2b(vec![1, 0, 2, 1]), Err(Error::InvalidBitValue));
    assert_eq!(v2b(vec![usize::MAX]), Err(Error::InvalidBitValue));
}

#[test]
fn no_uints_give_no_bits() {
    let bits = v2b(Vec::new()).unwrap();
    assert_eq!(bits.len(), 0);
    assert_eq!(b2B(bits), Vec::<u8>::new());
}

#[test]
fn bytes_unpack_most_significant_first() {
    let bits = B2b(&[0b1010_0000, 0b0001_0010]);
    assert_eq!(
        bools(&bits),
        vec![
            true, false, true, false, false, false, false, false, false, false, false, true,
            false, false, true, false
        ]
    );
}

#[test]
fn no_bytes_give_no_bits() {
    assert_eq!(B2b(&[]).len(), 0);
}

#[test]
fn each_single_bit_lands_in_its_place() {
    for k in 0..8usize {
        let bits = B2b(&[0x80u8 >> k]);
        let mut expected = vec![false; 8];
        expected[k] = true;
        assert_eq!(bools(&bits), expected);
        assert_eq!(b2B(from_bools(&expected)), vec![0x80u8 >> k]);
    }
}

#[test]
fn nine_bits_take_two_bytes() {
    let mut bits = vec![false; 9];
    bits[2] = true;
    bits[8] = true;
    assert_eq!(b2B(from_bools(&bits)), vec![0b0010_0000u8, 0b1000_0000u8]);
}

#[test]
fn eight_bits_take_one_byte() {
    assert_eq!(b2B(from_bools(&[true; 8])), vec![0xFFu8]);
}

#[test]
fn unpacking_packed_bits_pads_with_false() {
    let samples: Vec<Vec<bool>> = vec![
        vec![],
        vec![true],
        vec![true, false, true, true],
        vec![false, true, true, false, true, false, false, true],
        vec![true, true, true, true, true, true, true, true, true],
        vec![false; 17],
    ];
    for bits in samples {
        let mut expected = bits.clone();
        while expected.len() % 8 != 0 {
            expected.push(false);
        }
        let back = B2b(b2B(from_bools(&bits)).as_slice());
        assert_eq!(bools(&back), expected);
    }
}

#[test]
fn packing_unpacked_bytes_gives_them_back() {
    let bytes: Vec<u8> = vec![0x00, 0xFF, 0x5A, 0xA5, 0x01, 0x80, 0x37];
    assert_eq!(b2B(B2b(bytes.as_slice())), bytes);
}

#[test]
fn runs_become_bits() {
    let bits = r2b(vec![Run { v: 1, ct: 3 }, Run { v: 0, ct: 2 }, Run { v: 1, ct: 1 }]).unwrap();
    assert_eq!(bools(&bits), vec![true, true, true, false, false, true]);
}

#[test]
fn runs_of_other_values_are_refused() {
    assert_eq!(
        r2b(vec![Run { v: 1, ct: 3 }, Run { v: 5, ct: 2 }]),
        Err(Error::InvalidBitValue)
    );
}

#[test]
fn empty_run_of_other_value_is_harmless() {
    let bits = r2b(vec![Run { v: 1, ct: 2 }, Run { v: 5, ct: 0 }]).unwrap();
    assert_eq!(bools(&bits), vec![true, true]);
}
