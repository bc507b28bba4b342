use vectori256::Vec32i8fallback;

#[test]
fn vec256i8_works() {
    {
        let result_new = Vec32i8fallback::new();
        assert!(result_new.eq(&Vec32i8fallback::new()));
    }
    {
        let result_basics = Vec32i8fallback::from_slice(&[
            255, 255, 255, 255, 255, 255, 255, 255,
            255, 255, 255, 255, 255, 255, 255, 255,
            255, 255, 255, 255, 255, 255, 255, 255,
            255, 255, 255, 255, 255, 255, 255, 255,
        ]);
        assert!(!result_basics.eq(&Vec32i8fallback::new()));
        let xor_with_self = result_basics.xor(&result_basics);
        assert!(xor_with_self.eq(&Vec32i8fallback::new()));
        let and_with_self = result_basics.and(&result_basics);
        assert!(and_with_self.eq(&result_basics));
    }
    {
        let result_add = Vec32i8fallback::from_slice(&[
            1, 2, 3, 4, 5, 6, 7, 8, 9, 10, 11, 12, 13, 14, 15, 16,
            17, 18, 19, 20, 21, 22, 23, 24, 25, 26, 27, 28, 29, 30, 31, 32,
        ]);
        let result_add2 = Vec32i8fallback::from_slice(&[
            1, 0, 1, 0, 1, 0, 1, 0, 1, 0, 1, 0, 1, 0, 1, 0,
            1, 0, 1, 0, 1, 0, 1, 0, 1, 0, 1, 0, 1, 0, 1, 0,
        ]);
        let result_add3 = result_add.add(&result_add2);
        assert!(result_add3.eq(&Vec32i8fallback::from_slice(&[
            2, 2, 4, 4, 6, 6, 8, 8, 10, 10, 12, 12, 14, 14, 16, 16,
            18, 18, 20, 20, 22, 22, 24, 24, 26, 26, 28, 28, 30, 30, 32, 32,
        ])));
        let result_sub = result_add.sub(&result_add2);
        assert!(result_sub.eq(&Vec32i8fallback::from_slice(&[
            0, 2, 2, 4, 4, 6, 6, 8, 8, 10, 10, 12, 12, 14, 14, 16,
            16, 18, 18, 20, 20, 22, 22, 24, 24, 26, 26, 28, 28, 30, 30, 32,
        ])));
    }
}

#[test]
fn zero_is_zero_constructed_from_zero_bytes() {
    let zeros = Vec32i8fallback::from_slice(&[0u8; 32]);
    assert!(zeros.eq(&Vec32i8fallback::new()));
    let mut one_bit = [0u8; 32];
    one_bit[31] = 1;
    let nearly = Vec32i8fallback::from_slice(&one_bit);
    assert!(!nearly.eq(&Vec32i8fallback::new()));
}

#[test]
fn add_wraps_modulo_256() {
    let high = Vec32i8fallback::from_slice(&[255u8; 32]);
    let two = Vec32i8fallback::from_slice(&[2u8; 32]);
    // 255 + 2 = 257 = 1 mod 256 in every lane
    let sum = high.add(&two);
    assert!(sum.eq(&Vec32i8fallback::from_slice(&[1u8; 32])));
    let one = Vec32i8fallback::from_slice(&[1u8; 32]);
    // 255 + 1 wraps to 0
    let wrapped = high.add(&one);
    assert!(wrapped.eq(&Vec32i8fallback::new()));
}

#[test]
fn sub_wraps_two_complement() {
    let zero = Vec32i8fallback::new();
    let one = Vec32i8fallback::from_slice(&[1u8; 32]);
    // 0 - 1 wraps to 255 in every lane
    let diff = zero.sub(&one);
    assert!(diff.eq(&Vec32i8fallback::from_slice(&[255u8; 32])));
    // subtracting a vector from itself gives zero
    let ascending: Vec<u8> = (0u8..32u8).collect();
    let v = Vec32i8fallback::from_slice(&ascending);
    assert!(v.sub(&v).eq(&zero));
}

#[test]
fn equality_rejects_single_lane_difference() {
    let base = [7u8; 32];
    let v = Vec32i8fallback::from_slice(&base);
    assert!(v.eq(&Vec32i8fallback::from_slice(&base)));
    for lane in 0..32 {
        let mut changed = base;
        changed[lane] = 8;
        let w = Vec32i8fallback::from_slice(&changed);
        assert!(!v.eq(&w));
        assert!(!w.eq(&v));
    }
}

#[test]
fn eq_bytes_compares_positionally() {
    let ascending: Vec<u8> = (1u8..=32u8).collect();
    let v = Vec32i8fallback::from_slice(&ascending);
    assert!(v.eq_bytes(&ascending));
    // a swap of two adjacent bytes must be caught: the comparison is positional
    let mut swapped = ascending.clone();
    swapped.swap(0, 1);
    assert!(!v.eq_bytes(&swapped));
}

#[test]
fn xor_differing_patterns() {
    let a = Vec32i8fallback::from_slice(&[0b1010_1010u8; 32]);
    let b = Vec32i8fallback::from_slice(&[0b0101_0101u8; 32]);
    let x = a.xor(&b);
    assert!(x.eq(&Vec32i8fallback::from_slice(&[255u8; 32])));
    let m = a.and(&b);
    assert!(m.eq(&Vec32i8fallback::new()));
}
