use o1::utils::bit_array::{BitArray, Bits};

#[test]
fn test_set_and_get() {
    let mut b = Bits::<u8>::new();
    b.set(0);
    b.set(5);
    b.set(7);

    assert!(b.get(0).unwrap());
    assert!(!b.get(1).unwrap());
    assert!(b.get(5).unwrap());
    assert!(b.get(7).unwrap());
    assert!(b.get(8).is_none());
}

#[test]
fn test_iter_ones() {
    let mut b = Bits::<u16>::new();
    b.set(0);
    b.set(5);
    b.set(10);

    let mut ones: Vec<usize> = Vec::new();
    let mut iter = b.iter_ones();
    while let Some(index) = iter.next() {
        ones.push(index);
    }
    assert_eq!(ones, vec![0, 5, 10]);
}

#[test]
fn test_iter_ones_const() {
    let mut b = Bits::<u8>::new();
    b.set(0);
    b.set(3);
    b.set(7);

    let mut ones = [0; 3];
    let mut i = 0;
    let mut iter = b.iter_ones_const();
    while let Some(index) = iter.next() {
        ones[i] = index;
        i += 1;
    }
    assert!(ones[0] == 0);
    assert!(ones[1] == 3);
    assert!(ones[2] == 7);
}

#[test]
fn test_count_ones() {
    let mut b = Bits::<u32>::new();
    assert!(b.count_ones() == 0);

    b.set(0);
    b.set(5);
    b.set(15);
    assert!(b.count_ones() == 3);

    b.clear(5);
    assert!(b.count_ones() == 2);

    b.set_all();
    assert!(b.count_ones() == 32);

    b.clear_all();
    assert!(b.count_ones() == 0);
}

#[test]
fn test_clear_all() {
    let mut b8 = Bits::<u8>::new();
    b8.set(0);
    b8.set(5);
    b8.set(7);
    assert_eq!(b8.count_ones(), 3);
    b8.clear_all();
    assert_eq!(b8.count_ones(), 0);

    let mut b16 = Bits::<u16>::new();
    b16.set(0);
    b16.set(10);
    b16.set(15);
    assert_eq!(b16.count_ones(), 3);
    b16.clear_all();
    assert_eq!(b16.count_ones(), 0);

    let mut b32 = Bits::<u32>::new();
    b32.set(0);
    b32.set(15);
    b32.set(31);
    assert_eq!(b32.count_ones(), 3);
    b32.clear_all();
    assert_eq!(b32.count_ones(), 0);

    let mut b64 = Bits::<u64>::new();
    b64.set(0);
    b64.set(30);
    b64.set(63);
    assert_eq!(b64.count_ones(), 3);
    b64.clear_all();
    assert_eq!(b64.count_ones(), 0);

    let mut b128 = Bits::<u128>::new();
    b128.set(0);
    b128.set(64);
    b128.set(127);
    assert_eq!(b128.count_ones(), 3);
    b128.clear_all();
    assert_eq!(b128.count_ones(), 0);
}

#[test]
fn test_set_all() {
    let mut b8 = Bits::<u8>::new();
    b8.set_all();
    assert_eq!(b8.count_ones(), 8);
    for i in 0..8 {
        assert!(b8.get(i).unwrap());
    }

    let mut b16 = Bits::<u16>::new();
    b16.set_all();
    assert_eq!(b16.count_ones(), 16);
    for i in 0..16 {
        assert!(b16.get(i).unwrap());
    }

    let mut b32 = Bits::<u32>::new();
    b32.set_all();
    assert_eq!(b32.count_ones(), 32);
    for i in 0..32 {
        assert!(b32.get(i).unwrap());
    }

    let mut b64 = Bits::<u64>::new();
    b64.set_all();
    assert_eq!(b64.count_ones(), 64);
    assert!(b64.get(0).unwrap());
    assert!(b64.get(31).unwrap());
    assert!(b64.get(32).unwrap());
    assert!(b64.get(63).unwrap());

    let mut b128 = Bits::<u128>::new();
    b128.set_all();
    assert_eq!(b128.count_ones(), 128);
    assert!(b128.get(0).unwrap());
    assert!(b128.get(63).unwrap());
    assert!(b128.get(64).unwrap());
    assert!(b128.get(127).unwrap());
}

#[test]
fn test_clear_all_set_all_const() {
    let mut b = Bits::<u8>::new();
    b.set(0);
    b.set(3);
    b.set(7);

    b.clear_all();
    assert!(b.count_ones() == 0);
    assert!(!b.get(0).unwrap());
    assert!(!b.get(3).unwrap());
    assert!(!b.get(7).unwrap());

    b.set_all();
    assert!(b.count_ones() == 8);
    assert!(b.get(0).unwrap());
    assert!(b.get(1).unwrap());
    assert!(b.get(2).unwrap());
    assert!(b.get(3).unwrap());
    assert!(b.get(4).unwrap());
    assert!(b.get(5).unwrap());
    assert!(b.get(6).unwrap());
    assert!(b.get(7).unwrap());
}

#[test]
fn bit_array_test_set_and_get() {
    let mut arr = BitArray::<u8, 2>::new();
    arr.set(0);
    arr.set(5);
    arr.set(15);

    assert!(arr.get(0).unwrap());
    assert!(!arr.get(1).unwrap());
    assert!(arr.get(5).unwrap());
    assert!(arr.get(15).unwrap());
    assert!(arr.get(16).is_none());
}

#[test]
fn test_clear() {
    let mut arr = BitArray::<u8, 2>::new();
    arr.set(0);
    arr.set(5);
    arr.set(15);

    arr.clear(0);
    assert!(!arr.get(0).unwrap());
    assert!(arr.get(5).unwrap());

    arr.clear(5);
    assert!(!arr.get(5).unwrap());
    assert!(arr.get(15).unwrap());
}

#[test]
fn test_clear_all_and_set_all() {
    let mut arr = BitArray::<u8, 2>::new();

    arr.set_all();
    assert!(arr.get(0).unwrap());
    assert!(arr.get(7).unwrap());
    assert!(arr.get(8).unwrap());
    assert!(arr.get(15).unwrap());

    arr.clear_all();
    assert!(!arr.get(0).unwrap());
    assert!(!arr.get(7).unwrap());
    assert!(!arr.get(8).unwrap());
    assert!(!arr.get(15).unwrap());
}

#[test]
fn bit_array_test_count_ones() {
    let mut arr = BitArray::<u8, 2>::new();
    assert!(arr.count_ones() == 0);

    arr.set(0);
    assert!(arr.count_ones() == 1);

    arr.set(3);
    arr.set(7);
    assert!(arr.count_ones() == 3);

    arr.set_all();
    assert!(arr.count_ones() == 16);

    arr.clear_all();
    assert!(arr.count_ones() == 0);
}

#[test]
fn bit_array_test_iter_ones() {
    let mut arr = BitArray::<u8, 2>::new();
    arr.set(0);
    arr.set(5);
    arr.set(15);

    let mut ones: Vec<usize> = Vec::new();
    let mut iter = arr.iter_ones();
    while let Some(index) = iter.next() {
        ones.push(index);
    }
    assert!(ones == vec![0, 5, 15]);

    arr.clear(0);
    let mut ones: Vec<usize> = Vec::new();
    let mut iter = arr.iter_ones();
    while let Some(index) = iter.next() {
        ones.push(index);
    }
    assert!(ones == vec![5, 15]);
}

#[test]
fn bit_array_test_iter_ones_const() {
    let mut arr = BitArray::<u8, 2>::new();
    arr.set(0);
    arr.set(5);
    arr.set(15);

    let mut ones = [0; 3];
    let mut i = 0;
    let mut iter = arr.iter_ones_const();
    while let Some(index) = iter.next() {
        ones[i] = index;
        i += 1;
    }
    assert!(ones[0] == 0);
    assert!(ones[1] == 5);
    assert!(ones[2] == 15);

    arr.clear(0);

    let mut ones = [0; 2];
    let mut i = 0;
    let mut iter = arr.iter_ones_const();
    while let Some(index) = iter.next() {
        ones[i] = index;
        i += 1;
    }

    assert!(ones[0] == 5);
    assert!(ones[1] == 15);
}

#[test]
fn test_different_storage_types() {
    let mut arr_u8 = BitArray::<u8, 2>::new();
    arr_u8.set(15);
    assert!(arr_u8.get(15).unwrap());

    let mut arr_u16 = BitArray::<u16, 2>::new();
    arr_u16.set(20);
    assert!(arr_u16.get(20).unwrap());

    let mut arr_u32 = BitArray::<u32, 2>::new();
    arr_u32.set(40);
    assert!(arr_u32.get(40).unwrap());

    let mut arr_u64 = BitArray::<u64, 2>::new();
    arr_u64.set(100);
    assert!(arr_u64.get(100).unwrap());

    let mut arr_u128 = BitArray::<u128, 2>::new();
    arr_u128.set(200);
    assert!(arr_u128.get(200).unwrap());
}
