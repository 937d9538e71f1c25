use zkvm_bench::initialize_large_array;
use zkvm_bench::test_func;

#[test]
fn test_func_sums_to_4950() {
    assert_eq!(test_func(), 4950);
}

#[test]
fn array_is_descending_range() {
    assert_eq!(initialize_large_array(5), vec![4, 3, 2, 1, 0]);
    assert_eq!(initialize_large_array(1), vec![0]);
}

#[test]
fn empty_array_for_zero() {
    assert_eq!(initialize_large_array(0), Vec::<i32>::new());
}

#[test]
fn array_of_hundred() {
    let v = initialize_large_array(100);
    assert_eq!(v.len(), 100);
    assert_eq!(v[0], 99);
    assert_eq!(v[99], 0);
}

#[test]
fn array_sum_is_gauss() {
    for n in [0usize, 1, 2, 7, 100, 1000] {
        let v = initialize_large_array(n);
        let s: i64 = v.iter().map(|&x| x as i64).sum();
        assert_eq!(s, (n as i64) * (n as i64 - 1) / 2);
    }
}

#[test]
fn size_wraps_in_i32() {
    // 2^32 + 3 becomes 3 when counted in i32.
    let size: u64 = (1u64 << 32) + 3;
    if usize::BITS == 64 {
        assert_eq!(initialize_large_array(size as usize), vec![2, 1, 0]);
    }
    // 2^31 wraps to i32::MIN: not positive, so the array is empty.
    if usize::BITS == 64 {
        assert_eq!(initialize_large_array(1usize << 31), Vec::<i32>::new());
    }
}
