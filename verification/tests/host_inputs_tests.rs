use zkvm_bench::input;

#[test]
fn input_is_ten() {
    assert_eq!(input(), 10);
}
