use zkvm_bench::iterated_sha256;

const ABC_1: [u8; 32] = [
    186, 120, 22, 191, 143, 1, 207, 234, 65, 65, 64, 222, 93, 174, 34, 35, 176, 3, 97, 163, 150,
    23, 122, 156, 180, 16, 255, 97, 242, 0, 21, 173,
];
const ABC_2: [u8; 32] = [
    79, 139, 66, 194, 45, 211, 114, 155, 81, 155, 166, 246, 141, 45, 167, 204, 91, 45, 96, 109, 5,
    218, 237, 90, 213, 18, 140, 192, 62, 108, 99, 88,
];
const ABC_3: [u8; 32] = [
    242, 167, 120, 241, 166, 237, 61, 91, 197, 154, 93, 121, 16, 76, 89, 143, 63, 7, 9, 63, 36, 12,
    164, 233, 19, 51, 251, 9, 237, 79, 54, 218,
];
const EMPTY_1: [u8; 32] = [
    227, 176, 196, 66, 152, 252, 28, 20, 154, 251, 244, 200, 153, 111, 185, 36, 39, 174, 65, 228,
    100, 155, 147, 76, 164, 149, 153, 27, 120, 82, 184, 85,
];

#[test]
fn one_iteration_is_sha256() {
    assert_eq!(iterated_sha256(1, b"abc"), ABC_1.to_vec());
    assert_eq!(iterated_sha256(1, b""), EMPTY_1.to_vec());
}

#[test]
fn zero_iterations_hash_once() {
    assert_eq!(iterated_sha256(0, b"abc"), ABC_1.to_vec());
}

#[test]
fn more_iterations_rehash_the_digest() {
    assert_eq!(iterated_sha256(2, b"abc"), ABC_2.to_vec());
    assert_eq!(iterated_sha256(3, b"abc"), ABC_3.to_vec());
}

#[test]
fn chain_composes() {
    let two = iterated_sha256(2, b"abc");
    assert_eq!(iterated_sha256(1, &two), ABC_3.to_vec());
}
