//! Building blocks of a zkVM benchmarking harness: a wall-clock benchmarker,
//! the guest programs' computations, and the host's input values.
pub mod benchmarker;
pub mod vec_sum;
pub mod sha_chain;
pub mod host_inputs;

pub use benchmarker::Benchmarker;
pub use host_inputs::input;
pub use sha_chain::iterated_sha256;
pub use vec_sum::initialize_large_array;
pub use vec_sum::test_func;
