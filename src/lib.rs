//! Measurement of the false-positive rate of bloom-filter-family structures
//! as a function of their load factor.
pub mod aggregate;
pub mod bloom_adapter;
pub mod bloomfilter_adapter;
pub mod bytes;
pub mod container;
pub mod fastbloom_adapter;
pub mod fastbloom_rs_adapter;
pub mod probabilistic_adapter;
pub mod random_filter;
pub mod random_numbers;
pub mod ratio;
pub mod sbbf_adapter;
pub mod sampler;
pub mod schedule;
pub mod solana_adapter;
pub mod trial;
pub mod xxhash_wrapper;

pub use aggregate::{aggregate, min_len, AggregateRow};
pub use container::Container;
pub use random_filter::RandomFilter;
pub use random_numbers::{random_numbers, RandomNumbers};
pub use ratio::Ratio;
pub use schedule::Ticks;
pub use trial::{list_fp2, measure, run_trial, Observation, TrialError};
pub use xxhash_wrapper::XXHashWrapper;
