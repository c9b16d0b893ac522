pub mod stats;
