pub mod redundancy;
