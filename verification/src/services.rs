pub mod counter;
