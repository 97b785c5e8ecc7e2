pub mod mode;
