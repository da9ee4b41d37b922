pub mod threshold;
