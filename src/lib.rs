pub mod sequence;
