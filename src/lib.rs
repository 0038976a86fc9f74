//! Output layer for entity embeddings: an identifier map from hashes to
//! entity names, and the record layouts of three embedding writers (a
//! line-oriented text file, a memory-mapped dense matrix and a columnar file).
pub mod decimal;
pub mod entity;
pub mod chunk;
pub mod text;
pub mod npy;
pub mod columnar;
