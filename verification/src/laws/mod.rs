//! What holds of the library as a whole, for all inputs: what is read is what
//! was written, what is refused and by which name, and what is proven.

pub mod accept;
pub mod blob;
pub mod claim;
pub mod encoding;
pub mod file;
pub mod gate;
pub mod key;
pub mod presented;
pub mod signature;
pub mod signed;
pub mod text;
pub mod view;
pub mod wire;
