pub mod bni;
pub mod cmi;
pub mod dti;
pub mod fti;
pub mod lbb;
pub mod mti;
pub mod mto;
pub mod sni;

pub use cmi::Cmi;
pub use dti::Dti;
pub use fti::FontLetter;
pub use lbb::Lbb;
