pub mod cmi_bytecode;
pub mod cmi_decode;
pub mod cmi_layout;
pub mod cmi_operands;
pub mod cmi_listing;
pub mod cmi_parts;
pub mod cmi_sizes;
pub mod cmi_text;
pub mod image_formats;
pub mod mesh;
pub mod pen;
pub mod spline;
pub mod texture;
pub mod wav;

pub use pen::Pen;
pub use texture::{Texture, TextureResult};
pub use wav::Wav;
