//! A pool of sprite bitmaps with pre-rotated variants, and the compositing pass
//! that draws placed sprites into a flat pixel buffer with colour-key masking.

pub mod bake;
pub mod bitmap;
pub mod blit;
pub mod buffer;
pub mod error;
pub mod render;
pub mod rotation;
pub mod sprite;
pub mod store;

pub use bake::load;
pub use bake::variant_count;
pub use bitmap::Bitmap;
pub use buffer::PixelBuffer;
pub use error::BakeError;
pub use render::draw_sprite;
pub use render::RenderSystem;
pub use sprite::Sprite;
pub use sprite::SpriteRef;
pub use store::BitmapStore;
