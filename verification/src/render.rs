use vstd::prelude::*;

use crate::bitmap::BitmapView;
use crate::blit::blitted;
use crate::blit::lemma_blit_fully_masked;
use crate::buffer::PixelBuffer;
use crate::buffer::PixelBufferView;
use crate::sprite::Sprite;
use crate::sprite::SpriteView;
use crate::store::BitmapStore;

verus! {

/// The buffer after `sprite` is drawn into it: the bitmap of the variant that
/// its rotation selects, blitted at the sprite's position shifted by the
/// variant's offsets.
pub open spec fn drawn(buffer: PixelBufferView, store: Seq<BitmapView>, sprite: SpriteView) -> PixelBufferView {
    let (handle, x_offset, y_offset) = sprite.variant();
    PixelBufferView {
        pixels: blitted(
            buffer.pixels,
            buffer.width as int,
            store[handle as int],
            sprite.pos.0 + x_offset,
            sprite.pos.1 + y_offset,
        ),
        ..buffer
    }
}

/// The buffer after `sprites` are drawn into it one after the other.
pub open spec fn rendered(
    buffer: PixelBufferView,
    store: Seq<BitmapView>,
    sprites: Seq<Sprite>,
) -> PixelBufferView
    decreases sprites.len(),
{
    if sprites.len() == 0 {
        buffer
    } else {
        drawn(rendered(buffer, store, sprites.drop_last()), store, sprites.last()@)
    }
}

/// Whether `sprite` can be drawn from `store`: it is well formed and each of
/// its handles names a bitmap there.
pub open spec fn drawable(store: Seq<BitmapView>, sprite: SpriteView) -> bool {
    sprite.wf() && sprite.reference.within(store.len())
}

/// Rendering keeps the shape of the buffer: its width, its height and the
/// number of its pixels.
pub proof fn lemma_rendered_keeps_shape(
    buffer: PixelBufferView,
    store: Seq<BitmapView>,
    sprites: Seq<Sprite>,
)
    ensures
        rendered(buffer, store, sprites).width == buffer.width,
        rendered(buffer, store, sprites).height == buffer.height,
        rendered(buffer, store, sprites).pixels.len() == buffer.pixels.len(),
        buffer.wf() ==> rendered(buffer, store, sprites).wf(),
    decreases sprites.len(),
{
    if sprites.len() > 0 {
        lemma_rendered_keeps_shape(buffer, store, sprites.drop_last());
    }
}

/// Sprites that are transparent all over leave the frame as it was: where the
/// bitmap that each sprite is drawn with has only pixels of its mask colour,
/// rendering changes no pixel.
pub proof fn lemma_render_fully_masked(
    buffer: PixelBufferView,
    store: Seq<BitmapView>,
    sprites: Seq<Sprite>,
)
    requires
        forall|i: int|
            0 <= i < sprites.len() ==> {
                let handle = (#[trigger] sprites[i])@.variant().0 as int;
                &&& 0 <= handle < store.len()
                &&& store[handle].wf()
                &&& store[handle].fully_masked()
            },
    ensures
        rendered(buffer, store, sprites) == buffer,
    decreases sprites.len(),
{
    if sprites.len() > 0 {
        let rest = sprites.drop_last();
        assert forall|i: int| 0 <= i < rest.len() implies {
            let handle = (#[trigger] rest[i])@.variant().0 as int;
            &&& 0 <= handle < store.len()
            &&& store[handle].wf()
            &&& store[handle].fully_masked()
        } by {
            assert(rest[i] == sprites[i]);
        }
        lemma_render_fully_masked(buffer, store, rest);
        let sprite = sprites.last()@;
        assert(sprites.last() == sprites[sprites.len() - 1]);
        let (handle, x_offset, y_offset) = sprite.variant();
        lemma_blit_fully_masked(
            buffer.pixels,
            buffer.width as int,
            store[handle as int],
            sprite.pos.0 + x_offset,
            sprite.pos.1 + y_offset,
        );
    }
}

/// Draws `sprite` into `buffer`. The buffer is not cleared first.
pub fn draw_sprite(store: &BitmapStore, buffer: &mut PixelBuffer, sprite: &Sprite)
    requires
        store.wf(),
        drawable(store@, sprite@),
    ensures
        final(buffer)@ == drawn(old(buffer)@, store@, sprite@),
{
    let (index, x_offset, y_offset) = sprite.render_info();
    let pos = sprite.pos();
    buffer.draw(store.get(index), pos.0 as i64 + x_offset as i64, pos.1 as i64 + y_offset as i64);
}

/// The pass that draws the placed sprites into the frame.
#[derive(Debug)]
pub struct RenderSystem;

impl RenderSystem {
    /// Draws each of `sprites` into `buffer`, in order. The buffer is not
    /// cleared first.
    pub fn run(&mut self, store: &BitmapStore, buffer: &mut PixelBuffer, sprites: &Vec<Sprite>)
        requires
            store.wf(),
            forall|i: int| 0 <= i < sprites@.len() ==> drawable(store@, (#[trigger] sprites@[i])@),
        ensures
            final(buffer)@ == rendered(old(buffer)@, store@, sprites@),
    {
        let mut i: usize = 0;
        while i < sprites.len()
            invariant
                store.wf(),
                i <= sprites@.len(),
                forall|j: int|
                    0 <= j < sprites@.len() ==> drawable(store@, (#[trigger] sprites@[j])@),
                buffer@ == rendered(old(buffer)@, store@, sprites@.take(i as int)),
            decreases sprites@.len() - i,
        {
            draw_sprite(store, buffer, &sprites[i]);
            assert(sprites@.take(i + 1).drop_last() =~= sprites@.take(i as int));
            i += 1;
        }
        assert(sprites@.take(i as int) =~= sprites@);
    }
}

} // verus!
