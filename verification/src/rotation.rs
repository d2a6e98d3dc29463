use vstd::prelude::*;

use crate::bake::baked_variant;
use crate::bake::centering;
use crate::bake::lemma_steps_done_stops;
use crate::bake::rotation_count;
use crate::bake::step_bitmap;
use crate::bake::step_raster;
use crate::bake::steps_done;
use crate::bake::variant_count;
use crate::bitmap::Bitmap;
use crate::bitmap::BitmapView;
use crate::blit::blitted;
use crate::buffer::PixelBuffer;
use crate::buffer::PixelBufferView;
use crate::error::BakeError;
use crate::sprite::rotation_index;
use crate::sprite::SpriteRef;
use crate::sprite::SpriteRefView;
use crate::store::BitmapStore;

verus! {

/// What a [`RotatingSpriteRef`] is, mathematically.
pub struct RotatingSpriteRefView {
    /// Into how many equal steps the full turn is divided.
    pub rotations: nat,
    /// For each step, in order of angle, the sprite that shows it.
    pub sprites: Seq<SpriteRefView>,
}

impl RotatingSpriteRefView {
    /// There is one well-formed sprite for each step, and at least one step.
    pub open spec fn wf(self) -> bool {
        &&& self.rotations >= 1
        &&& self.sprites.len() == self.rotations
        &&& forall|k: int| 0 <= k < self.sprites.len() ==> (#[trigger] self.sprites[k]).wf()
    }

    /// The sprite shown at `rotation` degrees: the one of the step that the
    /// angle falls into, and the first where there is no such step.
    pub open spec fn reference_at(self, rotation: int) -> SpriteRefView {
        let index = rotation_index(rotation, self.rotations);
        if 0 <= index < self.sprites.len() {
            self.sprites[index]
        } else {
            self.sprites[0]
        }
    }

    /// Every handle of every step names a bitmap of a store that holds `len`.
    pub open spec fn within(self, len: nat) -> bool {
        forall|k: int| 0 <= k < self.sprites.len() ==> (#[trigger] self.sprites[k]).within(len)
    }
}

/// The sprite whose only variant is `variant`.
pub open spec fn single_variant(variant: (usize, i32, i32)) -> SpriteRefView {
    SpriteRefView { rotations: 1, variants: seq![variant] }
}

/// The store after baking, and the rotating sprite or the failure that baking
/// ends in.
///
/// The steps are taken in order of angle, beginning with the source itself,
/// which is not rotated. Each stores its bitmap under the next free handle, as
/// a sprite of its own whose one variant has the offsets that centre the bitmap
/// on `source`; the first step without a bitmap ends the bake with its error,
/// and what was stored before it stays.
pub open spec fn bake_rotating(
    store: Seq<BitmapView>,
    source: BitmapView,
    rotations: u16,
    rotated: Seq<Result<(usize, usize, Vec<u32>), BakeError>>,
) -> (Seq<BitmapView>, Result<RotatingSpriteRefView, BakeError>) {
    let count = rotation_count(rotations);
    let done = steps_done(source, rotated, count);
    (
        store + Seq::new(done, |k: int| step_bitmap(source, rotated, k)->Ok_0),
        if done == count {
            Ok(
                RotatingSpriteRefView {
                    rotations: count,
                    sprites: Seq::new(
                        count,
                        |k: int|
                            single_variant(
                                baked_variant(
                                    source,
                                    step_bitmap(source, rotated, k)->Ok_0,
                                    (store.len() + k) as usize,
                                ),
                            ),
                    ),
                },
            )
        } else {
            Err(step_bitmap(source, rotated, done as int)->Err_0)
        },
    )
}

/// A rotating sprite: for each step of the turn a sprite of its own.
#[derive(Debug)]
pub struct RotatingSpriteRef {
    rotations: u16,
    sprites: Vec<SpriteRef>,
}

impl View for RotatingSpriteRef {
    type V = RotatingSpriteRefView;

    closed spec fn view(&self) -> RotatingSpriteRefView {
        RotatingSpriteRefView {
            rotations: self.rotations as nat,
            sprites: Seq::new(self.sprites@.len(), |k: int| self.sprites@[k]@),
        }
    }
}

impl RotatingSpriteRef {
    /// The invariant of every reference this library hands out.
    pub open spec fn wf(&self) -> bool {
        self@.wf()
    }

    /// Into how many equal steps the full turn is divided.
    pub fn rotations(&self) -> (rotations: u16)
        ensures
            rotations == self@.rotations,
    {
        self.rotations
    }

    /// The sprite to draw at `rotation` degrees.
    pub fn reference(&self, rotation: u16) -> (reference: &SpriteRef)
        requires
            self.wf(),
        ensures
            reference@ == self@.reference_at(rotation as int),
            reference.wf(),
    {
        assert(0 <= rotation * self.rotations <= 0xffff * 0xffff) by (nonlinear_arith)
            requires
                0 <= rotation <= 0xffff,
                0 <= self.rotations <= 0xffff,
        ;
        let index = (rotation as u64 * self.rotations as u64) / 360;
        if index < self.sprites.len() as u64 {
            assert(self@.sprites[index as int].wf());
            &self.sprites[index as usize]
        } else {
            assert(self@.sprites[0].wf());
            &self.sprites[0]
        }
    }

    /// Whether every handle names a bitmap of `store`.
    pub fn is_within(&self, store: &BitmapStore) -> (within: bool)
        ensures
            within == self@.within(store@.len()),
    {
        let mut k: usize = 0;
        while k < self.sprites.len()
            invariant
                k <= self.sprites@.len(),
                forall|j: int| 0 <= j < k ==> (#[trigger] self@.sprites[j]).within(store@.len()),
            decreases self.sprites@.len() - k,
        {
            if !self.sprites[k].is_within(store) {
                assert(!self@.sprites[k as int].within(store@.len()));
                return false;
            }
            k += 1;
        }
        true
    }
}

impl Clone for RotatingSpriteRef {
    fn clone(&self) -> (copy: Self)
        ensures
            copy@ == self@,
    {
        let mut sprites: Vec<SpriteRef> = Vec::new();
        let mut k: usize = 0;
        while k < self.sprites.len()
            invariant
                k <= self.sprites@.len(),
                sprites@.len() == k,
                forall|j: int| 0 <= j < k ==> (#[trigger] sprites@[j])@ == self.sprites@[j]@,
            decreases self.sprites@.len() - k,
        {
            sprites.push(self.sprites[k].clone());
            k += 1;
        }
        let copy = RotatingSpriteRef { rotations: self.rotations, sprites };
        assert(copy@.sprites =~= self@.sprites);
        copy
    }
}

/// What a [`RotatingSprite`] is, mathematically.
pub struct RotatingSpriteView {
    pub reference: RotatingSpriteRefView,
    /// Column and row of the screen at which the sprite is placed.
    pub pos: (i32, i32),
    /// The rotation in degrees.
    pub rot: u16,
}

impl RotatingSpriteView {
    /// The reference is well formed and the rotation is less than a full turn.
    pub open spec fn wf(self) -> bool {
        self.reference.wf() && self.rot < 360
    }

    /// The sprite that is drawn at the sprite's rotation.
    pub open spec fn shown(self) -> SpriteRefView {
        self.reference.reference_at(self.rot as int)
    }
}

/// A rotating sprite placed on the screen.
#[derive(Debug)]
pub struct RotatingSprite {
    reference: RotatingSpriteRef,
    pos: (i32, i32),
    rot: u16,
}

impl View for RotatingSprite {
    type V = RotatingSpriteView;

    closed spec fn view(&self) -> RotatingSpriteView {
        RotatingSpriteView { reference: self.reference@, pos: self.pos, rot: self.rot }
    }
}

impl RotatingSprite {
    /// The invariant that the methods of a sprite keep.
    pub open spec fn wf(&self) -> bool {
        self@.wf()
    }

    /// A sprite at the top left corner, not rotated.
    pub fn new(sprite_ref: &RotatingSpriteRef) -> (sprite: Self)
        ensures
            sprite@ == (RotatingSpriteView { reference: sprite_ref@, pos: (0, 0), rot: 0 }),
    {
        Self { reference: sprite_ref.clone(), pos: (0, 0), rot: 0 }
    }

    /// Moves the sprite to column `x`, row `y`.
    pub fn set_pos(&mut self, x: i32, y: i32)
        ensures
            final(self)@.pos == (x, y),
            final(self)@.reference == old(self)@.reference,
            final(self)@.rot == old(self)@.rot,
    {
        self.pos.0 = x;
        self.pos.1 = y;
    }

    /// Column and row at which the sprite is placed.
    pub fn pos(&self) -> (pos: (i32, i32))
        ensures
            pos == self@.pos,
    {
        self.pos
    }

    /// Turns the sprite to `rotation` degrees, whole turns taken off.
    pub fn set_rot(&mut self, rotation: u16)
        ensures
            final(self)@.rot == rotation % 360,
            final(self)@.reference == old(self)@.reference,
            final(self)@.pos == old(self)@.pos,
    {
        self.rot = rotation % 360;
    }

    /// The rotation in degrees.
    pub fn rot(&self) -> (rot: u16)
        ensures
            rot == self@.rot,
    {
        self.rot
    }

    /// The sprite that is drawn at this sprite's rotation.
    pub fn reference(&self) -> (reference: &SpriteRef)
        requires
            self.wf(),
        ensures
            reference@ == self@.shown(),
            reference.wf(),
    {
        self.reference.reference(self.rot)
    }

    /// Whether every handle of every step names a bitmap of `store`.
    pub fn is_within(&self, store: &BitmapStore) -> (within: bool)
        ensures
            within == self@.reference.within(store@.len()),
    {
        self.reference.is_within(store)
    }
}

impl Clone for RotatingSprite {
    fn clone(&self) -> (copy: Self)
        ensures
            copy@ == self@,
    {
        RotatingSprite { reference: self.reference.clone(), pos: self.pos, rot: self.rot }
    }
}

/// The buffer after `sprite` is drawn into it: the bitmap of the first variant
/// of the sprite that its rotation selects, blitted at the sprite's position
/// shifted by the variant's offsets.
pub open spec fn drawn_rotating(
    buffer: PixelBufferView,
    store: Seq<BitmapView>,
    sprite: RotatingSpriteView,
) -> PixelBufferView {
    let (handle, x_offset, y_offset) = sprite.shown().variants[0];
    PixelBufferView {
        pixels: blitted(
            buffer.pixels,
            buffer.width as int,
            store[handle as int],
            sprite.pos.0 + x_offset,
            sprite.pos.1 + y_offset,
        ),
        ..buffer
    }
}

/// The buffer after `sprites` are drawn into it one after the other.
pub open spec fn rendered_rotating(
    buffer: PixelBufferView,
    store: Seq<BitmapView>,
    sprites: Seq<RotatingSprite>,
) -> PixelBufferView
    decreases sprites.len(),
{
    if sprites.len() == 0 {
        buffer
    } else {
        drawn_rotating(
            rendered_rotating(buffer, store, sprites.drop_last()),
            store,
            sprites.last()@,
        )
    }
}

/// Whether `sprite` can be drawn from `store`: it is well formed and each of
/// its handles names a bitmap there.
pub open spec fn drawable_rotating(store: Seq<BitmapView>, sprite: RotatingSpriteView) -> bool {
    sprite.wf() && sprite.reference.within(store.len())
}

/// Draws `sprite` into `buffer`. The buffer is not cleared first.
pub fn draw_rotating_sprite(store: &BitmapStore, buffer: &mut PixelBuffer, sprite: &RotatingSprite)
    requires
        store.wf(),
        drawable_rotating(store@, sprite@),
    ensures
        final(buffer)@ == drawn_rotating(old(buffer)@, store@, sprite@),
{
    let shown = sprite.reference();
    proof {
        let index = rotation_index(sprite@.rot as int, sprite@.reference.rotations);
        if 0 <= index < sprite@.reference.sprites.len() {
            assert(sprite@.reference.sprites[index].within(store@.len()));
        } else {
            assert(sprite@.reference.sprites[0].within(store@.len()));
        }
        assert(shown@.variants[0].0 < store@.len());
    }
    let (handle, x_offset, y_offset) = shown.variants()[0];
    let pos = sprite.pos();
    buffer.draw(store.get(handle), pos.0 as i64 + x_offset as i64, pos.1 as i64 + y_offset as i64);
}

/// The pass that draws the placed rotating sprites into the frame.
#[derive(Debug)]
pub struct RotationRenderSystem;

impl RotationRenderSystem {
    /// Draws each of `sprites` into `buffer`, in order. The buffer is not
    /// cleared first.
    pub fn run(
        &mut self,
        store: &BitmapStore,
        buffer: &mut PixelBuffer,
        sprites: &Vec<RotatingSprite>,
    )
        requires
            store.wf(),
            forall|i: int|
                0 <= i < sprites@.len() ==> drawable_rotating(store@, (#[trigger] sprites@[i])@),
        ensures
            final(buffer)@ == rendered_rotating(old(buffer)@, store@, sprites@),
    {
        let mut i: usize = 0;
        while i < sprites.len()
            invariant
                store.wf(),
                i <= sprites@.len(),
                forall|j: int|
                    0 <= j < sprites@.len() ==> drawable_rotating(
                        store@,
                        (#[trigger] sprites@[j])@,
                    ),
                buffer@ == rendered_rotating(old(buffer)@, store@, sprites@.take(i as int)),
            decreases sprites@.len() - i,
        {
            draw_rotating_sprite(store, buffer, &sprites[i]);
            assert(sprites@.take(i + 1).drop_last() =~= sprites@.take(i as int));
            i += 1;
        }
        assert(sprites@.take(i as int) =~= sprites@);
    }
}

/// Bakes a rotating sprite: stores each rotated raster of `sprite` as a
/// sprite of its own, centred on `sprite`, and returns the reference that
/// names them.
///
/// The sprite of the first step shows `sprite` itself, which is not rotated.
/// `rotated` holds, for each rotation step after the first in order of angle,
/// the raster of `sprite` turned by that step's angle, as width, height and
/// row-major pixels, or the error that rasterizing it ended in.
pub fn load_with_rotations(
    store: &mut BitmapStore,
    sprite: &Bitmap,
    rotations: u16,
    rotated: &Vec<Result<(usize, usize, Vec<u32>), BakeError>>,
) -> (outcome: Result<RotatingSpriteRef, BakeError>)
    requires
        old(store).wf(),
        sprite.wf(),
    ensures
        final(store).wf(),
        final(store)@ == bake_rotating(old(store)@, sprite@, rotations, rotated@).0,
        match outcome {
            Ok(reference) => {
                &&& bake_rotating(old(store)@, sprite@, rotations, rotated@).1 == Ok::<
                    RotatingSpriteRefView,
                    BakeError,
                >(reference@)
                &&& reference.wf()
                &&& reference@.within(final(store)@.len())
            },
            Err(error) => bake_rotating(old(store)@, sprite@, rotations, rotated@).1 == Err::<
                RotatingSpriteRefView,
                BakeError,
            >(error),
        },
        final(store)@.len() > old(store)@.len(),
        final(store)@[old(store)@.len() as int] == sprite@,
        outcome is Ok ==> {
            &&& outcome->Ok_0@.sprites[0].variants[0].0 == old(store)@.len()
            &&& outcome->Ok_0@.sprites[0].variants[0].1 == 0
            &&& outcome->Ok_0@.sprites[0].variants[0].2 == 0
        },
        rotations <= 1 ==> outcome is Ok && final(store)@ == old(store)@.push(sprite@),
{
    let ghost start = store@;
    let count = variant_count(rotations);
    let mut sprites: Vec<SpriteRef> = Vec::new();
    let mut step: u16 = 0;
    assert(store@ =~= start + Seq::new(0, |k: int| step_bitmap(sprite@, rotated@, k)->Ok_0));
    while step < count
        invariant
            store.wf(),
            sprite.wf(),
            step <= count,
            count == rotation_count(rotations),
            start == old(store)@,
            steps_done(sprite@, rotated@, step as nat) == step,
            store@ == start + Seq::new(
                step as nat,
                |k: int| step_bitmap(sprite@, rotated@, k)->Ok_0,
            ),
            sprites@.len() == step,
            forall|k: int|
                0 <= k < step ==> (#[trigger] sprites@[k])@ == single_variant(
                    baked_variant(
                        sprite@,
                        step_bitmap(sprite@, rotated@, k)->Ok_0,
                        (start.len() + k) as usize,
                    ),
                ),
        decreases count - step,
    {
        let bitmap = match step_raster(sprite, rotated, step) {
            Ok(bitmap) => bitmap,
            Err(error) => {
                proof {
                    lemma_steps_done_stops(sprite@, rotated@, step as nat, count as nat);
                }
                return Err(error);
            },
        };
        let x_offset = centering(sprite.width(), bitmap.width());
        let y_offset = centering(sprite.height(), bitmap.height());
        let handle = store.insert(bitmap);
        let mut variants: Vec<(usize, i32, i32)> = Vec::new();
        variants.push((handle, x_offset, y_offset));
        let single = SpriteRef::from_variants(1, variants);
        assert(single@.variants =~= single_variant((handle, x_offset, y_offset)).variants);
        sprites.push(single);
        proof {
            assert(step_bitmap(sprite@, rotated@, step as int) == Ok::<BitmapView, BakeError>(
                bitmap@,
            ));
            assert(store@ =~= start + Seq::new(
                (step + 1) as nat,
                |k: int| step_bitmap(sprite@, rotated@, k)->Ok_0,
            ));
        }
        step += 1;
    }
    let total = store.len();
    let reference = RotatingSpriteRef { rotations: count, sprites };
    proof {
        assert(reference@.sprites =~= Seq::new(
            count as nat,
            |k: int|
                single_variant(
                    baked_variant(
                        sprite@,
                        step_bitmap(sprite@, rotated@, k)->Ok_0,
                        (start.len() + k) as usize,
                    ),
                ),
        ));
        assert forall|k: int| 0 <= k < reference@.sprites.len() implies (
        #[trigger] reference@.sprites[k]).wf() && reference@.sprites[k].within(total as nat) by {
            assert(start.len() + k < total);
        }
    }
    Ok(reference)
}

} // verus!
