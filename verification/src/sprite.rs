use vstd::prelude::*;

use crate::store::BitmapStore;

verus! {

/// The index of the step that `rotation` degrees falls into when the full
/// turn is divided into `rotations` equal steps: `rotation * rotations / 360`,
/// rounded down.
pub open spec fn rotation_index(rotation: int, rotations: nat) -> int {
    (rotation * rotations) / 360
}

/// The angle that [`Sprite::set_rot`] keeps for `rotation`: whole turns are
/// added while it is negative and taken off while it is above 360, so a full
/// turn of exactly 360 stays.
pub open spec fn wrapped_rotation(rotation: int) -> int {
    if rotation < 0 {
        rotation % 360
    } else if rotation <= 360 {
        rotation
    } else {
        (rotation - 1) % 360 + 1
    }
}

/// What a [`SpriteRef`] is, mathematically.
pub struct SpriteRefView {
    /// Into how many equal steps the full turn is divided.
    pub rotations: nat,
    /// For each step, in order of angle: the handle of its bitmap, and the
    /// horizontal and vertical offset at which it is drawn.
    pub variants: Seq<(usize, i32, i32)>,
}

impl SpriteRefView {
    /// There is one variant for each step, and at least one step.
    pub open spec fn wf(self) -> bool {
        self.rotations >= 1 && self.variants.len() == self.rotations
    }

    /// The variant drawn at `rotation` degrees: the one of the step that the
    /// angle falls into, and the first where there is no such step.
    pub open spec fn variant_at(self, rotation: int) -> (usize, i32, i32) {
        let index = rotation_index(rotation, self.rotations);
        if 0 <= index < self.variants.len() {
            self.variants[index]
        } else {
            self.variants[0]
        }
    }

    /// Every handle names a bitmap of a store that holds `len` of them.
    pub open spec fn within(self, len: nat) -> bool {
        forall|k: int| 0 <= k < self.variants.len() ==> (#[trigger] self.variants[k]).0 < len
    }
}

/// The angle at which step `k` of the turn begins selects variant `k`: where
/// `angle` is `k` times the `rotations`-th part of 360 degrees, the variant
/// drawn at `angle` is the `k`-th.
pub proof fn lemma_step_angle_selects_its_variant(reference: SpriteRefView, k: int, angle: int)
    requires
        reference.wf(),
        0 <= k < reference.rotations,
        angle * reference.rotations == 360 * k,
    ensures
        rotation_index(angle, reference.rotations) == k,
        reference.variant_at(angle) == reference.variants[k],
{
}

/// An angle outside the turn selects the first variant: below 0 and from 360
/// on, no step covers the angle, and the variant drawn is the one that is not
/// rotated.
pub proof fn lemma_angle_outside_turn_selects_first(reference: SpriteRefView, angle: int)
    requires
        reference.wf(),
        angle < 0 || angle >= 360,
    ensures
        reference.variant_at(angle) == reference.variants[0],
{
    let n = reference.rotations as int;
    if angle < 0 {
        assert(angle * n < 0) by (nonlinear_arith)
            requires
                angle < 0,
                n >= 1,
        ;
    } else {
        assert(angle * n >= 360 * n) by (nonlinear_arith)
            requires
                angle >= 360,
                n >= 1,
        ;
    }
}

/// A baked sprite: the rotated variants of one bitmap, by handle.
#[derive(Debug)]
pub struct SpriteRef {
    rotations: u16,
    sprites: Vec<(usize, i32, i32)>,
}

impl View for SpriteRef {
    type V = SpriteRefView;

    closed spec fn view(&self) -> SpriteRefView {
        SpriteRefView { rotations: self.rotations as nat, variants: self.sprites@ }
    }
}

impl SpriteRef {
    /// The invariant of every reference this library hands out.
    pub open spec fn wf(&self) -> bool {
        self@.wf()
    }

    /// The reference to `sprites`, one variant for each of `rotations` steps.
    pub(crate) fn from_variants(rotations: u16, sprites: Vec<(usize, i32, i32)>) -> (reference: Self)
        requires
            rotations >= 1,
            sprites@.len() == rotations,
        ensures
            reference.wf(),
            reference@ == (SpriteRefView { rotations: rotations as nat, variants: sprites@ }),
    {
        Self { rotations, sprites }
    }

    /// Into how many equal steps the full turn is divided.
    pub fn rotations(&self) -> (rotations: u16)
        ensures
            rotations == self@.rotations,
    {
        self.rotations
    }

    /// The variants, in order of angle.
    pub fn variants(&self) -> (variants: &Vec<(usize, i32, i32)>)
        ensures
            variants@ == self@.variants,
    {
        &self.sprites
    }

    /// The bitmap handle and the offsets to draw with at `rotation` degrees.
    pub fn render_info(&self, rotation: i16) -> (info: (usize, i32, i32))
        requires
            self.wf(),
        ensures
            info == self@.variant_at(rotation as int),
    {
        if rotation < 0 {
            assert(rotation_index(rotation as int, self@.rotations) < 0) by (nonlinear_arith)
                requires
                    rotation < 0,
                    self@.rotations >= 1,
            ;
            return self.sprites[0];
        }
        assert(0 <= rotation * self.rotations <= 0x7fff * 0xffff) by (nonlinear_arith)
            requires
                0 <= rotation <= 0x7fff,
                0 <= self.rotations <= 0xffff,
        ;
        let index = (rotation as u64 * self.rotations as u64) / 360;
        if index < self.sprites.len() as u64 {
            self.sprites[index as usize]
        } else {
            self.sprites[0]
        }
    }

    /// Whether every handle names a bitmap of `store`.
    pub fn is_within(&self, store: &BitmapStore) -> (within: bool)
        ensures
            within == self@.within(store@.len()),
    {
        let len = store.len();
        let mut k: usize = 0;
        while k < self.sprites.len()
            invariant
                k <= self.sprites@.len(),
                len == store@.len(),
                forall|j: int| 0 <= j < k ==> (#[trigger] self.sprites@[j]).0 < len,
            decreases self.sprites@.len() - k,
        {
            if self.sprites[k].0 >= len {
                assert(self@.variants[k as int].0 >= len);
                return false;
            }
            k += 1;
        }
        true
    }
}

impl Clone for SpriteRef {
    fn clone(&self) -> (copy: Self)
        ensures
            copy@ == self@,
    {
        let mut sprites: Vec<(usize, i32, i32)> = Vec::new();
        let mut k: usize = 0;
        while k < self.sprites.len()
            invariant
                k <= self.sprites@.len(),
                sprites@ == self.sprites@.take(k as int),
            decreases self.sprites@.len() - k,
        {
            sprites.push(self.sprites[k]);
            assert(sprites@ =~= self.sprites@.take(k + 1));
            k += 1;
        }
        assert(sprites@ =~= self.sprites@);
        SpriteRef { rotations: self.rotations, sprites }
    }
}

/// What a [`Sprite`] is, mathematically.
pub struct SpriteView {
    pub reference: SpriteRefView,
    /// Column and row of the screen at which the sprite is placed.
    pub pos: (i32, i32),
    /// The rotation in degrees.
    pub rot: i16,
}

impl SpriteView {
    /// The reference is well formed and the rotation is within a full turn.
    pub open spec fn wf(self) -> bool {
        self.reference.wf() && 0 <= self.rot <= 360
    }

    /// The variant that is drawn at the sprite's rotation.
    pub open spec fn variant(self) -> (usize, i32, i32) {
        self.reference.variant_at(self.rot as int)
    }
}

/// A sprite placed on the screen: which baked sprite, where, and turned how
/// far.
#[derive(Debug)]
pub struct Sprite {
    reference: SpriteRef,
    pos: (i32, i32),
    rot: i16,
}

impl View for Sprite {
    type V = SpriteView;

    closed spec fn view(&self) -> SpriteView {
        SpriteView { reference: self.reference@, pos: self.pos, rot: self.rot }
    }
}

impl Sprite {
    /// The invariant that the methods of a sprite keep.
    pub open spec fn wf(&self) -> bool {
        self@.wf()
    }

    /// A sprite at the top left corner, not rotated.
    pub fn new(sprite_reference: SpriteRef) -> (sprite: Self)
        ensures
            sprite@ == (SpriteView { reference: sprite_reference@, pos: (0, 0), rot: 0 }),
    {
        Self { reference: sprite_reference, pos: (0, 0), rot: 0 }
    }

    /// The baked sprite that is drawn.
    pub fn reference(&self) -> (reference: &SpriteRef)
        ensures
            reference@ == self@.reference,
    {
        &self.reference
    }

    /// Moves the sprite to column `x`, row `y`.
    pub fn set_pos(&mut self, x: i32, y: i32)
        ensures
            final(self)@.pos == (x, y),
            final(self)@.reference == old(self)@.reference,
            final(self)@.rot == old(self)@.rot,
    {
        self.pos.0 = x;
        self.pos.1 = y;
    }

    /// Column and row at which the sprite is placed.
    pub fn pos(&self) -> (pos: (i32, i32))
        ensures
            pos == self@.pos,
    {
        self.pos
    }

    /// Turns the sprite to `rotation` degrees, wrapped into a full turn.
    pub fn set_rot(&mut self, rotation: i16)
        ensures
            final(self)@.rot == wrapped_rotation(rotation as int),
            0 <= final(self)@.rot <= 360,
            final(self)@.reference == old(self)@.reference,
            final(self)@.pos == old(self)@.pos,
    {
        let mut wrapped = rotation;
        while wrapped < 0
            invariant
                rotation >= 0 ==> wrapped == rotation,
                rotation < 0 ==> wrapped < 360 && wrapped % 360 == rotation % 360,
            decreases 360 - wrapped,
        {
            wrapped += 360;
        }
        while wrapped > 360
            invariant
                0 <= wrapped,
                rotation <= 360 ==> wrapped == wrapped_rotation(rotation as int),
                rotation > 360 ==> wrapped >= 1 && (wrapped - 1) % 360 == (rotation - 1) % 360,
            decreases wrapped,
        {
            wrapped -= 360;
        }
        self.rot = wrapped;
    }

    /// The rotation in degrees.
    pub fn rot(&self) -> (rot: i16)
        ensures
            rot == self@.rot,
    {
        self.rot
    }

    /// The bitmap handle and the offsets to draw this sprite with.
    pub fn render_info(&self) -> (info: (usize, i32, i32))
        requires
            self.wf(),
        ensures
            info == self@.variant(),
    {
        self.reference.render_info(self.rot)
    }
}

impl Clone for Sprite {
    fn clone(&self) -> (copy: Self)
        ensures
            copy@ == self@,
    {
        Sprite { reference: self.reference.clone(), pos: self.pos, rot: self.rot }
    }
}

} // verus!
