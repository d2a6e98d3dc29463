use vstd::prelude::*;

use crate::bitmap::bitmap_from;
use crate::bitmap::Bitmap;
use crate::bitmap::BitmapView;
use crate::error::BakeError;
use crate::sprite::SpriteRef;
use crate::sprite::SpriteRefView;
use crate::store::BitmapStore;

verus! {

/// The number of variants that are baked when `rotations` are asked for: none
/// asked for means the one that is not rotated.
pub open spec fn rotation_count(rotations: u16) -> nat {
    if rotations == 0 {
        1
    } else {
        rotations as nat
    }
}

/// How far a side of length `rotated` is shifted to sit centred on one of
/// length `source`: half the difference, rounded towards zero.
pub open spec fn centering_offset(source: nat, rotated: nat) -> int {
    if source >= rotated {
        (source - rotated) / 2
    } else {
        -((rotated - source) / 2)
    }
}

/// The variant that stands for `rotated`, stored under `handle`, in a sprite
/// baked from `source`.
pub open spec fn baked_variant(source: BitmapView, rotated: BitmapView, handle: usize) -> (
    usize,
    i32,
    i32,
) {
    (
        handle,
        centering_offset(source.width, rotated.width) as i32,
        centering_offset(source.height, rotated.height) as i32,
    )
}

/// The bitmap that a raster, given as width, height and row-major pixels,
/// makes with `mask_color`.
pub open spec fn raster_bitmap(raster: (usize, usize, Vec<u32>), mask_color: u32) -> Result<
    BitmapView,
    BakeError,
> {
    match bitmap_from(raster.2@, raster.0 as nat, mask_color) {
        Ok(bitmap) => if bitmap.height == raster.1 {
            Ok(bitmap)
        } else {
            Err(BakeError::ImageSizeMismatch)
        },
        Err(error) => Err(error),
    }
}

/// What rotation step `step` has to show. The first step is not rotated and
/// shows `source` itself. A later step `k` shows the bitmap of the raster
/// `rotated[k - 1]`, or comes with the reason why there is none.
pub open spec fn step_bitmap(
    source: BitmapView,
    rotated: Seq<Result<(usize, usize, Vec<u32>), BakeError>>,
    step: int,
) -> Result<BitmapView, BakeError> {
    if step == 0 {
        Ok(source)
    } else if 1 <= step <= rotated.len() {
        match rotated[step - 1] {
            Ok(raster) => raster_bitmap(raster, source.mask_color),
            Err(error) => Err(error),
        }
    } else {
        Err(BakeError::MissingVariant)
    }
}

/// How many of the first `count` steps are baked: those before the first one
/// without a bitmap.
pub open spec fn steps_done(
    source: BitmapView,
    rotated: Seq<Result<(usize, usize, Vec<u32>), BakeError>>,
    count: nat,
) -> nat
    decreases count,
{
    if count == 0 {
        0
    } else {
        let before = steps_done(source, rotated, (count - 1) as nat);
        if before == count - 1 && step_bitmap(source, rotated, count - 1) is Ok {
            count
        } else {
            before
        }
    }
}

/// The store after baking, and the sprite or the failure that baking ends in.
///
/// The steps are taken in order of angle, beginning with the source itself,
/// which is not rotated. Each stores its bitmap under the next free handle; the
/// first step without a bitmap ends the bake with its error, and what was
/// stored before it stays.
pub open spec fn bake(
    store: Seq<BitmapView>,
    source: BitmapView,
    rotations: u16,
    rotated: Seq<Result<(usize, usize, Vec<u32>), BakeError>>,
) -> (Seq<BitmapView>, Result<SpriteRefView, BakeError>) {
    let count = rotation_count(rotations);
    let done = steps_done(source, rotated, count);
    (
        store + Seq::new(done, |k: int| step_bitmap(source, rotated, k)->Ok_0),
        if done == count {
            Ok(
                SpriteRefView {
                    rotations: count,
                    variants: Seq::new(
                        count,
                        |k: int|
                            baked_variant(
                                source,
                                step_bitmap(source, rotated, k)->Ok_0,
                                (store.len() + k) as usize,
                            ),
                    ),
                },
            )
        } else {
            Err(step_bitmap(source, rotated, done as int)->Err_0)
        },
    )
}

/// Once a step is without a bitmap, asking for more steps bakes no more.
pub(crate) proof fn lemma_steps_done_stops(
    source: BitmapView,
    rotated: Seq<Result<(usize, usize, Vec<u32>), BakeError>>,
    failed: nat,
    count: nat,
)
    requires
        steps_done(source, rotated, failed) == failed,
        step_bitmap(source, rotated, failed as int) is Err,
        failed < count,
    ensures
        steps_done(source, rotated, count) == failed,
    decreases count,
{
    if count > failed + 1 {
        lemma_steps_done_stops(source, rotated, failed, (count - 1) as nat);
    }
}

/// A bake that succeeds yields one variant for each step: as many as were
/// asked for, and one where none was.
pub proof fn lemma_bake_variant_count(
    store: Seq<BitmapView>,
    source: BitmapView,
    rotations: u16,
    rotated: Seq<Result<(usize, usize, Vec<u32>), BakeError>>,
)
    requires
        bake(store, source, rotations, rotated).1 is Ok,
    ensures
        bake(store, source, rotations, rotated).1->Ok_0.wf(),
        bake(store, source, rotations, rotated).1->Ok_0.variants.len() == rotation_count(
            rotations,
        ),
        rotations >= 1 ==> rotation_count(rotations) == rotations,
{
}

/// Baking succeeds exactly when each step has a bitmap, and otherwise fails
/// with the error of the first step that has none.
pub proof fn lemma_bake_fails_at_first_gap(
    store: Seq<BitmapView>,
    source: BitmapView,
    rotations: u16,
    rotated: Seq<Result<(usize, usize, Vec<u32>), BakeError>>,
)
    ensures
        ({
            let count = rotation_count(rotations);
            let done = steps_done(source, rotated, count);
            &&& done <= count
            &&& forall|k: int|
                0 <= k < done ==> (#[trigger] step_bitmap(source, rotated, k)) is Ok
            &&& done < count ==> step_bitmap(source, rotated, done as int) is Err
            &&& bake(store, source, rotations, rotated).1 is Ok <==> done == count
            &&& bake(store, source, rotations, rotated).0.len() == store.len() + done
        }),
{
    lemma_steps_done_is_first_gap(source, rotated, rotation_count(rotations));
}

/// The steps counted as done all have a bitmap, and the next one, if it was
/// asked for, has none.
proof fn lemma_steps_done_is_first_gap(
    source: BitmapView,
    rotated: Seq<Result<(usize, usize, Vec<u32>), BakeError>>,
    count: nat,
)
    ensures
        steps_done(source, rotated, count) <= count,
        forall|k: int|
            0 <= k < steps_done(source, rotated, count) ==> (#[trigger] step_bitmap(source, rotated,
                k,
            )) is Ok,
        steps_done(source, rotated, count) < count ==> step_bitmap(source, rotated,
            steps_done(source, rotated, count) as int,
        ) is Err,
    decreases count,
{
    if count > 0 {
        lemma_steps_done_is_first_gap(source, rotated, (count - 1) as nat);
    }
}

/// Baking is a function of what is baked: doing it a second time, on the store
/// that the first bake left, succeeds where the first did, and gives a sprite
/// with handles of its own whose variants have the same offsets and
/// pixel-identical bitmaps.
pub proof fn lemma_bake_twice_same_bitmaps(
    store: Seq<BitmapView>,
    source: BitmapView,
    rotations: u16,
    rotated: Seq<Result<(usize, usize, Vec<u32>), BakeError>>,
)
    requires
        store.len() + 2 * rotation_count(rotations) <= usize::MAX,
        bake(store, source, rotations, rotated).1 is Ok,
    ensures
        ({
            let first = bake(store, source, rotations, rotated);
            let second = bake(first.0, source, rotations, rotated);
            let count = rotation_count(rotations) as int;
            &&& second.1 is Ok
            &&& forall|k: int|
                #![trigger first.1->Ok_0.variants[k]]
                #![trigger second.1->Ok_0.variants[k]]
                0 <= k < count ==> {
                    let one = first.1->Ok_0.variants[k];
                    let other = second.1->Ok_0.variants[k];
                    &&& other.0 == one.0 + count
                    &&& other.1 == one.1
                    &&& other.2 == one.2
                    &&& second.0[one.0 as int] == first.0[one.0 as int]
                    &&& second.0[other.0 as int] == first.0[one.0 as int]
                }
        }),
{
    lemma_bake_fails_at_first_gap(store, source, rotations, rotated);
}

/// The step that is not rotated is baked as it is: the bitmap stored for the
/// first step is the source, pixel for pixel, and its variant has the offsets
/// `(0, 0)`. Where no more than one rotation is asked for, the bake succeeds
/// with that one variant, whatever else is handed in.
pub proof fn lemma_bake_unrotated_is_source(
    store: Seq<BitmapView>,
    source: BitmapView,
    rotations: u16,
    rotated: Seq<Result<(usize, usize, Vec<u32>), BakeError>>,
)
    requires
        store.len() < usize::MAX,
    ensures
        ({
            let baked = bake(store, source, rotations, rotated);
            &&& baked.0.len() > store.len()
            &&& baked.0[store.len() as int] == source
            &&& baked.1 is Ok ==> baked.1->Ok_0.variants[0] == (store.len() as usize, 0i32, 0i32)
            &&& rotations <= 1 ==> baked.0 == store.push(source) && baked.1 == Ok::<
                SpriteRefView,
                BakeError,
            >(
                SpriteRefView {
                    rotations: 1,
                    variants: seq![(store.len() as usize, 0i32, 0i32)],
                },
            )
        }),
{
    let count = rotation_count(rotations);
    lemma_steps_done_is_first_gap(source, rotated, count);
    lemma_steps_done_from_first(source, rotated, count);
    let baked = bake(store, source, rotations, rotated);
    if rotations <= 1 {
        assert(baked.0 =~= store.push(source));
        assert(baked.1->Ok_0.variants =~= seq![(store.len() as usize, 0i32, 0i32)]);
    }
}

/// The first step is always done.
proof fn lemma_steps_done_from_first(
    source: BitmapView,
    rotated: Seq<Result<(usize, usize, Vec<u32>), BakeError>>,
    count: nat,
)
    requires
        count >= 1,
    ensures
        steps_done(source, rotated, count) >= 1,
    decreases count,
{
    if count > 1 {
        lemma_steps_done_from_first(source, rotated, (count - 1) as nat);
    } else {
        assert(steps_done(source, rotated, 0) == 0);
    }
}

/// The offset that centres a side of length `rotated` on one of length
/// `source`.
pub(crate) fn centering(source: usize, rotated: usize) -> (offset: i32)
    requires
        source <= i32::MAX,
        rotated <= i32::MAX,
    ensures
        offset == centering_offset(source as nat, rotated as nat),
{
    if source >= rotated {
        ((source - rotated) / 2) as i32
    } else {
        -(((rotated - source) / 2) as i32)
    }
}

/// The bitmap that rotation step `step` has to show, or why there is none.
pub(crate) fn step_raster(
    sprite: &Bitmap,
    rotated: &Vec<Result<(usize, usize, Vec<u32>), BakeError>>,
    step: u16,
) -> (outcome: Result<Bitmap, BakeError>)
    requires
        sprite.wf(),
    ensures
        match outcome {
            Ok(bitmap) => bitmap.wf() && step_bitmap(sprite@, rotated@, step as int) == Ok::<
                BitmapView,
                BakeError,
            >(bitmap@),
            Err(error) => step_bitmap(sprite@, rotated@, step as int) == Err::<
                BitmapView,
                BakeError,
            >(error),
        },
{
    if step == 0 {
        return Ok(sprite.clone());
    }
    if step as usize > rotated.len() {
        return Err(BakeError::MissingVariant);
    }
    match &rotated[step as usize - 1] {
        Ok(raster) => {
            match Bitmap::from_buffer(raster.2.as_slice(), raster.0, sprite.mask_color()) {
                Ok(bitmap) => {
                    if bitmap.height() != raster.1 {
                        Err(BakeError::ImageSizeMismatch)
                    } else {
                        Ok(bitmap)
                    }
                },
                Err(error) => Err(error),
            }
        },
        Err(error) => Err(*error),
    }
}

/// The number of variants that [`load`] bakes when `rotations` are asked for.
pub fn variant_count(rotations: u16) -> (count: u16)
    ensures
        count == rotation_count(rotations),
{
    if rotations == 0 {
        1
    } else {
        rotations
    }
}

/// Bakes a sprite: stores the rotated variants of `sprite` and returns the
/// reference that names them.
///
/// The first variant is `sprite` itself, which is not rotated. `rotated`
/// holds, for each rotation step after the first in order of angle, the
/// raster of `sprite` turned by that step's angle, as width, height and
/// row-major pixels, or the error that rasterizing it ended in.
pub fn load(
    store: &mut BitmapStore,
    sprite: &Bitmap,
    rotations: u16,
    rotated: &Vec<Result<(usize, usize, Vec<u32>), BakeError>>,
) -> (outcome: Result<SpriteRef, BakeError>)
    requires
        old(store).wf(),
        sprite.wf(),
    ensures
        final(store).wf(),
        final(store)@ == bake(old(store)@, sprite@, rotations, rotated@).0,
        match outcome {
            Ok(reference) => {
                &&& bake(old(store)@, sprite@, rotations, rotated@).1 == Ok::<
                    SpriteRefView,
                    BakeError,
                >(reference@)
                &&& reference.wf()
                &&& reference@.within(final(store)@.len())
            },
            Err(error) => bake(old(store)@, sprite@, rotations, rotated@).1 == Err::<
                SpriteRefView,
                BakeError,
            >(error),
        },
        final(store)@.len() > old(store)@.len(),
        final(store)@[old(store)@.len() as int] == sprite@,
        outcome is Ok ==> {
            &&& outcome->Ok_0@.variants[0].0 == old(store)@.len()
            &&& outcome->Ok_0@.variants[0].1 == 0
            &&& outcome->Ok_0@.variants[0].2 == 0
        },
        rotations <= 1 ==> outcome is Ok && final(store)@ == old(store)@.push(sprite@),
{
    let ghost start = store@;
    let count = variant_count(rotations);
    let mut sprites: Vec<(usize, i32, i32)> = Vec::new();
    let mut step: u16 = 0;
    assert(store@ =~= start + Seq::new(0, |k: int| step_bitmap(sprite@, rotated@, k)->Ok_0));
    while step < count
        invariant
            store.wf(),
            sprite.wf(),
            step <= count,
            count == rotation_count(rotations),
            start == old(store)@,
            steps_done(sprite@, rotated@, step as nat) == step,
            store@ == start + Seq::new(
                step as nat,
                |k: int| step_bitmap(sprite@, rotated@, k)->Ok_0,
            ),
            sprites@ == Seq::new(
                step as nat,
                |k: int|
                    baked_variant(
                        sprite@,
                        step_bitmap(sprite@, rotated@, k)->Ok_0,
                        (start.len() + k) as usize,
                    ),
            ),
        decreases count - step,
    {
        let bitmap = match step_raster(sprite, rotated, step) {
            Ok(bitmap) => bitmap,
            Err(error) => {
                proof {
                    lemma_steps_done_stops(sprite@, rotated@, step as nat, count as nat);
                }
                return Err(error);
            },
        };
        let x_offset = centering(sprite.width(), bitmap.width());
        let y_offset = centering(sprite.height(), bitmap.height());
        let handle = store.insert(bitmap);
        sprites.push((handle, x_offset, y_offset));
        proof {
            assert(step_bitmap(sprite@, rotated@, step as int) == Ok::<BitmapView, BakeError>(
                bitmap@,
            ));
            assert(store@ =~= start + Seq::new(
                (step + 1) as nat,
                |k: int| step_bitmap(sprite@, rotated@, k)->Ok_0,
            ));
            assert(sprites@ =~= Seq::new(
                (step + 1) as nat,
                |k: int|
                    baked_variant(
                        sprite@,
                        step_bitmap(sprite@, rotated@, k)->Ok_0,
                        (start.len() + k) as usize,
                    ),
            ));
        }
        step += 1;
    }
    let reference = SpriteRef::from_variants(count, sprites);
    let total = store.len();
    assert forall|k: int| 0 <= k < reference@.variants.len() implies (
    #[trigger] reference@.variants[k]).0 < total by {
        assert(start.len() + k < total);
    }
    Ok(reference)
}

} // verus!
