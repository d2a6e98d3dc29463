use rotsprite::rotsprite;
use specs_blit::rotation::load_with_rotations;
use specs_blit::rotation::RotatingSprite;
use specs_blit::rotation::RotatingSpriteRef;
use specs_blit::rotation::RotationRenderSystem;
use specs_blit::variant_count;
use specs_blit::BakeError;
use specs_blit::Bitmap;
use specs_blit::BitmapStore;
use specs_blit::PixelBuffer;

const MASK: u32 = 0xFF00FF;

/// The rasters of `sprite` turned by each step after the first of `rotations`
/// equal steps.
fn quarter_turns(sprite: &Bitmap, rotations: u16) -> Vec<Result<(usize, usize, Vec<u32>), BakeError>> {
    let count = variant_count(rotations);
    let divisor = 360.0 / f64::from(count);
    (1..count)
        .map(|step| {
            rotsprite(
                sprite.pixels(),
                &sprite.mask_color(),
                sprite.width(),
                f64::from(step) * divisor,
            )
            .map_err(|_| BakeError::ImageSizeMismatch)
        })
        .collect()
}

fn rotating(store: &mut BitmapStore, rotations: u16) -> RotatingSpriteRef {
    let sprite = Bitmap::from_buffer(&[1, 2, 3, 4], 2, MASK).unwrap();
    load_with_rotations(store, &sprite, rotations, &quarter_turns(&sprite, rotations)).unwrap()
}

#[test]
fn load_with_rotations_bakes_a_sprite_for_each_step() {
    let mut store = BitmapStore::new();
    store.insert(Bitmap::from_buffer(&[0], 1, MASK).unwrap());
    let reference = rotating(&mut store, 4);
    assert_eq!(reference.rotations(), 4);
    assert_eq!(store.len(), 5);
    for (angle, handle) in [(0, 1), (90, 2), (180, 3), (270, 4)] {
        let shown = reference.reference(angle);
        assert_eq!(shown.rotations(), 1);
        assert_eq!(shown.variants(), &vec![(handle, 0, 0)]);
    }
    assert_eq!(store.get(1).pixels(), &vec![1, 2, 3, 4]);
    assert_eq!(store.get(2).pixels(), &vec![3, 1, 4, 2]);
    assert_eq!(store.get(3).pixels(), &vec![4, 3, 2, 1]);
    assert_eq!(store.get(4).pixels(), &vec![2, 4, 1, 3]);
    assert!(reference.is_within(&store));
    assert!(!reference.is_within(&BitmapStore::new()));
}

#[test]
fn load_with_rotations_treats_no_rotations_as_one() {
    let mut store = BitmapStore::new();
    let reference = rotating(&mut store, 0);
    assert_eq!(reference.rotations(), 1);
    assert_eq!(store.len(), 1);
    assert_eq!(reference.reference(200).variants(), &vec![(0, 0, 0)]);
}

#[test]
fn load_with_rotations_stops_at_the_first_failure() {
    let sprite = Bitmap::from_buffer(&[1, 2, 3, 4], 2, MASK).unwrap();
    let mut store = BitmapStore::new();
    let rotated = vec![Ok((2, 2, vec![1, 2, 3, 4])), Ok((2, 2, vec![1, 2, 3]))];
    let outcome = load_with_rotations(&mut store, &sprite, 3, &rotated);
    assert_eq!(outcome.unwrap_err(), BakeError::ImageSizeMismatch);
    assert_eq!(store.len(), 2);
    let outcome = load_with_rotations(&mut store, &sprite, 3, &rotated[..1].to_vec());
    assert_eq!(outcome.unwrap_err(), BakeError::MissingVariant);
    assert_eq!(store.len(), 4);
    let rotated = vec![Err(BakeError::TooLarge)];
    let outcome = load_with_rotations(&mut store, &sprite, 2, &rotated);
    assert_eq!(outcome.unwrap_err(), BakeError::TooLarge);
    assert_eq!(store.len(), 5);
    let reference = load_with_rotations(&mut store, &sprite, 1, &rotated).unwrap();
    assert_eq!(reference.reference(0).variants(), &vec![(5, 0, 0)]);
    assert_eq!(store.get(5).pixels(), &vec![1, 2, 3, 4]);
}

#[test]
fn reference_picks_the_step_that_holds_the_angle() {
    let mut store = BitmapStore::new();
    let reference = rotating(&mut store, 4);
    for (angle, handle) in [(0, 0), (89, 0), (90, 1), (269, 2), (270, 3), (359, 3), (360, 0), (u16::MAX, 0)] {
        assert_eq!(reference.reference(angle).variants()[0].0, handle);
    }
}

#[test]
fn rotating_sprite_starts_at_the_origin_unrotated() {
    let mut store = BitmapStore::new();
    let reference = rotating(&mut store, 4);
    let sprite = RotatingSprite::new(&reference);
    assert_eq!(sprite.pos(), (0, 0));
    assert_eq!(sprite.rot(), 0);
    assert_eq!(sprite.reference().variants(), &vec![(0, 0, 0)]);
    assert!(sprite.is_within(&store));
}

#[test]
fn rotating_sprite_takes_whole_turns_off() {
    let mut store = BitmapStore::new();
    let reference = rotating(&mut store, 4);
    let mut sprite = RotatingSprite::new(&reference);
    for (angle, kept) in [(0, 0), (359, 359), (360, 0), (361, 1), (720, 0), (u16::MAX, 15)] {
        sprite.set_rot(angle);
        assert_eq!(sprite.rot(), kept);
    }
    sprite.set_rot(450);
    assert_eq!(sprite.reference().variants()[0].0, 1);
    sprite.set_pos(-3, 8);
    assert_eq!(sprite.pos(), (-3, 8));
    assert_eq!(sprite.rot(), 90);
    let twin = sprite.clone();
    assert_eq!((twin.pos(), twin.rot()), ((-3, 8), 90));
}

#[test]
fn rotation_render_draws_the_sprite_of_the_angle_at_its_place() {
    let mut store = BitmapStore::new();
    let reference = rotating(&mut store, 4);
    let mut sprite = RotatingSprite::new(&reference);
    sprite.set_pos(1, 0);
    sprite.set_rot(180);
    let mut other = RotatingSprite::new(&reference);
    other.set_pos(-1, 1);
    let mut buffer = PixelBuffer::new(3, 3);
    buffer.clear(9);
    RotationRenderSystem.run(&store, &mut buffer, &vec![sprite, other]);
    assert_eq!(buffer.pixels(), &vec![9, 4, 3, 2, 2, 1, 4, 9, 9]);
}

#[test]
fn load_with_rotations_centres_each_step_on_the_source() {
    let sprite = Bitmap::from_buffer(&[1; 40], 10, MASK).unwrap();
    let rotated = vec![
        Ok((7, 9, vec![MASK; 63])),
        Ok((13, 12, vec![MASK; 156])),
        Ok((11, 5, vec![MASK; 55])),
    ];
    let mut store = BitmapStore::new();
    let reference = load_with_rotations(&mut store, &sprite, 4, &rotated).unwrap();
    for (angle, variant) in [(0, (0, 0, 0)), (90, (1, 1, -2)), (180, (2, -1, -4)), (270, (3, 0, 0))] {
        assert_eq!(reference.reference(angle).variants(), &vec![variant]);
    }
}

#[test]
fn rotation_render_shifts_a_larger_variant_onto_the_source() {
    let sprite = Bitmap::from_buffer(&[1, 2, 3, 4, 5, 6], 3, MASK).unwrap();
    let rotated: Vec<Result<(usize, usize, Vec<u32>), BakeError>> =
        (1..8).map(|_| Ok((4, 4, vec![7; 16]))).collect();
    let mut store = BitmapStore::new();
    let reference = load_with_rotations(&mut store, &sprite, 8, &rotated).unwrap();
    assert_eq!(reference.reference(45).variants(), &vec![(1, 0, -1)]);
    let mut placed = RotatingSprite::new(&reference);
    placed.set_pos(5, 5);
    placed.set_rot(45);
    let mut buffer = PixelBuffer::new(10, 10);
    RotationRenderSystem.run(&store, &mut buffer, &vec![placed]);
    for row in 0..10 {
        for column in 0..10 {
            let covered = (4..8).contains(&row) && (5..9).contains(&column);
            assert_eq!(buffer.pixels()[row * 10 + column], if covered { 7 } else { 0 });
        }
    }
}

#[test]
fn rotation_render_shifts_the_variants_of_a_real_rotation() {
    let sprite = Bitmap::from_buffer(&[1, 2, 3, 4, 5, 6], 3, MASK).unwrap();
    let mut store = BitmapStore::new();
    let reference =
        load_with_rotations(&mut store, &sprite, 8, &quarter_turns(&sprite, 8)).unwrap();
    let shown = reference.reference(45).variants()[0];
    assert_eq!(shown, (1, 0, -1));
    assert_eq!(store.get(1).size(), (4, 4));
    let mut placed = RotatingSprite::new(&reference);
    placed.set_pos(5, 5);
    placed.set_rot(45);
    let mut buffer = PixelBuffer::new(10, 10);
    RotationRenderSystem.run(&store, &mut buffer, &vec![placed]);
    let mut expected = vec![0; 100];
    for (index, pixel) in store.get(1).pixels().iter().enumerate() {
        if *pixel != MASK {
            expected[(4 + index / 4) * 10 + 5 + index % 4] = *pixel;
        }
    }
    assert_eq!(buffer.pixels(), &expected);
    assert!(buffer.pixels().iter().any(|pixel| *pixel != 0));
}
