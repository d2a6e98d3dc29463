use rotsprite::rotsprite;
use specs_blit::draw_sprite;
use specs_blit::load;
use specs_blit::variant_count;
use specs_blit::BakeError;
use specs_blit::Bitmap;
use specs_blit::BitmapStore;
use specs_blit::PixelBuffer;
use specs_blit::RenderSystem;
use specs_blit::Sprite;

const MASK: u32 = 0xFF00FF;

/// The rasters of `sprite` turned by each step after the first of `rotations`
/// equal steps.
fn turned(sprite: &Bitmap, rotations: u16) -> Vec<Result<(usize, usize, Vec<u32>), BakeError>> {
    let count = variant_count(rotations);
    let divisor = 360.0 / f64::from(count);
    (1..count)
        .map(|step| {
            rotsprite(
                sprite.pixels(),
                &sprite.mask_color(),
                sprite.width(),
                f64::from(step) * divisor,
            )
            .map_err(|_| BakeError::ImageSizeMismatch)
        })
        .collect()
}

#[test]
fn placed_sprite_shows_its_opaque_pixel_only() {
    let opaque = 0x12_34_56;
    let bitmap = Bitmap::from_buffer(&[opaque, MASK], 2, MASK).unwrap();
    let mut store = BitmapStore::new();
    let reference = load(&mut store, &bitmap, 1, &turned(&bitmap, 1)).unwrap();
    let mut sprite = Sprite::new(reference);
    sprite.set_pos(10, 10);
    sprite.set_rot(0);
    let mut buffer = PixelBuffer::new(20, 20);
    RenderSystem.run(&store, &mut buffer, &vec![sprite]);
    assert_eq!(buffer.pixels().len(), 400);
    assert_eq!(buffer.pixels()[10 * 20 + 10], opaque);
    assert_eq!(buffer.pixels()[10 * 20 + 11], 0);
    for (index, pixel) in buffer.pixels().iter().enumerate() {
        if index != 10 * 20 + 10 {
            assert_eq!(*pixel, 0);
        }
    }
}

#[test]
fn four_rotations_resolve_by_quarter_turns() {
    let bitmap = Bitmap::from_buffer(&[1, 2, 3, 4], 2, MASK).unwrap();
    let mut store = BitmapStore::new();
    let reference = load(&mut store, &bitmap, 4, &turned(&bitmap, 4)).unwrap();
    assert_eq!(reference.variants().len(), 4);
    for (angle, variant) in [(0, 0), (90, 1), (180, 2), (270, 3), (359, 3)] {
        assert_eq!(reference.render_info(angle), reference.variants()[variant]);
        assert_eq!(reference.render_info(angle).0, variant);
    }
}

#[test]
fn rotated_sprite_draws_the_variant_of_its_angle() {
    let bitmap = Bitmap::from_buffer(&[1, 2, 3, 4], 2, MASK).unwrap();
    let mut store = BitmapStore::new();
    let reference = load(&mut store, &bitmap, 4, &turned(&bitmap, 4)).unwrap();
    let mut sprite = Sprite::new(reference);
    sprite.set_pos(1, 1);
    let mut system = RenderSystem;
    for (angle, shown) in [(0, [1, 2, 3, 4]), (90, [3, 1, 4, 2]), (180, [4, 3, 2, 1]), (270, [2, 4, 1, 3]), (360, [1, 2, 3, 4])] {
        sprite.set_rot(angle);
        let mut buffer = PixelBuffer::new(4, 4);
        system.run(&store, &mut buffer, &vec![sprite.clone()]);
        let pixels = buffer.pixels();
        assert_eq!([pixels[5], pixels[6], pixels[9], pixels[10]], shown);
        assert_eq!(pixels.iter().filter(|pixel| **pixel != 0).count(), 4);
    }
}

#[test]
fn sprite_of_only_mask_leaves_the_frame_unchanged() {
    let bitmap = Bitmap::from_buffer(&[MASK; 6], 3, MASK).unwrap();
    let mut store = BitmapStore::new();
    let reference = load(&mut store, &bitmap, 8, &turned(&bitmap, 8)).unwrap();
    let mut buffer = PixelBuffer::new(8, 8);
    buffer.clear(0xAB_CD_EF);
    let mut sprites = Vec::new();
    for (step, angle) in [0, 45, 90, 135, 180, 225, 270, 315].into_iter().enumerate() {
        let mut sprite = Sprite::new(reference.clone());
        sprite.set_pos(step as i32 - 2, 7 - step as i32);
        sprite.set_rot(angle);
        sprites.push(sprite);
    }
    RenderSystem.run(&store, &mut buffer, &sprites);
    assert_eq!(buffer.pixels(), &vec![0xAB_CD_EF; 64]);
    assert_eq!((buffer.width(), buffer.height()), (8, 8));
}

#[test]
fn run_does_not_clear_the_frame() {
    let bitmap = Bitmap::from_buffer(&[7], 1, MASK).unwrap();
    let mut store = BitmapStore::new();
    let reference = load(&mut store, &bitmap, 1, &turned(&bitmap, 1)).unwrap();
    let mut buffer = PixelBuffer::new(2, 2);
    buffer.clear(3);
    RenderSystem.run(&store, &mut buffer, &vec![Sprite::new(reference)]);
    assert_eq!(buffer.pixels(), &vec![7, 3, 3, 3]);
    RenderSystem.run(&store, &mut buffer, &Vec::new());
    assert_eq!(buffer.pixels(), &vec![7, 3, 3, 3]);
}

#[test]
fn run_draws_later_sprites_over_earlier_ones() {
    let mut store = BitmapStore::new();
    let red = Bitmap::from_buffer(&[1, 1, 1, 1], 2, MASK).unwrap();
    let blue = Bitmap::from_buffer(&[2, MASK, MASK, 2], 2, MASK).unwrap();
    let red = load(&mut store, &red, 1, &turned(&red, 1)).unwrap();
    let blue = load(&mut store, &blue, 1, &turned(&blue, 1)).unwrap();
    let mut under = Sprite::new(red);
    under.set_pos(0, 0);
    let mut over = Sprite::new(blue);
    over.set_pos(1, 1);
    let mut buffer = PixelBuffer::new(3, 3);
    RenderSystem.run(&store, &mut buffer, &vec![under, over]);
    assert_eq!(buffer.pixels(), &vec![1, 1, 0, 1, 2, 0, 0, 0, 2]);
}

#[test]
fn run_shifts_the_sprite_by_the_offsets_of_the_variant() {
    let bitmap = Bitmap::from_buffer(&[1; 8], 4, MASK).unwrap();
    let tall = Ok((2, 4, vec![5; 8]));
    let mut store = BitmapStore::new();
    let reference = load(&mut store, &bitmap, 2, &vec![tall]).unwrap();
    assert_eq!(reference.variants(), &vec![(0, 0, 0), (1, 1, -1)]);
    let mut sprite = Sprite::new(reference);
    sprite.set_pos(1, 1);
    sprite.set_rot(180);
    let mut buffer = PixelBuffer::new(6, 5);
    draw_sprite(&store, &mut buffer, &sprite);
    let mut expected = vec![0; 30];
    for row in 0..4 {
        expected[row * 6 + 2] = 5;
        expected[row * 6 + 3] = 5;
    }
    assert_eq!(buffer.pixels(), &expected);
}

#[test]
fn run_clips_sprites_at_the_edges_of_the_frame() {
    let bitmap = Bitmap::from_buffer(&[1, 2, 3, 4], 2, MASK).unwrap();
    let mut store = BitmapStore::new();
    let reference = load(&mut store, &bitmap, 1, &turned(&bitmap, 1)).unwrap();
    let mut sprites = Vec::new();
    for pos in [(-1, -1), (2, -1), (-1, 2), (2, 2), (i32::MAX, i32::MAX), (i32::MIN, 0), (3, 1)] {
        let mut sprite = Sprite::new(reference.clone());
        sprite.set_pos(pos.0, pos.1);
        sprites.push(sprite);
    }
    let mut buffer = PixelBuffer::new(3, 3);
    RenderSystem.run(&store, &mut buffer, &sprites);
    assert_eq!(buffer.pixels(), &vec![4, 0, 3, 0, 0, 0, 2, 0, 1]);
}

#[test]
fn run_on_an_empty_frame_draws_nothing() {
    let bitmap = Bitmap::from_buffer(&[1, 2, 3, 4], 2, MASK).unwrap();
    let mut store = BitmapStore::new();
    let reference = load(&mut store, &bitmap, 1, &turned(&bitmap, 1)).unwrap();
    let mut buffer = PixelBuffer::default();
    RenderSystem.run(&store, &mut buffer, &vec![Sprite::new(reference.clone())]);
    assert!(buffer.pixels().is_empty());
    let mut buffer = PixelBuffer::new(0, 4);
    RenderSystem.run(&store, &mut buffer, &vec![Sprite::new(reference)]);
    assert!(buffer.pixels().is_empty());
}
