//! Cover art: policies, textures, animations and the cache on disk.
use image::codecs::gif::GifEncoder;
use image::{Delay, DynamicImage, Frame, ImageFormat, RgbaImage};
use std::hash::{Hash, Hasher};
use std::io::Cursor;
use std::time::Duration;
use zitch::images::{
    after_remove, after_write, cache_name, is_finished, over_budget, total, variant_name,
    Animations, CacheFile, CoverLoader, Entry, Lookup, Policy, Prune, Textures, Variant,
    RETRY_AFTER,
};
use zitch::picture::{
    decode_animation, encode_jpeg, flatten, make_variants, read_still, read_variant, Animation,
    Picture,
};

#[test]
fn short_screens_are_handhelds() {
    let low = Policy::for_screen(599, None);
    assert!(low.low_spec && !low.animate);
    assert_eq!((low.thumb_width, low.detail_width), (200, 400));
    assert_eq!(low.texture_budget, 24 << 20);
    assert_eq!(low.disk_budget, 50 << 20);
    assert_eq!(low.max_download, 2 << 20);
    let high = Policy::for_screen(600, None);
    assert!(!high.low_spec && high.animate);
    assert_eq!(high.widths(), vec![400, 630]);
    assert_eq!(high.texture_budget, 96 << 20);
    assert_eq!(high.disk_budget, 200 << 20);
    assert_eq!(high.max_download, 8 << 20);
    assert_eq!(high.animation_budget, 48 << 20);
    assert_eq!(Policy::for_screen(2000, Some(true)), low);
    assert_eq!(Policy::for_screen(20, Some(false)), high);
    assert_eq!(high.width(Variant::Detail), 630);
}

fn loader() -> CoverLoader<&'static str, u8> {
    CoverLoader::new(Policy::for_screen(1080, None))
}

#[test]
fn covers_are_loaded_once() {
    let mut covers = loader();
    assert_eq!(covers.texture("a", Variant::Thumb, 0), Lookup::Start);
    assert_eq!(covers.texture("a", Variant::Thumb, 1), Lookup::Waiting);
    // Another width is another texture.
    assert_eq!(covers.texture("a", Variant::Detail, 1), Lookup::Start);
    covers.textures.complete("a", 400, Some(("A", 10)), 2);
    assert_eq!(covers.texture("a", Variant::Thumb, 3), Lookup::Ready(0));
    assert_eq!(covers.textures.ready[0].handle, "A");
    assert_eq!(covers.textures.used, 10);
}

#[test]
fn failed_covers_are_tried_again_later() {
    let mut covers = loader();
    covers.texture("a", Variant::Thumb, 0);
    covers.textures.complete("a", 400, None, 5);
    assert_eq!(
        covers.texture("a", Variant::Thumb, 4 + RETRY_AFTER),
        Lookup::Waiting
    );
    assert_eq!(
        covers.texture("a", Variant::Thumb, 5 + RETRY_AFTER),
        Lookup::Start
    );
    assert!(covers.textures.failed.is_empty());
}

#[test]
fn the_least_recently_drawn_go() {
    let mut textures: Textures<u8> = Textures::new();
    for url in ["c", "a", "b"] {
        assert_eq!(textures.look_up(url, 1, 0), Lookup::Start);
        textures.complete(url, 1, Some((0, 100)), 0);
    }
    // All are on screen: nothing goes, though the budget is exceeded.
    textures.end_frame(150);
    textures.end_frame(150);
    assert_eq!(textures.ready.len(), 3);
    textures.look_up("a", 1, 0);
    textures.end_frame(150);
    // Now "b" goes before "c"; both have to.
    assert_eq!(textures.ready.len(), 1);
    assert_eq!(textures.ready[0].url, "a");
    assert_eq!(textures.used, 100);
    textures.end_frame(0);
    assert_eq!(textures.ready.len(), 1);
}

#[test]
fn of_two_as_old_the_first_by_name_goes() {
    let mut textures: Textures<u8> = Textures::new();
    for url in ["b", "a"] {
        textures.look_up(url, 1, 0);
        textures.complete(url, 1, Some((0, 100)), 0);
    }
    for _ in 0..3 {
        textures.end_frame(100);
    }
    assert_eq!(textures.ready.len(), 1);
    assert_eq!(textures.ready[0].url, "b");
}

#[test]
fn one_animation_is_kept() {
    let mut animations: Animations<u8> = Animations::new();
    assert_eq!(animations.ask("a"), Lookup::Start);
    assert_eq!(animations.ask("a"), Lookup::Waiting);
    assert_eq!(animations.ask("b"), Lookup::Start);
    assert!(animations.complete("a", Ok(1)));
    assert_eq!(animations.ask("a"), Lookup::Ready(0));
    // The one that is being decoded stays; a finished one is forgotten.
    assert_eq!(animations.entries.len(), 2);
    assert_eq!(animations.ask("b"), Lookup::Waiting);
    assert_eq!(animations.entries.len(), 1);
    assert!(!animations.complete("a", Ok(1)));
    assert!(animations.complete("b", Err("broken".into())));
    assert_eq!(animations.entries[0].entry, Entry::Failed("broken".into()));
    assert_eq!(animations.ask("b"), Lookup::Waiting);
    let mut still: CoverLoader<u8, u8> = CoverLoader::new(Policy::for_screen(480, None));
    assert_eq!(still.animation("a"), Lookup::Waiting);
    assert!(still.animations.entries.is_empty());
    still.set_policy(Policy::for_screen(1080, None));
    assert!(still.policy().animate);
    assert_eq!(still.animation("a"), Lookup::Start);
}

fn file(modified: u64, len: u64, path: &str) -> CacheFile {
    CacheFile { modified, len, path: path.into() }
}

#[test]
fn pruning_goes_by_age() {
    let files = vec![file(3, 50, "c"), file(1, 30, "a"), file(2, 40, "b")];
    assert_eq!(total(&files), 120);
    // Well under the budget is nine tenths of it.
    let mut prune = Prune::new(files, 100);
    assert_eq!(prune.target, 90);
    assert_eq!(prune.next(), Some("a"));
    prune.note(false);
    assert_eq!(prune.next(), Some("b"));
    prune.note(true);
    assert_eq!((prune.total, prune.removed), (80, 1));
    assert_eq!(prune.next(), None);
}

#[test]
fn the_cache_counts_its_bytes() {
    assert_eq!(after_write(100, 30, 50), 120);
    assert_eq!(after_write(0, 30, 50), 20);
    assert_eq!(after_write(0, 30, 10), u64::MAX - 19);
    assert_eq!(after_remove(100, 30), 70);
    let policy = Policy::for_screen(480, None);
    assert!(!over_budget(50 << 20, &policy) && over_budget((50 << 20) + 1, &policy));
    assert!(is_finished("/c/a.jpg") && is_finished("/c/a") && !is_finished("/c/a.part"));
}

#[test]
fn cached_files_have_their_names() {
    let url = "https://img.itch.zone/a/b.GIF";
    let name = cache_name(url);
    let (hash, ext) = name.split_once('.').unwrap();
    assert_eq!(ext, "GIF");
    assert_eq!(hash.len(), 16);
    assert!(hash.chars().all(|c| c.is_ascii_digit() || ('a'..='f').contains(&c)));
    assert_eq!(variant_name(url, 400), format!("v2-{hash}-w400.jpg"));
    assert_ne!(cache_name("https://img.itch.zone/a/c.GIF"), name);
    assert!(cache_name("https://x/y.jpeg?size=1").ends_with(".img"));
    assert!(cache_name("nodots").ends_with(".img"));
    assert!(cache_name("a.").ends_with('.'));
}

#[test]
fn names_are_those_of_the_default_hasher() {
    let url = "https://img.itch.zone/ü.png";
    let mut hasher = std::collections::hash_map::DefaultHasher::new();
    url.hash(&mut hasher);
    assert_eq!(cache_name(url), format!("{:016x}.png", hasher.finish()));
}

fn png(width: u32, height: u32, pixel: [u8; 4]) -> Vec<u8> {
    let image = DynamicImage::ImageRgba8(RgbaImage::from_pixel(width, height, image::Rgba(pixel)));
    let mut out = Cursor::new(Vec::new());
    image.write_to(&mut out, ImageFormat::Png).unwrap();
    out.into_inner()
}

fn gif(sides: &[(u32, u32)], delay_ms: u64) -> Vec<u8> {
    let mut out = Vec::new();
    {
        let mut encoder = GifEncoder::new(&mut out);
        for (width, height) in sides {
            let frame = Frame::from_parts(
                RgbaImage::from_pixel(*width, *height, image::Rgba([200, 10, 10, 255])),
                0,
                0,
                Delay::from_saturating_duration(Duration::from_millis(delay_ms)),
            );
            encoder.encode_frame(frame).unwrap();
        }
    }
    out
}

#[test]
fn transparent_pixels_show_the_page() {
    let rgba = vec![255, 0, 100, 255, 255, 255, 255, 0, 100, 100, 100, 128];
    assert_eq!(
        flatten(&rgba),
        vec![255, 0, 100, 0x14, 0x12, 0x1a, 60, 59, 63]
    );
}

#[test]
fn covers_are_scaled_down_and_kept() {
    let bytes = png(800, 401, [10, 200, 30, 255]);
    let made = make_variants(&bytes, &vec![200, 400], 200, true);
    let widths: Vec<u32> = made.files.iter().map(|file| file.width).collect();
    assert_eq!(widths, vec![200, 400]);
    let picture = made.picture.unwrap();
    assert_eq!((picture.width, picture.height), (200, 100));
    assert_eq!(picture.rgba.len(), 200 * 100 * 4);
    assert_eq!(&picture.rgba[..4], &[10, 200, 30, 255]);
    // A still need not be kept.
    assert!(!made.keeps_original);
    let detail = read_variant(&made.files[1].bytes).unwrap();
    assert_eq!((detail.width, detail.height), (400, 200));
    assert!(detail.rgba[1] > 190 && detail.rgba[0] < 20);
    // Never scaled up, and never to nothing.
    let small = make_variants(&png(100, 50, [0, 0, 0, 255]), &vec![200], 200, true);
    assert_eq!(small.picture.unwrap().width, 100);
    let flat = make_variants(&png(4000, 1, [0, 0, 0, 255]), &vec![200], 300, true);
    let flat = flat.picture.unwrap();
    assert_eq!((flat.width, flat.height), (300, 1));
}

#[test]
fn animated_originals_are_kept() {
    let bytes = gif(&[(40, 20), (40, 20)], 50);
    let made = make_variants(&bytes, &vec![20], 20, true);
    assert!(made.keeps_original);
    let picture = made.picture.unwrap();
    assert_eq!((picture.width, picture.height), (20, 10));
    assert!(!make_variants(&bytes, &vec![20], 20, false).keeps_original);
}

#[test]
fn what_is_no_picture_is_refused() {
    let made = make_variants(b"hello", &vec![200], 200, true);
    assert!(made.files.is_empty());
    assert!(made.picture.is_err());
    assert!(read_variant(b"hello").is_err());
    assert!(read_still(b"hello").is_err());
    assert!(read_variant(&png(2, 2, [0, 0, 0, 255])).is_err());
    assert!(decode_animation(b"hello", 200, 1 << 20).is_err());
    let mut cut = png(64, 64, [1, 2, 3, 255]);
    cut.truncate(40);
    assert!(make_variants(&cut, &vec![200], 200, true).picture.is_err());
    let wide = Picture { width: 70_000, height: 1, rgba: vec![0; 280_000] };
    assert!(encode_jpeg(&wide).is_err());
    let jpeg = encode_jpeg(&Picture { width: 2, height: 1, rgba: vec![9; 8] }).unwrap();
    assert_eq!(&jpeg[..2], &[0xff, 0xd8]);
}

#[test]
fn animations_keep_their_time() {
    let animation = decode_animation(&gif(&[(40, 20), (40, 20), (40, 20)], 50), 20, 1 << 20).unwrap();
    assert_eq!(animation.frames.len(), 3);
    assert_eq!(animation.frames[0].width, 20);
    assert_eq!(animation.delays, vec![50_000_000; 3]);
    assert_eq!(animation.total, 150_000_000);
    assert_eq!(animation.frame_at(0), (0, 50_000_000));
    assert_eq!(animation.frame_at(49_999_999), (0, 1));
    assert_eq!(animation.frame_at(50_000_000), (1, 50_000_000));
    assert_eq!(animation.frame_at(150_000_000), (0, 50_000_000));
    assert_eq!(animation.frame_at(520_000_000), (1, 30_000_000));
    // Very short delays are taken as a tenth of a second.
    let quick = decode_animation(&gif(&[(4, 2), (4, 2)], 10), 20, 1 << 20).unwrap();
    assert_eq!(quick.delays, vec![100_000_000; 2]);
    // Another format is one frame that never changes.
    let still = decode_animation(&png(40, 20, [1, 2, 3, 255]), 20, 1 << 20).unwrap();
    assert_eq!((still.frames.len(), still.total), (1, 1_000_000_000));
}

#[test]
fn animations_stay_within_their_budget() {
    let bytes = gif(&[(40, 20), (40, 20)], 50);
    let frame = 40 * 20 * 4;
    assert!(decode_animation(&bytes, 40, 2 * frame).is_ok());
    assert_eq!(
        decode_animation(&bytes, 40, 2 * frame - 1).unwrap_err(),
        "over the animation budget after 1 frames"
    );
}

#[test]
fn an_animation_without_time_shows_its_last_frame() {
    let picture = || Picture { width: 0, height: 0, rgba: Vec::new() };
    let animation = Animation {
        frames: vec![picture(), picture()],
        delays: vec![0, 0],
        total: 0,
    };
    assert_eq!(animation.frame_at(7), (1, 0));
}

#[test]
fn stills_are_read_as_they_are() {
    let still = read_still(&png(30, 20, [7, 8, 9, 100])).unwrap();
    assert_eq!((still.width, still.height), (30, 20));
    assert_eq!(still.rgba, [7, 8, 9, 100].repeat(600));
}
