use tge::font::{CacheBy, CacheError, GlyphCache, UvRegion};
use tge::geometry::{Region, Size};
use tge::sampling::{Filter, FilterMode, Wrap};
use tge::text_params::{TextHorizontalAlign, TextVerticalAlign};
use tge::texture::TextureCommand;

fn atlas(size: u32) -> GlyphCache {
    let mut c = GlyphCache::new(size, Filter::default(), Wrap::default());
    c.take_commands();
    c
}

fn bitmap(width: u32, height: u32) -> Vec<u8> {
    (0..width * height).map(|i| (i % 251) as u8).collect()
}

fn region_of(r: Result<CacheBy, CacheError>) -> Region {
    match r {
        Ok(CacheBy::Add(uv)) | Ok(CacheBy::Exist(uv)) => uv.region,
        Err(e) => panic!("unexpected {:?}", e),
    }
}

fn overlap(a: Region, b: Region) -> bool {
    a.x < b.x + b.width && b.x < a.x + a.width && a.y < b.y + b.height && b.y < a.y + a.height
}

#[test]
fn first_glyph_scenario_add_then_exist() {
    let mut c = atlas(64);
    let b = bitmap(10, 14);
    let first = c.cache_glyph('A', 10, 14, &b);
    let uv = match first {
        Ok(CacheBy::Add(uv)) => uv,
        other => panic!("expected Add, got {:?}", other),
    };
    assert_eq!(uv, UvRegion { region: Region::new(0, 0, 10, 14), atlas: Size::new(64, 64) });
    let w = uv.region.width as f32 / uv.atlas.width as f32;
    let h = uv.region.height as f32 / uv.atlas.height as f32;
    assert!((w - 10.0 / 64.0).abs() < 1e-6);
    assert!((h - 14.0 / 64.0).abs() < 1e-6);
    assert_eq!(c.cache_glyph('A', 10, 14, &b), Ok(CacheBy::Exist(uv)));
}

#[test]
fn cache_hit_writes_nothing() {
    let mut c = atlas(64);
    let b = bitmap(3, 4);
    let first = c.cache_glyph('x', 3, 4, &b);
    assert_eq!(c.take_commands().len(), 1);
    let second = c.cache_glyph('x', 3, 4, &b);
    assert!(c.take_commands().is_empty());
    assert_eq!(region_of(first), region_of(second));
    assert!(matches!(second, Ok(CacheBy::Exist(_))));
    assert_eq!(c.lookup('x', 3, 4).map(|uv| uv.region), Some(region_of(first)));
    assert_eq!(c.lookup('x', 3, 5), None);
}

#[test]
fn glyph_pixels_are_white_with_coverage_alpha() {
    let mut c = atlas(16);
    c.cache_glyph('i', 2, 1, &[7, 200]).unwrap();
    assert_eq!(
        c.take_commands(),
        vec![TextureCommand::SubImage {
            region: Region::new(0, 0, 2, 1),
            pixels: Some(vec![255, 255, 255, 7, 255, 255, 255, 200]),
        }]
    );
}

#[test]
fn glyphs_pack_left_to_right_then_bottom_to_top() {
    let mut c = atlas(16);
    assert_eq!(region_of(c.cache_glyph('a', 5, 3, &bitmap(5, 3))), Region::new(0, 0, 5, 3));
    assert_eq!(region_of(c.cache_glyph('b', 5, 2, &bitmap(5, 2))), Region::new(6, 0, 5, 2));
    // too tall for the first shelf (height 4): opens a second one
    assert_eq!(region_of(c.cache_glyph('c', 2, 5, &bitmap(2, 5))), Region::new(0, 4, 2, 5));
    // fits the first shelf's remaining width
    assert_eq!(region_of(c.cache_glyph('d', 3, 3, &bitmap(3, 3))), Region::new(12, 0, 3, 3));
}

#[test]
fn same_character_other_size_is_another_entry() {
    let mut c = atlas(32);
    let a = region_of(c.cache_glyph('A', 4, 4, &bitmap(4, 4)));
    let b = c.cache_glyph('A', 5, 4, &bitmap(5, 4));
    assert!(matches!(b, Ok(CacheBy::Add(_))));
    assert!(!overlap(a, region_of(b)));
}

#[test]
fn many_glyphs_never_overlap() {
    let mut c = atlas(64);
    let mut placed: Vec<Region> = Vec::new();
    for i in 0..40u32 {
        let w = 1 + (i * 7) % 9;
        let h = 1 + (i * 5) % 11;
        let ch = char::from_u32('a' as u32 + i).unwrap();
        match c.cache_glyph(ch, w, h, &bitmap(w, h)) {
            Ok(CacheBy::Add(uv)) => {
                let r = uv.region;
                assert!(r.x + r.width < 64 && r.y + r.height < 64);
                for p in &placed {
                    assert!(!overlap(*p, r));
                }
                placed.push(r);
            }
            Err(CacheError::NoRoom) => break,
            other => panic!("unexpected {:?}", other),
        }
    }
    assert!(placed.len() >= 10);
}

#[test]
fn too_large_on_small_atlas() {
    let mut c = atlas(16);
    assert_eq!(c.cache_glyph('W', 20, 20, &bitmap(20, 20)), Err(CacheError::TooLarge));
    assert_eq!(c.cache_glyph('W', 16, 2, &bitmap(16, 2)), Err(CacheError::TooLarge));
    assert_eq!(c.cache_glyph('W', 2, 16, &bitmap(2, 16)), Err(CacheError::TooLarge));
    assert!(c.take_commands().is_empty());
    assert!(matches!(c.cache_glyph('W', 14, 14, &bitmap(14, 14)), Ok(CacheBy::Add(_))));
}

#[test]
fn too_large_does_not_depend_on_fill() {
    let mut c = atlas(16);
    c.cache_glyph('a', 14, 14, &bitmap(14, 14)).unwrap();
    assert_eq!(c.cache_glyph('b', 20, 20, &bitmap(20, 20)), Err(CacheError::TooLarge));
    assert_eq!(c.cache_glyph('b', 2, 2, &bitmap(2, 2)), Err(CacheError::NoRoom));
}

#[test]
fn no_room_versus_too_large() {
    let mut c = atlas(32);
    let b = bitmap(30, 10);
    for (i, ch) in ['a', 'b'].iter().enumerate() {
        let r = region_of(c.cache_glyph(*ch, 30, 10, &b));
        assert_eq!(r, Region::new(0, 11 * i as u32, 30, 10));
    }
    assert_eq!(c.cache_glyph('c', 30, 10, &b), Err(CacheError::NoRoom));
    let mut fresh = atlas(32);
    assert_eq!(fresh.cache_glyph('d', 40, 10, &bitmap(40, 10)), Err(CacheError::TooLarge));
}

#[test]
fn clear_forgets_cached_glyphs() {
    let mut c = atlas(32);
    let b = bitmap(6, 6);
    let before = region_of(c.cache_glyph('q', 6, 6, &b));
    c.cache_glyph('r', 6, 6, &b).unwrap();
    c.take_commands();
    c.clear_cache();
    assert_eq!(c.lookup('q', 6, 6), None);
    assert_eq!(c.cache_size(), 32);
    let again = c.cache_glyph('r', 6, 6, &b);
    assert_eq!(region_of(again), before);
    assert!(matches!(again, Ok(CacheBy::Add(_))));
    assert_eq!(c.take_commands().len(), 1);
}

#[test]
fn resize_forgets_cached_glyphs_and_reallocates() {
    let mut c = atlas(16);
    let b = bitmap(4, 4);
    c.cache_glyph('z', 4, 4, &b).unwrap();
    c.take_commands();
    c.resize_cache(64);
    assert_eq!(c.cache_size(), 64);
    assert_eq!(c.texture().size(), Size::new(64, 64));
    assert_eq!(
        c.take_commands(),
        vec![TextureCommand::InitImage { size: Size::new(64, 64), pixels: None }]
    );
    let again = c.cache_glyph('z', 4, 4, &b);
    assert_eq!(again, Ok(CacheBy::Add(UvRegion { region: Region::new(0, 0, 4, 4), atlas: Size::new(64, 64) })));
    assert_eq!(c.cache_glyph('B', 40, 40, &bitmap(40, 40)).is_ok(), true);
}

#[test]
fn atlas_filter_is_forwarded() {
    let mut c = atlas(8);
    let f = Filter::new(FilterMode::Nearest, FilterMode::Linear, None);
    c.set_filter(Filter::default());
    assert!(c.take_commands().is_empty());
    c.set_filter(f);
    assert_eq!(c.filter(), f);
    assert_eq!(c.take_commands(), vec![TextureCommand::SetFilter(f)]);
}

#[test]
fn zero_sized_glyph_is_cached() {
    let mut c = atlas(8);
    let r = c.cache_glyph(' ', 0, 0, &[]);
    assert_eq!(r, Ok(CacheBy::Add(UvRegion { region: Region::new(0, 0, 0, 0), atlas: Size::new(8, 8) })));
    assert_eq!(c.cache_glyph(' ', 0, 0, &[]), Ok(CacheBy::Exist(UvRegion { region: Region::new(0, 0, 0, 0), atlas: Size::new(8, 8) })));
}

#[test]
fn alignment_defaults() {
    assert_eq!(TextHorizontalAlign::default(), TextHorizontalAlign::Start);
    assert_eq!(TextVerticalAlign::default(), TextVerticalAlign::Top);
}

#[test]
fn font_from_invalid_bytes_is_an_init_error() {
    assert!(matches!(
        tge::font::Font::from_bytes(&[0, 1, 2, 3], Filter::default(), Wrap::default()),
        Err(tge::error::GameError::InitError(_))
    ));
}
