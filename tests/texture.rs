use tge::error::GameError;
use tge::geometry::{Region, Size};
use tge::image::validate_pixels;
use tge::sampling::{Filter, FilterMode, Wrap, WrapMode};
use tge::texture::{Texture, TextureCommand};

fn nearest() -> Filter {
    Filter::new(FilterMode::Nearest, FilterMode::Nearest, None)
}

fn mipmapped() -> Filter {
    Filter::new(FilterMode::Linear, FilterMode::Linear, Some(FilterMode::Linear))
}

#[test]
fn validate_pixels_accepts_exact_length() {
    assert_eq!(validate_pixels(Size::new(3, 2), &[0u8; 24]), Ok(()));
    assert_eq!(validate_pixels(Size::new(0, 5), &[]), Ok(()));
}

#[test]
fn validate_pixels_rejects_wrong_length() {
    assert_eq!(validate_pixels(Size::new(3, 2), &[0u8; 23]), Err(GameError::IllegalPixelsLength));
    assert_eq!(validate_pixels(Size::new(3, 2), &[0u8; 25]), Err(GameError::IllegalPixelsLength));
    assert_eq!(validate_pixels(Size::new(1, 1), &[]), Err(GameError::IllegalPixelsLength));
}

#[test]
fn create_uploads_exactly_the_given_pixels() {
    let pixels: Vec<u8> = (0..16u8).collect();
    let mut t = Texture::new(Size::new(2, 2), Some(&pixels), nearest(), Wrap::default()).unwrap();
    assert_eq!(t.size(), Size::new(2, 2));
    assert!(!t.mipmap_generated());
    let commands = t.take_commands();
    assert_eq!(
        commands,
        vec![
            TextureCommand::InitImage { size: Size::new(2, 2), pixels: Some(pixels.clone()) },
            TextureCommand::SetFilter(nearest()),
            TextureCommand::SetWrap(Wrap::default()),
        ]
    );
    assert!(t.take_commands().is_empty());
}

#[test]
fn create_with_mipmap_filter_generates_mips() {
    let mut t = Texture::new(Size::new(4, 4), None, mipmapped(), Wrap::default()).unwrap();
    assert!(t.mipmap_generated());
    let commands = t.take_commands();
    assert_eq!(commands.len(), 4);
    assert_eq!(commands[2], TextureCommand::GenerateMipmap);
}

#[test]
fn create_with_mismatched_pixels_fails() {
    let r = Texture::new(Size::new(2, 2), Some(&[0u8; 15]), nearest(), Wrap::default());
    assert!(matches!(r, Err(GameError::IllegalPixelsLength)));
}

#[test]
fn update_region_writes_exactly_the_given_pixels() {
    let mut t = Texture::new(Size::new(8, 8), None, nearest(), Wrap::default()).unwrap();
    t.take_commands();
    let pixels: Vec<u8> = (0..24u8).collect();
    let region = Region::new(1, 2, 3, 2);
    assert_eq!(t.update_pixels(region, Some(&pixels)), Ok(()));
    assert_eq!(t.take_commands(), vec![TextureCommand::SubImage { region, pixels: Some(pixels) }]);
}

#[test]
fn update_region_with_mipmap_filter_regenerates() {
    let mut t = Texture::new(Size::new(8, 8), None, mipmapped(), Wrap::default()).unwrap();
    t.take_commands();
    let region = Region::new(0, 0, 1, 1);
    assert_eq!(t.update_pixels(region, Some(&[1, 2, 3, 4])), Ok(()));
    assert!(t.mipmap_generated());
    assert_eq!(
        t.take_commands(),
        vec![TextureCommand::SubImage { region, pixels: Some(vec![1, 2, 3, 4]) }, TextureCommand::GenerateMipmap]
    );
}

#[test]
fn update_region_with_mismatched_pixels_changes_nothing() {
    let mut t = Texture::new(Size::new(8, 8), None, nearest(), Wrap::default()).unwrap();
    t.take_commands();
    let r = t.update_pixels(Region::new(0, 0, 2, 2), Some(&[0u8; 12]));
    assert_eq!(r, Err(GameError::IllegalPixelsLength));
    assert!(t.take_commands().is_empty());
}

#[test]
fn init_pixels_reallocates() {
    let mut t = Texture::new(Size::new(8, 8), None, nearest(), Wrap::default()).unwrap();
    t.take_commands();
    assert_eq!(t.init_pixels(Size::new(1, 1), Some(&[9, 9, 9, 9])), Ok(()));
    assert_eq!(t.size(), Size::new(1, 1));
    assert_eq!(
        t.take_commands(),
        vec![TextureCommand::InitImage { size: Size::new(1, 1), pixels: Some(vec![9, 9, 9, 9]) }]
    );
    assert_eq!(t.init_pixels(Size::new(2, 1), Some(&[9, 9, 9, 9])), Err(GameError::IllegalPixelsLength));
    assert_eq!(t.size(), Size::new(1, 1));
    assert!(t.take_commands().is_empty());
}

#[test]
fn setting_the_active_filter_issues_nothing() {
    let mut t = Texture::new(Size::new(2, 2), None, nearest(), Wrap::default()).unwrap();
    t.take_commands();
    t.set_filter(nearest());
    assert!(t.take_commands().is_empty());
    t.set_filter(mipmapped());
    assert_eq!(t.filter(), mipmapped());
    assert_eq!(
        t.take_commands(),
        vec![TextureCommand::SetFilter(mipmapped()), TextureCommand::GenerateMipmap]
    );
    assert!(t.mipmap_generated());
    t.set_filter(nearest());
    assert!(!t.mipmap_generated());
    assert_eq!(t.take_commands(), vec![TextureCommand::SetFilter(nearest())]);
}

#[test]
fn setting_the_active_wrap_issues_nothing() {
    let mut t = Texture::new(Size::new(2, 2), None, nearest(), Wrap::default()).unwrap();
    t.take_commands();
    t.set_wrap(Wrap::uv(WrapMode::Repeat, WrapMode::Repeat));
    assert!(t.take_commands().is_empty());
    let clamp = Wrap::uv(WrapMode::ClampToEdge, WrapMode::MirroredRepeat);
    t.set_wrap(clamp);
    assert_eq!(t.wrap(), clamp);
    assert_eq!(t.take_commands(), vec![TextureCommand::SetWrap(clamp)]);
}

#[test]
fn wrap_constructors() {
    let w = Wrap::new(WrapMode::ClampToBorder, WrapMode::MirrorClampToEdge, WrapMode::ClampToEdge);
    assert_eq!(w.horizontal, WrapMode::ClampToBorder);
    assert_eq!(w.vertical, WrapMode::MirrorClampToEdge);
    assert_eq!(w.depth, WrapMode::ClampToEdge);
    let uv = Wrap::uv(WrapMode::ClampToEdge, WrapMode::ClampToBorder);
    assert_eq!(uv.depth, WrapMode::Repeat);
    assert_eq!(WrapMode::default(), WrapMode::Repeat);
}
