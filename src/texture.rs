use vstd::prelude::*;
use crate::error::GameError;
use crate::geometry::{Size, Region, within};
use crate::image::{validate_pixels, decode_rgba, decoded_rgba};
use crate::sampling::{Filter, FilterMode, Wrap, WrapMode};

verus! {

/// One change to the GPU storage behind a [`Texture`], in the order it must be applied.
#[derive(Debug, PartialEq, Eq)]
pub enum TextureCommand {
    /// (Re)allocate storage of `size`, filled with `pixels` when given.
    InitImage { size: Size, pixels: Option<Vec<u8>> },
    /// Overwrite exactly `region` with `pixels` when given.
    SubImage { region: Region, pixels: Option<Vec<u8>> },
    SetFilter(Filter),
    SetWrap(Wrap),
    GenerateMipmap,
}

/// A [`TextureCommand`] with its pixel buffers as sequences.
pub ghost enum CommandView {
    InitImage { size: Size, pixels: Option<Seq<u8>> },
    SubImage { region: Region, pixels: Option<Seq<u8>> },
    SetFilter(Filter),
    SetWrap(Wrap),
    GenerateMipmap,
}

pub open spec fn opt_bytes(p: Option<Vec<u8>>) -> Option<Seq<u8>> {
    match p {
        Some(v) => Some(v@),
        None => None,
    }
}

pub open spec fn opt_slice(p: Option<&[u8]>) -> Option<Seq<u8>> {
    match p {
        Some(v) => Some(v@),
        None => None,
    }
}

impl View for TextureCommand {
    type V = CommandView;

    open spec fn view(&self) -> CommandView {
        match self {
            TextureCommand::InitImage { size, pixels } => CommandView::InitImage {
                size: *size,
                pixels: opt_bytes(*pixels),
            },
            TextureCommand::SubImage { region, pixels } => CommandView::SubImage {
                region: *region,
                pixels: opt_bytes(*pixels),
            },
            TextureCommand::SetFilter(f) => CommandView::SetFilter(*f),
            TextureCommand::SetWrap(w) => CommandView::SetWrap(*w),
            TextureCommand::GenerateMipmap => CommandView::GenerateMipmap,
        }
    }
}

/// What a [`Texture`] records: its dimensions and sampling state, and the GPU
/// commands issued and not yet taken by the owner of the GPU context.
pub ghost struct TextureView {
    pub size: Size,
    pub filter: Filter,
    pub wrap: Wrap,
    pub mipmap_generated: bool,
    pub commands: Seq<CommandView>,
}

/// The state of one GPU-resident RGBA8 texture. Every operation that touches
/// GPU storage appends the matching [`TextureCommand`]s; whoever owns the GPU
/// context drains them with [`Texture::take_commands`] and applies them in order.
pub struct Texture {
    size: Size,
    filter: Filter,
    mipmap_generated: bool,
    wrap: Wrap,
    commands: Vec<TextureCommand>,
}

impl View for Texture {
    type V = TextureView;

    closed spec fn view(&self) -> TextureView {
        TextureView {
            size: self.size,
            filter: self.filter,
            wrap: self.wrap,
            mipmap_generated: self.mipmap_generated,
            commands: self.commands@.map_values(|c: TextureCommand| c@),
        }
    }
}

/// A texture just created with `size`, optional initial `pixels`, `filter` and
/// `wrap`: storage is allocated, sampling applied, and mips generated at once
/// when the filter asks for them.
pub open spec fn created(size: Size, pixels: Option<Seq<u8>>, filter: Filter, wrap: Wrap) -> TextureView {
    TextureView {
        size,
        filter,
        wrap,
        mipmap_generated: filter.mipmap is Some,
        commands: seq![CommandView::InitImage { size, pixels }, CommandView::SetFilter(filter)]
            + after_write(filter) + seq![CommandView::SetWrap(wrap)],
    }
}

/// The texture after a pixel write issued as `cmd`: mips are regenerated when
/// the filter asks for them and are stale otherwise.
pub open spec fn written(t: TextureView, cmd: CommandView) -> TextureView {
    TextureView {
        mipmap_generated: t.filter.mipmap is Some,
        commands: t.commands.push(cmd) + after_write(t.filter),
        ..t
    }
}

/// The texture after `set_filter(filter)`: nothing changes when `filter` is
/// active; otherwise it is applied, mips are generated once if it asks for them
/// and none are, and a filter without mipmapping leaves no mips in use.
pub open spec fn with_filter(t: TextureView, filter: Filter) -> TextureView {
    if t.filter == filter {
        t
    } else {
        TextureView {
            filter,
            mipmap_generated: filter.mipmap is Some,
            commands: t.commands.push(CommandView::SetFilter(filter)) + (if filter.mipmap is Some
                && !t.mipmap_generated {
                seq![CommandView::GenerateMipmap]
            } else {
                Seq::empty()
            }),
            ..t
        }
    }
}

/// The texture after `set_wrap(wrap)`: nothing changes when `wrap` is active.
pub open spec fn with_wrap(t: TextureView, wrap: Wrap) -> TextureView {
    if t.wrap == wrap {
        t
    } else {
        TextureView { wrap, commands: t.commands.push(CommandView::SetWrap(wrap)), ..t }
    }
}

/// Setting the active filter or wrapping issues no GPU command and changes
/// nothing; setting a different one issues at least one command.
pub proof fn lemma_same_sampling_is_noop(t: TextureView, filter: Filter, wrap: Wrap)
    ensures
        with_filter(t, t.filter) == t,
        with_wrap(t, t.wrap) == t,
        filter != t.filter ==> with_filter(t, filter).commands.len() > t.commands.len(),
        wrap != t.wrap ==> with_wrap(t, wrap).commands.len() > t.commands.len(),
{
}

/// Commands that follow a write of pixel storage: regenerate mips if the filter asks for them.
pub open spec fn after_write(filter: Filter) -> Seq<CommandView> {
    if filter.mipmap is Some {
        seq![CommandView::GenerateMipmap]
    } else {
        Seq::empty()
    }
}

fn copy_bytes(pixels: &[u8]) -> (r: Vec<u8>)
    ensures
        r@ == pixels@,
{
    let mut r: Vec<u8> = Vec::with_capacity(pixels.len());
    let mut i: usize = 0;
    while i < pixels.len()
        invariant
            i <= pixels@.len(),
            r@ == pixels@.subrange(0, i as int),
        decreases pixels@.len() - i,
    {
        r.push(pixels[i]);
        i += 1;
        assert(r@ =~= pixels@.subrange(0, i as int));
    }
    assert(r@ =~= pixels@);
    r
}

fn copy_opt(pixels: Option<&[u8]>) -> (r: Option<Vec<u8>>)
    ensures
        opt_bytes(r) == opt_slice(pixels),
{
    match pixels {
        Some(p) => Some(copy_bytes(p)),
        None => None,
    }
}

impl Texture {
    /// Creates a texture of `size`, filled with `pixels` when given.
    /// Fails, and issues nothing, when `pixels` does not hold `size` RGBA8 pixels.
    pub fn new(size: Size, pixels: Option<&[u8]>, filter: Filter, wrap: Wrap) -> (r: Result<
        Texture,
        GameError,
    >)
        ensures
            r is Ok <==> (pixels is None || pixels.unwrap()@.len() == crate::geometry::rgba_len(
                size.width,
                size.height,
            )),
            r is Err ==> r->Err_0 == GameError::IllegalPixelsLength,
            r is Ok ==> r->Ok_0@ == created(size, opt_slice(pixels), filter, wrap),
    {
        if let Some(p) = pixels {
            if let Err(e) = validate_pixels(size, p) {
                return Err(e);
            }
        }
        let mut commands: Vec<TextureCommand> = Vec::new();
        commands.push(TextureCommand::InitImage { size, pixels: copy_opt(pixels) });
        commands.push(TextureCommand::SetFilter(filter));
        let generate_mipmap = filter.uses_mipmap();
        if generate_mipmap {
            commands.push(TextureCommand::GenerateMipmap);
        }
        commands.push(TextureCommand::SetWrap(wrap));
        let t = Texture { size, filter, mipmap_generated: generate_mipmap, wrap, commands };
        assert(t@.commands =~= created(size, opt_slice(pixels), filter, wrap).commands);
        Ok(t)
    }

    /// Creates a texture from an encoded image (PNG, JPEG, ...), decoded to RGBA8.
    pub fn from_bytes(bytes: &[u8], filter: Filter, wrap: Wrap) -> (r: Result<Texture, GameError>)
        ensures
            r is Ok <==> decoded_rgba(bytes@) is Some,
            r matches Err(e) ==> e is InitError,
            r is Ok ==> ({
                let (size, pixels) = decoded_rgba(bytes@).unwrap();
                r->Ok_0@ == created(size, Some(pixels), filter, wrap)
            }),
    {
        match decode_rgba(bytes) {
            Ok((size, pixels)) => Texture::new(size, Some(pixels.as_slice()), filter, wrap),
            Err(e) => Err(e),
        }
    }

    /// A 1x1 opaque white texture, sampled nearest and repeated: the source for
    /// untextured draws.
    pub fn white_1_x_1() -> (r: Texture)
        ensures
            ({
                let filter = Filter { min: FilterMode::Nearest, mag: FilterMode::Nearest, mipmap: None };
                let wrap = Wrap {
                    horizontal: WrapMode::Repeat,
                    vertical: WrapMode::Repeat,
                    depth: WrapMode::Repeat,
                };
                let size = Size { width: 1, height: 1 };
                r@ == (TextureView {
                    size,
                    filter,
                    wrap,
                    mipmap_generated: false,
                    commands: seq![
                        CommandView::InitImage { size, pixels: Some(seq![255u8, 255u8, 255u8, 255u8]) },
                        CommandView::SetFilter(filter),
                        CommandView::SetWrap(wrap),
                    ],
                })
            }),
    {
        let pixels: [u8; 4] = [255, 255, 255, 255];
        let filter = Filter::new(FilterMode::Nearest, FilterMode::Nearest, None);
        let wrap = Wrap::uv(WrapMode::Repeat, WrapMode::Repeat);
        let pixel_slice: &[u8] = &pixels;
        assert(pixel_slice@ =~= seq![255u8, 255u8, 255u8, 255u8]);
        match Texture::new(Size::new(1, 1), Some(pixel_slice), filter, wrap) {
            Ok(t) => {
                assert(t@.commands =~= seq![
                    CommandView::InitImage { size: Size { width: 1, height: 1 }, pixels: Some(seq![255u8, 255u8, 255u8, 255u8]) },
                    CommandView::SetFilter(filter),
                    CommandView::SetWrap(wrap),
                ]);
                t
            },
            Err(_) => {
                proof {
                    assert(false);
                }
                unreached()
            },
        }
    }

    pub fn size(&self) -> (r: Size)
        ensures
            r == self@.size,
    {
        self.size
    }

    pub fn filter(&self) -> (r: Filter)
        ensures
            r == self@.filter,
    {
        self.filter
    }

    pub fn wrap(&self) -> (r: Wrap)
        ensures
            r == self@.wrap,
    {
        self.wrap
    }

    pub fn mipmap_generated(&self) -> (r: bool)
        ensures
            r == self@.mipmap_generated,
    {
        self.mipmap_generated
    }

    /// Changes the filter. Setting the active filter issues nothing. Otherwise the
    /// filter is applied, and mips are generated once if the new filter asks for
    /// them and none are; a filter without mipmapping forgets generated mips.
    pub fn set_filter(&mut self, filter: Filter)
        ensures
            final(self)@ == with_filter(old(self)@, filter),
    {
        if self.filter != filter {
            self.commands.push(TextureCommand::SetFilter(filter));
            if filter.uses_mipmap() {
                if !self.mipmap_generated {
                    self.commands.push(TextureCommand::GenerateMipmap);
                    self.mipmap_generated = true;
                }
            } else {
                self.mipmap_generated = false;
            }
            self.filter = filter;
            assert(self@.commands =~= old(self)@.commands.push(CommandView::SetFilter(filter)) + (
            if filter.mipmap is Some && !old(self)@.mipmap_generated {
                seq![CommandView::GenerateMipmap]
            } else {
                Seq::empty()
            }));
        }
    }

    /// Changes the edge wrapping; setting the active wrapping issues nothing.
    pub fn set_wrap(&mut self, wrap: Wrap)
        ensures
            final(self)@ == with_wrap(old(self)@, wrap),
    {
        if self.wrap != wrap {
            self.commands.push(TextureCommand::SetWrap(wrap));
            self.wrap = wrap;
            assert(self@.commands =~= old(self)@.commands.push(CommandView::SetWrap(wrap)));
        }
    }

    /// Reallocates the storage to `size`, replacing all pixels with `pixels` when
    /// given. Fails, and changes nothing, when `pixels` does not hold `size` RGBA8 pixels.
    pub fn init_pixels(&mut self, size: Size, pixels: Option<&[u8]>) -> (r: Result<(), GameError>)
        ensures
            r is Ok <==> (pixels is None || pixels.unwrap()@.len() == crate::geometry::rgba_len(
                size.width,
                size.height,
            )),
            r is Err ==> r->Err_0 == GameError::IllegalPixelsLength && final(self)@ == old(self)@,
            r is Ok ==> final(self)@ == written(
                TextureView { size, ..old(self)@ },
                CommandView::InitImage { size, pixels: opt_slice(pixels) },
            ),
    {
        if let Some(p) = pixels {
            if let Err(e) = validate_pixels(size, p) {
                return Err(e);
            }
        }
        self.commands.push(TextureCommand::InitImage { size, pixels: copy_opt(pixels) });
        self.size = size;
        assert(self@.commands =~= old(self)@.commands.push(
            CommandView::InitImage { size, pixels: opt_slice(pixels) },
        ));
        self.regenerate_after_write();
        Ok(())
    }

    /// Overwrites exactly `region` with `pixels` when given. Fails, and changes
    /// nothing, when `pixels` does not hold the region's RGBA8 pixels.
    pub fn update_pixels(&mut self, region: Region, pixels: Option<&[u8]>) -> (r: Result<
        (),
        GameError,
    >)
        requires
            within(region, old(self)@.size),
        ensures
            r is Ok <==> (pixels is None || pixels.unwrap()@.len() == crate::geometry::rgba_len(
                region.width,
                region.height,
            )),
            r is Err ==> r->Err_0 == GameError::IllegalPixelsLength && final(self)@ == old(self)@,
            r is Ok ==> final(self)@ == written(
                old(self)@,
                CommandView::SubImage { region, pixels: opt_slice(pixels) },
            ),
    {
        if let Some(p) = pixels {
            if let Err(e) = validate_pixels(region.size(), p) {
                return Err(e);
            }
        }
        self.commands.push(TextureCommand::SubImage { region, pixels: copy_opt(pixels) });
        assert(self@.commands =~= old(self)@.commands.push(
            CommandView::SubImage { region, pixels: opt_slice(pixels) },
        ));
        self.regenerate_after_write();
        Ok(())
    }

    /// After a pixel write: regenerate mips if the filter asks for them, else forget them.
    fn regenerate_after_write(&mut self)
        ensures
            final(self)@ == (TextureView {
                mipmap_generated: old(self)@.filter.mipmap is Some,
                commands: old(self)@.commands + after_write(old(self)@.filter),
                ..old(self)@
            }),
    {
        if self.filter.uses_mipmap() {
            self.commands.push(TextureCommand::GenerateMipmap);
            self.mipmap_generated = true;
        } else {
            self.mipmap_generated = false;
        }
        assert(self@.commands =~= old(self)@.commands + after_write(old(self)@.filter));
    }

    /// Hands the pending GPU commands to the caller, oldest first, and forgets them.
    pub fn take_commands(&mut self) -> (r: Vec<TextureCommand>)
        ensures
            r@.map_values(|c: TextureCommand| c@) == old(self)@.commands,
            final(self)@ == (TextureView { commands: Seq::empty(), ..old(self)@ }),
    {
        let mut out: Vec<TextureCommand> = Vec::new();
        std::mem::swap(&mut out, &mut self.commands);
        assert(self@.commands =~= Seq::<CommandView>::empty());
        out
    }
}

} // verus!
