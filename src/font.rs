use vstd::prelude::*;
use crate::error::GameError;
use fontdue::Font as FontFace;
use crate::geometry::{Size, Region, disjoint, within};
use crate::sampling::{Filter, Wrap};
use crate::texture::{Texture, TextureView, TextureCommand, CommandView, written, with_filter, created};

verus! {

/// Where a glyph stands in the atlas: its pixel rectangle together with the
/// atlas dimensions, so that `region.x / atlas.width` (and likewise for the
/// other coordinates) is its normalized texture region.
#[derive(Debug, Clone, Copy, PartialEq, Eq, Structural)]
pub struct UvRegion {
    pub region: Region,
    pub atlas: Size,
}

/// A successful glyph lookup: newly placed (`Add`) or found cached (`Exist`).
#[derive(Debug, Clone, Copy, PartialEq, Eq, Structural)]
pub enum CacheBy {
    Add(UvRegion),
    Exist(UvRegion),
}

#[derive(Debug, Clone, Copy, PartialEq, Eq, Structural)]
pub enum CacheError {
    /// The glyph plus its gutter is wider or taller than the atlas: it can never fit.
    TooLarge,
    /// The glyph could fit an empty atlas, but not the current packing.
    NoRoom,
}

/// A glyph's identity in the cache: the character and its rasterized bitmap size.
#[derive(Debug, Clone, Copy, PartialEq, Eq, Hash, Structural)]
pub struct GlyphKey {
    pub character: char,
    pub width: u32,
    pub height: u32,
}

/// A cached glyph: its key, its bitmap's pixel rectangle, and the shelf it sits on.
#[derive(Debug, Clone, Copy, PartialEq, Eq, Structural)]
pub struct GlyphEntry {
    pub key: GlyphKey,
    pub region: Region,
    pub shelf: usize,
}

/// The state of a [`GlyphCache`]. A shelf is a `Size` whose `height` is the
/// row's height and whose `width` is how far the row is filled.
pub ghost struct GlyphCacheView {
    pub cache_size: u32,
    pub texture: TextureView,
    pub entries: Seq<GlyphEntry>,
    pub shelves: Seq<Size>,
}

/// Total height of the first `k` shelves: the bottom edge of shelf `k`.
pub open spec fn stack_height(shelves: Seq<Size>, k: int) -> int
    decreases k,
{
    if k <= 0 || k > shelves.len() {
        0
    } else {
        stack_height(shelves, k - 1) + shelves[k - 1].height
    }
}

/// A footprint of `fw` by `fh` fits at the end of `shelf` in an atlas of `cache_size`.
pub open spec fn shelf_fits(shelf: Size, cache_size: u32, fw: int, fh: int) -> bool {
    fh <= shelf.height && fw <= cache_size - shelf.width
}

/// The first shelf, from `from` on, that takes the footprint; `shelves.len()` if none does.
pub open spec fn first_fit(shelves: Seq<Size>, cache_size: u32, fw: int, fh: int, from: int) -> int
    decreases shelves.len() - from,
{
    if from < 0 || from >= shelves.len() {
        shelves.len() as int
    } else if shelf_fits(shelves[from], cache_size, fw, fh) {
        from
    } else {
        first_fit(shelves, cache_size, fw, fh, from + 1)
    }
}

/// A glyph of this bitmap size, with its one-pixel gutter, exceeds the atlas edge.
pub open spec fn too_large(cache_size: u32, width: u32, height: u32) -> bool {
    width + 1 > cache_size || height + 1 > cache_size
}

/// Two glyph rectangles, each grown by its one-pixel gutter to the right and
/// below, share no pixel.
pub open spec fn gutters_disjoint(a: Region, b: Region) -> bool {
    ||| a.x + a.width + 1 <= b.x
    ||| b.x + b.width + 1 <= a.x
    ||| a.y + a.height + 1 <= b.y
    ||| b.y + b.height + 1 <= a.y
}

pub open spec fn cached(entries: Seq<GlyphEntry>, key: GlyphKey) -> bool {
    exists|i: int| 0 <= i < entries.len() && entries[i].key == key
}

/// The region stored for `key` (meaningful when `cached(entries, key)`).
pub open spec fn cached_region(entries: Seq<GlyphEntry>, key: GlyphKey) -> Region {
    entries[choose|i: int| 0 <= i < entries.len() && entries[i].key == key].region
}

/// Each alpha sample as one RGBA8 pixel: white, with that coverage as alpha.
pub open spec fn rgba_of_alpha(bitmap: Seq<u8>) -> Seq<u8> {
    Seq::new(4 * bitmap.len(), |i: int| if i % 4 == 3 { bitmap[i / 4] } else { 255u8 })
}

/// The glyph entry lies on its shelf, inside the part of the shelf already filled.
pub open spec fn on_shelf(e: GlyphEntry, shelves: Seq<Size>) -> bool {
    &&& e.shelf < shelves.len()
    &&& e.region.y == stack_height(shelves, e.shelf as int)
    &&& e.region.height + 1 <= shelves[e.shelf as int].height
    &&& e.region.x + e.region.width + 1 <= shelves[e.shelf as int].width
    &&& e.region.width == e.key.width
    &&& e.region.height == e.key.height
}

/// The cache's invariant: the texture is the square atlas, the shelves are
/// stacked inside it, every entry sits on its shelf, keys are unique and no
/// two glyphs (with their gutters) overlap.
pub open spec fn cache_wf(s: GlyphCacheView) -> bool {
    &&& s.texture.size == Size { width: s.cache_size, height: s.cache_size }
    &&& stack_height(s.shelves, s.shelves.len() as int) <= s.cache_size
    &&& forall|k: int| 0 <= k < s.shelves.len() ==> #[trigger] s.shelves[k].width <= s.cache_size
    &&& forall|k: int| 0 <= k < s.shelves.len() ==> 1 <= #[trigger] s.shelves[k].height
    &&& forall|i: int| 0 <= i < s.entries.len() ==> on_shelf(#[trigger] s.entries[i], s.shelves)
    &&& forall|i: int, j: int|
        0 <= i < s.entries.len() && 0 <= j < s.entries.len() && i != j
            ==> #[trigger] s.entries[i].key != #[trigger] s.entries[j].key
    &&& forall|i: int, j: int|
        0 <= i < s.entries.len() && 0 <= j < s.entries.len() && i != j ==> gutters_disjoint(
            #[trigger] s.entries[i].region,
            #[trigger] s.entries[j].region,
        )
}

/// The state and result after placing `key` on shelf `k` (a new shelf when
/// `k == shelves.len()`) and writing its bitmap into the texture.
pub open spec fn place_on(s: GlyphCacheView, key: GlyphKey, bitmap: Seq<u8>, k: int) -> (
    GlyphCacheView,
    Result<CacheBy, CacheError>,
) {
    let x: int = if k < s.shelves.len() { s.shelves[k].width as int } else { 0 };
    let region = Region {
        x: x as u32,
        y: stack_height(s.shelves, k) as u32,
        width: key.width,
        height: key.height,
    };
    let shelves = if k < s.shelves.len() {
        s.shelves.update(
            k,
            Size { width: (s.shelves[k].width + key.width + 1) as u32, height: s.shelves[k].height },
        )
    } else {
        s.shelves.push(Size { width: (key.width + 1) as u32, height: (key.height + 1) as u32 })
    };
    let texture = written(
        s.texture,
        CommandView::SubImage { region, pixels: Some(rgba_of_alpha(bitmap)) },
    );
    (
        GlyphCacheView {
            texture,
            entries: s.entries.push(GlyphEntry { key, region, shelf: k as usize }),
            shelves,
            ..s
        },
        Ok(CacheBy::Add(UvRegion { region, atlas: texture.size })),
    )
}

/// What one glyph request does: a cached key is returned as it stands; else the
/// glyph goes on the first shelf with room, or on a new shelf above the others,
/// or the request fails with `TooLarge` or `NoRoom` and changes nothing.
pub open spec fn cache_step(s: GlyphCacheView, key: GlyphKey, bitmap: Seq<u8>) -> (
    GlyphCacheView,
    Result<CacheBy, CacheError>,
) {
    let fw = key.width + 1;
    let fh = key.height + 1;
    let k = first_fit(s.shelves, s.cache_size, fw, fh, 0);
    if cached(s.entries, key) {
        (
            s,
            Ok(
                CacheBy::Exist(
                    UvRegion { region: cached_region(s.entries, key), atlas: s.texture.size },
                ),
            ),
        )
    } else if too_large(s.cache_size, key.width, key.height) {
        (s, Err(CacheError::TooLarge))
    } else if k < s.shelves.len() {
        place_on(s, key, bitmap, k)
    } else if fh <= s.cache_size - stack_height(s.shelves, s.shelves.len() as int) {
        place_on(s, key, bitmap, k)
    } else {
        (s, Err(CacheError::NoRoom))
    }
}

proof fn lemma_stack_monotone(shelves: Seq<Size>, j: int, k: int)
    requires
        0 <= j <= k <= shelves.len(),
    ensures
        stack_height(shelves, j) <= stack_height(shelves, k),
    decreases k - j,
{
    if j < k {
        lemma_stack_monotone(shelves, j, k - 1);
    }
}

/// Shelves are at least one pixel tall, so there are no more of them than their total height.
proof fn lemma_stack_counts(shelves: Seq<Size>, k: int)
    requires
        0 <= k <= shelves.len(),
        forall|i: int| 0 <= i < shelves.len() ==> 1 <= #[trigger] shelves[i].height,
    ensures
        k <= stack_height(shelves, k),
    decreases k,
{
    if k > 0 {
        lemma_stack_counts(shelves, k - 1);
    }
}

/// A shelf lies wholly below every shelf stacked after it.
proof fn lemma_stack_below(shelves: Seq<Size>, j: int, k: int)
    requires
        0 <= j < k <= shelves.len(),
    ensures
        stack_height(shelves, j) + shelves[j].height <= stack_height(shelves, k),
{
    lemma_stack_monotone(shelves, j + 1, k);
}

proof fn lemma_stack_same(a: Seq<Size>, b: Seq<Size>, k: int)
    requires
        0 <= k <= a.len(),
        k <= b.len(),
        forall|i: int| 0 <= i < k ==> a[i].height == b[i].height,
    ensures
        stack_height(a, k) == stack_height(b, k),
    decreases k,
{
    if k > 0 {
        lemma_stack_same(a, b, k - 1);
    }
}

proof fn lemma_first_fit(shelves: Seq<Size>, cache_size: u32, fw: int, fh: int, from: int)
    requires
        0 <= from <= shelves.len(),
    ensures
        from <= first_fit(shelves, cache_size, fw, fh, from) <= shelves.len(),
        first_fit(shelves, cache_size, fw, fh, from) < shelves.len() ==> shelf_fits(
            shelves[first_fit(shelves, cache_size, fw, fh, from)],
            cache_size,
            fw,
            fh,
        ),
    decreases shelves.len() - from,
{
    if from < shelves.len() && !shelf_fits(shelves[from], cache_size, fw, fh) {
        lemma_first_fit(shelves, cache_size, fw, fh, from + 1);
    }
}

/// Placing a glyph that is neither cached nor too large, where `cache_step`
/// finds room for it, keeps the cache well formed.
proof fn lemma_place_wf(s: GlyphCacheView, key: GlyphKey, bitmap: Seq<u8>)
    requires
        cache_wf(s),
        !cached(s.entries, key),
        !too_large(s.cache_size, key.width, key.height),
        first_fit(s.shelves, s.cache_size, key.width + 1, key.height + 1, 0) < s.shelves.len()
            || key.height + 1 <= s.cache_size - stack_height(s.shelves, s.shelves.len() as int),
    ensures
        cache_wf(cache_step(s, key, bitmap).0),
        cache_step(s, key, bitmap) == place_on(
            s,
            key,
            bitmap,
            first_fit(s.shelves, s.cache_size, key.width + 1, key.height + 1, 0),
        ),
{
    let fw = key.width + 1;
    let fh = key.height + 1;
    let n = s.shelves.len() as int;
    let k = first_fit(s.shelves, s.cache_size, fw, fh, 0);
    lemma_first_fit(s.shelves, s.cache_size, fw, fh, 0);
    let t = place_on(s, key, bitmap, k).0;
    let m = s.entries.len() as int;
    assert forall|i: int| 0 <= i <= n implies stack_height(t.shelves, i) == stack_height(
        s.shelves,
        i,
    ) by {
        lemma_stack_same(s.shelves, t.shelves, i);
    }
    lemma_stack_monotone(s.shelves, 0, k);
    lemma_stack_monotone(s.shelves, k, n);
    lemma_stack_counts(s.shelves, n);
    if k < n {
        lemma_stack_below(s.shelves, k, n);
    } else {
        assert(stack_height(t.shelves, n + 1) == stack_height(t.shelves, n) + fh);
    }
    let ne = t.entries[m];
    assert(stack_height(t.shelves, k) == stack_height(s.shelves, k));
    assert(on_shelf(ne, t.shelves));
    assert forall|i: int| 0 <= i < t.entries.len() implies on_shelf(
        #[trigger] t.entries[i],
        t.shelves,
    ) by {
        if i < m {
            assert(on_shelf(s.entries[i], s.shelves));
        }
    }
    assert forall|j: int| 0 <= j < m implies gutters_disjoint(
        ne.region,
        #[trigger] s.entries[j].region,
    ) by {
        let e = s.entries[j];
        assert(on_shelf(e, s.shelves));
        let sj = e.shelf as int;
        if sj < k {
            lemma_stack_below(s.shelves, sj, k);
        } else if sj > k {
            lemma_stack_below(s.shelves, k, sj);
        }
    }
    assert forall|i: int, j: int|
        0 <= i < t.entries.len() && 0 <= j < t.entries.len() && i != j implies #[trigger] t.entries[i].key
        != #[trigger] t.entries[j].key by {
        if i == m {
            assert(s.entries[j].key != key);
        } else if j == m {
            assert(s.entries[i].key != key);
        }
    }
    assert forall|i: int, j: int|
        0 <= i < t.entries.len() && 0 <= j < t.entries.len() && i != j implies gutters_disjoint(
        #[trigger] t.entries[i].region,
        #[trigger] t.entries[j].region,
    ) by {
        if i == m {
            assert(gutters_disjoint(ne.region, s.entries[j].region));
        } else if j == m {
            assert(gutters_disjoint(ne.region, s.entries[i].region));
        } else {
            assert(gutters_disjoint(s.entries[i].region, s.entries[j].region));
        }
    }
}

/// The stored region of any cached key, and the key, fit inside the atlas with the gutter.
proof fn lemma_cached_fits(s: GlyphCacheView, i: int)
    requires
        cache_wf(s),
        0 <= i < s.entries.len(),
    ensures
        s.entries[i].region.x + s.entries[i].region.width + 1 <= s.cache_size,
        s.entries[i].region.y + s.entries[i].region.height + 1 <= s.cache_size,
        !too_large(s.cache_size, s.entries[i].key.width, s.entries[i].key.height),
{
    let e = s.entries[i];
    assert(on_shelf(e, s.shelves));
    let n = s.shelves.len() as int;
    lemma_stack_below(s.shelves, e.shelf as int, n);
    lemma_stack_monotone(s.shelves, 0, e.shelf as int);
}

/// Idempotence: once a request has succeeded, repeating it (with any bitmap)
/// returns the same region as `Exist` and changes nothing, so no pixels are written.
pub proof fn lemma_repeat_is_cache_hit(
    s: GlyphCacheView,
    key: GlyphKey,
    bitmap: Seq<u8>,
    again: Seq<u8>,
)
    requires
        cache_wf(s),
        cache_step(s, key, bitmap).1 is Ok,
    ensures
        ({
            let (t, r) = cache_step(s, key, bitmap);
            let uv = match r->Ok_0 {
                CacheBy::Add(uv) => uv,
                CacheBy::Exist(uv) => uv,
            };
            cache_step(t, key, again) == (t, Ok::<CacheBy, CacheError>(CacheBy::Exist(uv)))
        }),
{
    let (t, r) = cache_step(s, key, bitmap);
    if !cached(s.entries, key) {
        lemma_place_wf(s, key, bitmap);
        let m = s.entries.len() as int;
        assert(t.entries[m].key == key);
        let j = choose|j: int| 0 <= j < t.entries.len() && t.entries[j].key == key;
        assert(j == m);
    }
}

/// Packing: the glyphs cached in a well-formed atlas lie inside the texture,
/// and no two of them share a pixel.
pub proof fn lemma_cached_glyphs_disjoint(s: GlyphCacheView)
    requires
        cache_wf(s),
    ensures
        forall|i: int|
            0 <= i < s.entries.len() ==> within(#[trigger] s.entries[i].region, s.texture.size),
        forall|i: int, j: int|
            0 <= i < s.entries.len() && 0 <= j < s.entries.len() && i != j ==> disjoint(
                #[trigger] s.entries[i].region,
                #[trigger] s.entries[j].region,
            ),
{
    assert forall|i: int| 0 <= i < s.entries.len() implies within(
        #[trigger] s.entries[i].region,
        s.texture.size,
    ) by {
        lemma_cached_fits(s, i);
    }
}

/// Packing across requests: a request keeps the atlas well formed, keeps every
/// earlier glyph where it was, and a glyph it adds lies inside the texture and
/// overlaps none of the earlier ones.
pub proof fn lemma_added_glyph_disjoint(s: GlyphCacheView, key: GlyphKey, bitmap: Seq<u8>)
    requires
        cache_wf(s),
    ensures
        ({
            let (t, r) = cache_step(s, key, bitmap);
            &&& cache_wf(t)
            &&& s.entries.len() <= t.entries.len()
            &&& forall|i: int| 0 <= i < s.entries.len() ==> #[trigger] t.entries[i] == s.entries[i]
            &&& r matches Ok(CacheBy::Add(uv)) ==> {
                &&& within(uv.region, t.texture.size)
                &&& forall|i: int|
                    0 <= i < s.entries.len() ==> disjoint(uv.region, #[trigger] s.entries[i].region)
            }
        }),
{
    let (t, r) = cache_step(s, key, bitmap);
    if let Ok(CacheBy::Add(uv)) = r {
        lemma_place_wf(s, key, bitmap);
        let m = s.entries.len() as int;
        lemma_cached_glyphs_disjoint(t);
        assert(t.entries[m].region == uv.region);
        assert forall|i: int| 0 <= i < s.entries.len() implies disjoint(
            uv.region,
            #[trigger] s.entries[i].region,
        ) by {
            assert(t.entries[i] == s.entries[i]);
            assert(disjoint(t.entries[m].region, t.entries[i].region));
        }
    }
}

/// `TooLarge` comes exactly when the glyph plus its gutter exceeds the atlas
/// edge, whatever the atlas holds.
pub proof fn lemma_too_large_iff(s: GlyphCacheView, key: GlyphKey, bitmap: Seq<u8>)
    requires
        cache_wf(s),
    ensures
        cache_step(s, key, bitmap).1 == Err::<CacheBy, CacheError>(CacheError::TooLarge)
            <==> too_large(s.cache_size, key.width, key.height),
{
    if cached(s.entries, key) {
        let i = choose|i: int| 0 <= i < s.entries.len() && s.entries[i].key == key;
        lemma_cached_fits(s, i);
    }
}

/// After a clear or a resize the atlas is empty: any glyph that is not too large
/// is placed afresh at the origin, and its bitmap written into the texture.
pub proof fn lemma_empty_cache_places(s: GlyphCacheView, key: GlyphKey, bitmap: Seq<u8>)
    requires
        cache_wf(s),
        s.entries.len() == 0,
        s.shelves.len() == 0,
    ensures
        !cached(s.entries, key),
        !too_large(s.cache_size, key.width, key.height) ==> {
            let region = Region { x: 0, y: 0, width: key.width, height: key.height };
            cache_step(s, key, bitmap) == (
                GlyphCacheView {
                    texture: written(
                        s.texture,
                        CommandView::SubImage { region, pixels: Some(rgba_of_alpha(bitmap)) },
                    ),
                    entries: seq![GlyphEntry { key, region, shelf: 0 }],
                    shelves: seq![Size { width: (key.width + 1) as u32, height: (key.height + 1) as u32 }],
                    ..s
                },
                Ok::<CacheBy, CacheError>(CacheBy::Add(UvRegion { region, atlas: s.texture.size })),
            )
        },
{
    if !too_large(s.cache_size, key.width, key.height) {
        let (t, r) = cache_step(s, key, bitmap);
        assert(stack_height(s.shelves, 0) == 0);
        assert(t.entries =~= seq![GlyphEntry { key, region: t.entries[0].region, shelf: 0 }]);
        assert(t.shelves =~= seq![Size { width: (key.width + 1) as u32, height: (key.height + 1) as u32 }]);
    }
}

/// After `clear_cache`, a glyph that is not too large is a miss: it is placed
/// afresh at the origin and its bitmap is written once into the texture.
pub proof fn lemma_clear_forgets(s: GlyphCacheView, key: GlyphKey, bitmap: Seq<u8>)
    requires
        cache_wf(s),
    ensures
        ({
            let c = GlyphCacheView { entries: Seq::empty(), shelves: Seq::empty(), ..s };
            let region = Region { x: 0, y: 0, width: key.width, height: key.height };
            &&& cache_wf(c)
            &&& !cached(c.entries, key)
            &&& !too_large(s.cache_size, key.width, key.height) ==> cache_step(c, key, bitmap) == (
                GlyphCacheView {
                    texture: written(
                        s.texture,
                        CommandView::SubImage { region, pixels: Some(rgba_of_alpha(bitmap)) },
                    ),
                    entries: seq![GlyphEntry { key, region, shelf: 0 }],
                    shelves: seq![Size { width: (key.width + 1) as u32, height: (key.height + 1) as u32 }],
                    ..c
                },
                Ok::<CacheBy, CacheError>(CacheBy::Add(UvRegion { region, atlas: s.texture.size })),
            )
        }),
{
    let c = GlyphCacheView { entries: Seq::empty(), shelves: Seq::empty(), ..s };
    assert(stack_height(c.shelves, 0) == 0);
    lemma_empty_cache_places(c, key, bitmap);
}

/// After `resize_cache(n)`, a glyph that fits an `n` square is a miss: it is
/// placed afresh at the origin of the new atlas and written once into the texture.
pub proof fn lemma_resize_forgets(s: GlyphCacheView, n: u32, key: GlyphKey, bitmap: Seq<u8>)
    requires
        cache_wf(s),
    ensures
        ({
            let c = GlyphCache::resized_view(s, n);
            let region = Region { x: 0, y: 0, width: key.width, height: key.height };
            &&& cache_wf(c)
            &&& !cached(c.entries, key)
            &&& !too_large(n, key.width, key.height) ==> cache_step(c, key, bitmap) == (
                GlyphCacheView {
                    texture: written(
                        c.texture,
                        CommandView::SubImage { region, pixels: Some(rgba_of_alpha(bitmap)) },
                    ),
                    entries: seq![GlyphEntry { key, region, shelf: 0 }],
                    shelves: seq![Size { width: (key.width + 1) as u32, height: (key.height + 1) as u32 }],
                    ..c
                },
                Ok::<CacheBy, CacheError>(
                    CacheBy::Add(UvRegion { region, atlas: Size { width: n, height: n } }),
                ),
            )
        }),
{
    let c = GlyphCache::resized_view(s, n);
    assert(stack_height(c.shelves, 0) == 0);
    lemma_empty_cache_places(c, key, bitmap);
}

/// The glyph atlas: one square RGBA8 texture, shelves packed bottom to top,
/// and the regions of the glyphs written into it.
pub struct GlyphCache {
    cache_size: u32,
    texture: Texture,
    entries: Vec<GlyphEntry>,
    shelves: Vec<Size>,
}

impl View for GlyphCache {
    type V = GlyphCacheView;

    closed spec fn view(&self) -> GlyphCacheView {
        GlyphCacheView {
            cache_size: self.cache_size,
            texture: self.texture@,
            entries: self.entries@,
            shelves: self.shelves@,
        }
    }
}

fn find_entry(entries: &Vec<GlyphEntry>, key: GlyphKey) -> (r: Option<usize>)
    ensures
        r is None <==> !cached(entries@, key),
        r is Some ==> r->Some_0 < entries@.len() && entries@[r->Some_0 as int].key == key,
{
    let mut i: usize = 0;
    while i < entries.len()
        invariant
            i <= entries@.len(),
            forall|j: int| 0 <= j < i ==> entries@[j].key != key,
        decreases entries@.len() - i,
    {
        if entries[i].key == key {
            return Some(i);
        }
        i += 1;
    }
    None
}

/// First-fit search over the shelves; returns the shelf index (`shelves.len()`
/// when none has room) and the bottom edge of that shelf.
fn find_shelf(shelves: &Vec<Size>, cache_size: u32, fw: u32, fh: u32) -> (r: (usize, u32))
    requires
        stack_height(shelves@, shelves@.len() as int) <= cache_size,
        forall|k: int| 0 <= k < shelves@.len() ==> #[trigger] shelves@[k].width <= cache_size,
    ensures
        r.0 == first_fit(shelves@, cache_size, fw as int, fh as int, 0),
        r.1 == stack_height(shelves@, r.0 as int),
{
    let mut i: usize = 0;
    let mut bottom: u32 = 0;
    while i < shelves.len()
        invariant
            i <= shelves@.len(),
            bottom == stack_height(shelves@, i as int),
            first_fit(shelves@, cache_size, fw as int, fh as int, 0) == first_fit(
                shelves@,
                cache_size,
                fw as int,
                fh as int,
                i as int,
            ),
            stack_height(shelves@, shelves@.len() as int) <= cache_size,
            forall|k: int| 0 <= k < shelves@.len() ==> #[trigger] shelves@[k].width <= cache_size,
        decreases shelves@.len() - i,
    {
        let shelf = shelves[i];
        if fh <= shelf.height && fw <= cache_size - shelf.width {
            return (i, bottom);
        }
        proof {
            lemma_stack_monotone(shelves@, i as int + 1, shelves@.len() as int);
        }
        bottom = bottom + shelf.height;
        i += 1;
    }
    (i, bottom)
}

/// Expands each alpha sample into a white RGBA8 pixel with that alpha.
fn rgba_from_alpha(bitmap: &[u8]) -> (r: Vec<u8>)
    requires
        4 * bitmap@.len() <= usize::MAX,
    ensures
        r@ == rgba_of_alpha(bitmap@),
{
    let mut pixels: Vec<u8> = Vec::with_capacity(bitmap.len() * 4);
    let mut i: usize = 0;
    while i < bitmap.len()
        invariant
            i <= bitmap@.len(),
            4 * bitmap@.len() <= usize::MAX,
            pixels@.len() == 4 * i,
            forall|j: int|
                0 <= j < 4 * i ==> #[trigger] pixels@[j] == (if j % 4 == 3 {
                    bitmap@[j / 4]
                } else {
                    255u8
                }),
        decreases bitmap@.len() - i,
    {
        let alpha = bitmap[i];
        pixels.push(255);
        pixels.push(255);
        pixels.push(255);
        pixels.push(alpha);
        i += 1;
    }
    assert(pixels@ =~= rgba_of_alpha(bitmap@));
    pixels
}

impl GlyphCache {
    pub open spec fn wf(&self) -> bool {
        cache_wf(self@)
    }

    /// The state of a cache just made by [`GlyphCache::new`].
    pub open spec fn new_view(cache_size: u32, filter: Filter, wrap: Wrap) -> GlyphCacheView {
        GlyphCacheView {
            cache_size,
            texture: created(Size { width: cache_size, height: cache_size }, None, filter, wrap),
            entries: Seq::empty(),
            shelves: Seq::empty(),
        }
    }

    /// The state after [`GlyphCache::resize_cache`]: empty, over a reallocated texture.
    pub open spec fn resized_view(s: GlyphCacheView, cache_size: u32) -> GlyphCacheView {
        GlyphCacheView {
            cache_size,
            texture: written(
                TextureView { size: Size { width: cache_size, height: cache_size }, ..s.texture },
                CommandView::InitImage { size: Size { width: cache_size, height: cache_size }, pixels: None },
            ),
            entries: Seq::empty(),
            shelves: Seq::empty(),
        }
    }

    /// An empty cache over a new `cache_size` square texture with no initial pixels.
    pub fn new(cache_size: u32, filter: Filter, wrap: Wrap) -> (r: GlyphCache)
        ensures
            r.wf(),
            r@ == GlyphCache::new_view(cache_size, filter, wrap),
    {
        let size = Size::new(cache_size, cache_size);
        match Texture::new(size, None, filter, wrap) {
            Ok(texture) => {
                let r = GlyphCache { cache_size, texture, entries: Vec::new(), shelves: Vec::new() };
                assert(stack_height(r@.shelves, 0) == 0);
                r
            },
            Err(_) => {
                proof {
                    assert(false);
                }
                unreached()
            },
        }
    }

    pub fn cache_size(&self) -> (r: u32)
        ensures
            r == self@.cache_size,
    {
        self.cache_size
    }

    /// The atlas texture, for drawing.
    pub fn texture(&self) -> (r: &Texture)
        ensures
            r@ == self@.texture,
    {
        &self.texture
    }

    /// The stored region of a cached glyph, if any.
    pub fn lookup(&self, character: char, width: u32, height: u32) -> (r: Option<UvRegion>)
        requires
            self.wf(),
        ensures
            ({
                let key = GlyphKey { character, width, height };
                &&& r is Some <==> cached(self@.entries, key)
                &&& r is Some ==> r->Some_0 == (UvRegion {
                    region: cached_region(self@.entries, key),
                    atlas: self@.texture.size,
                })
            }),
    {
        let key = GlyphKey { character, width, height };
        match find_entry(&self.entries, key) {
            Some(i) => {
                let e = self.entries[i];
                proof {
                    let j = choose|j: int| 0 <= j < self@.entries.len() && self@.entries[j].key == key;
                    assert(self@.entries[j].key == self@.entries[i as int].key);
                }
                Some(UvRegion { region: e.region, atlas: self.texture.size() })
            },
            None => None,
        }
    }
    /// Returns where the glyph `character` with a `width` by `height` alpha
    /// `bitmap` stands in the atlas, placing it and writing its pixels on a miss.
    pub fn cache_glyph(&mut self, character: char, width: u32, height: u32, bitmap: &[u8]) -> (r:
        Result<CacheBy, CacheError>)
        requires
            old(self).wf(),
            bitmap@.len() == width as int * height as int,
            4 * bitmap@.len() <= usize::MAX,
        ensures
            final(self).wf(),
            (final(self)@, r) == cache_step(old(self)@, GlyphKey { character, width, height }, bitmap@),
    {
        let key = GlyphKey { character, width, height };
        if let Some(uv) = self.lookup(character, width, height) {
            return Ok(CacheBy::Exist(uv));
        }
        let cache_size = self.cache_size;
        if width >= cache_size || height >= cache_size {
            return Err(CacheError::TooLarge);
        }
        let fw = width + 1;
        let fh = height + 1;
        let (k, bottom) = find_shelf(&self.shelves, cache_size, fw, fh);
        proof {
            lemma_first_fit(self@.shelves, cache_size, fw as int, fh as int, 0);
        }
        let region;
        if k < self.shelves.len() {
            let shelf = self.shelves[k];
            region = Region::new(shelf.width, bottom, width, height);
            self.shelves.set(k, Size::new(shelf.width + fw, shelf.height));
        } else if fh <= cache_size - bottom {
            region = Region::new(0, bottom, width, height);
            self.shelves.push(Size::new(fw, fh));
        } else {
            return Err(CacheError::NoRoom);
        }
        proof {
            lemma_place_wf(old(self)@, key, bitmap@);
            lemma_stack_monotone(old(self)@.shelves, k as int, old(self)@.shelves.len() as int);
            if k < old(self)@.shelves.len() {
                lemma_stack_below(old(self)@.shelves, k as int, old(self)@.shelves.len() as int);
            }
            assert(within(region, self@.texture.size));
            assert(bitmap@.len() * 4 == width as int * height as int * 4) by (nonlinear_arith)
                requires
                    bitmap@.len() == width as int * height as int,
            ;
        }
        let pixels = rgba_from_alpha(bitmap);
        let written_ok = self.texture.update_pixels(region, Some(pixels.as_slice()));
        assert(written_ok is Ok);
        let uv = UvRegion { region, atlas: self.texture.size() };
        self.entries.push(GlyphEntry { key, region, shelf: k });
        proof {
            let m = place_on(old(self)@, key, bitmap@, k as int);
            assert(self@.shelves =~= m.0.shelves);
            assert(self@.entries =~= m.0.entries);
        }
        Ok(CacheBy::Add(uv))
    }

    /// Forgets every cached glyph and shelf; the texture keeps its size and pixels.
    pub fn clear_cache(&mut self)
        requires
            old(self).wf(),
        ensures
            final(self).wf(),
            final(self)@ == (GlyphCacheView {
                entries: Seq::empty(),
                shelves: Seq::empty(),
                ..old(self)@
            }),
    {
        self.entries.clear();
        self.shelves.clear();
        assert(self@.entries =~= Seq::<GlyphEntry>::empty());
        assert(self@.shelves =~= Seq::<Size>::empty());
        assert(stack_height(self@.shelves, 0) == 0);
    }

    /// Forgets every cached glyph and shelf and reallocates the texture as a
    /// `cache_size` square with no initial pixels.
    pub fn resize_cache(&mut self, cache_size: u32)
        requires
            old(self).wf(),
        ensures
            final(self).wf(),
            final(self)@ == GlyphCache::resized_view(old(self)@, cache_size),
    {
        self.entries.clear();
        self.shelves.clear();
        let size = Size::new(cache_size, cache_size);
        let resized = self.texture.init_pixels(size, None);
        assert(resized is Ok);
        self.cache_size = cache_size;
        assert(self@.entries =~= Seq::<GlyphEntry>::empty());
        assert(self@.shelves =~= Seq::<Size>::empty());
        assert(stack_height(self@.shelves, 0) == 0);
    }

    pub fn filter(&self) -> (r: Filter)
        ensures
            r == self@.texture.filter,
    {
        self.texture.filter()
    }

    /// Sets the atlas texture's filter, as [`Texture::set_filter`] does.
    pub fn set_filter(&mut self, filter: Filter)
        requires
            old(self).wf(),
        ensures
            final(self).wf(),
            final(self)@ == (GlyphCacheView {
                texture: with_filter(old(self)@.texture, filter),
                ..old(self)@
            }),
    {
        self.texture.set_filter(filter);
    }

    /// Hands the atlas texture's pending GPU commands to the caller, oldest first.
    pub fn take_commands(&mut self) -> (r: Vec<TextureCommand>)
        requires
            old(self).wf(),
        ensures
            final(self).wf(),
            r@.map_values(|c: TextureCommand| c@) == old(self)@.texture.commands,
            final(self)@ == (GlyphCacheView {
                texture: TextureView { commands: Seq::empty(), ..old(self)@.texture },
                ..old(self)@
            }),
    {
        self.texture.take_commands()
    }
}

#[verifier::external_type_specification]
#[verifier::external_body]
pub struct ExFontFace(FontFace);

/// The bytes parse as a font file under fontdue's default settings.
pub uninterp spec fn font_parses(bytes: Seq<u8>) -> bool;

/// Relies on fontdue::Font::from_bytes, with default settings, to parse font
/// file bytes: whether it succeeds depends on the bytes alone; its error is kept as text.
#[verifier::external_body]
fn parse_font(bytes: &[u8]) -> (r: Result<FontFace, GameError>)
    ensures
        r is Ok <==> font_parses(bytes@),
        r matches Err(e) ==> e is InitError,
{
    FontFace::from_bytes(bytes, fontdue::FontSettings::default()).map_err(
        |error| GameError::InitError(error.to_string()),
    )
}

/// Edge length of the atlas of a font made by [`Font::from_bytes`].
pub const DEFAULT_CACHE_SIZE: u32 = 1024;

/// A parsed font and the glyph atlas its glyphs are cached in.
pub struct Font {
    font: FontFace,
    cache: GlyphCache,
}

impl View for Font {
    type V = GlyphCacheView;

    closed spec fn view(&self) -> GlyphCacheView {
        self.cache@
    }
}

impl Font {
    pub open spec fn wf(&self) -> bool {
        cache_wf(self@)
    }

    /// Parses `bytes` as a font file and gives it an empty atlas of `cache_size`.
    pub fn new(bytes: &[u8], cache_size: u32, filter: Filter, wrap: Wrap) -> (r: Result<Font, GameError>)
        ensures
            r is Ok <==> font_parses(bytes@),
            r matches Ok(font) ==> font.wf() && font@ == GlyphCache::new_view(cache_size, filter, wrap),
            r matches Err(e) ==> e is InitError,
    {
        match parse_font(bytes) {
            Ok(font) => Ok(Font { font, cache: GlyphCache::new(cache_size, filter, wrap) }),
            Err(e) => Err(e),
        }
    }

    /// Parses `bytes` as a font file, with an atlas of [`DEFAULT_CACHE_SIZE`].
    pub fn from_bytes(bytes: &[u8], filter: Filter, wrap: Wrap) -> (r: Result<Font, GameError>)
        ensures
            r is Ok <==> font_parses(bytes@),
            r matches Ok(font) ==> font.wf() && font@ == GlyphCache::new_view(
                DEFAULT_CACHE_SIZE,
                filter,
                wrap,
            ),
            r matches Err(e) ==> e is InitError,
    {
        Font::new(bytes, DEFAULT_CACHE_SIZE, filter, wrap)
    }

    /// The parsed font, for its metrics and rasterizer.
    pub fn font(&self) -> &FontFace {
        &self.font
    }

    pub fn cache_size(&self) -> (r: u32)
        ensures
            r == self@.cache_size,
    {
        self.cache.cache_size()
    }

    pub fn texture(&self) -> (r: &Texture)
        ensures
            r@ == self@.texture,
    {
        self.cache.texture()
    }

    /// As [`GlyphCache::lookup`].
    pub fn lookup(&self, character: char, width: u32, height: u32) -> (r: Option<UvRegion>)
        requires
            self.wf(),
        ensures
            ({
                let key = GlyphKey { character, width, height };
                &&& r is Some <==> cached(self@.entries, key)
                &&& r is Some ==> r->Some_0 == (UvRegion {
                    region: cached_region(self@.entries, key),
                    atlas: self@.texture.size,
                })
            }),
    {
        self.cache.lookup(character, width, height)
    }

    /// As [`GlyphCache::cache_glyph`], for a glyph of this font whose rasterized
    /// bitmap is `width` by `height` alpha samples.
    pub fn cache_glyph(&mut self, character: char, width: u32, height: u32, bitmap: &[u8]) -> (r:
        Result<CacheBy, CacheError>)
        requires
            old(self).wf(),
            bitmap@.len() == width as int * height as int,
            4 * bitmap@.len() <= usize::MAX,
        ensures
            final(self).wf(),
            (final(self)@, r) == cache_step(old(self)@, GlyphKey { character, width, height }, bitmap@),
    {
        self.cache.cache_glyph(character, width, height, bitmap)
    }

    pub fn clear_cache(&mut self)
        requires
            old(self).wf(),
        ensures
            final(self).wf(),
            final(self)@ == (GlyphCacheView {
                entries: Seq::empty(),
                shelves: Seq::empty(),
                ..old(self)@
            }),
    {
        self.cache.clear_cache();
    }

    pub fn resize_cache(&mut self, cache_size: u32)
        requires
            old(self).wf(),
        ensures
            final(self).wf(),
            final(self)@ == GlyphCache::resized_view(old(self)@, cache_size),
    {
        self.cache.resize_cache(cache_size);
    }

    pub fn filter(&self) -> (r: Filter)
        ensures
            r == self@.texture.filter,
    {
        self.cache.filter()
    }

    pub fn set_filter(&mut self, filter: Filter)
        requires
            old(self).wf(),
        ensures
            final(self).wf(),
            final(self)@ == (GlyphCacheView {
                texture: with_filter(old(self)@.texture, filter),
                ..old(self)@
            }),
    {
        self.cache.set_filter(filter);
    }

    pub fn take_commands(&mut self) -> (r: Vec<TextureCommand>)
        requires
            old(self).wf(),
        ensures
            final(self).wf(),
            r@.map_values(|c: TextureCommand| c@) == old(self)@.texture.commands,
            final(self)@ == (GlyphCacheView {
                texture: TextureView { commands: Seq::empty(), ..old(self)@.texture },
                ..old(self)@
            }),
    {
        self.cache.take_commands()
    }
}

} // verus!
