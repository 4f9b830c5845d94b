//! Glyph atlas bookkeeping: where a glyph lives on a page.
//!
//! One atlas per engine process; every pane shares the same pages.

use vstd::prelude::*;

use crate::table::{self, Entry};
use crate::text;

verus! {

/// A glyph identity: the face, the device pixel size and the codepoint.
///
/// `px` carries pt times scale quantized to quarter pixels, so the same glyph on the same screen
/// never rasters twice and a DPR change rasters exactly once.
#[derive(Debug, PartialEq, Eq, Hash)]
pub struct GlyphKey {
    pub family: String,
    pub px: u32,
    pub codepoint: u32,
}

/// A glyph identity as a mathematical value.
pub struct KeyView {
    pub family: Seq<char>,
    pub px: u32,
    pub codepoint: u32,
}

impl View for GlyphKey {
    type V = KeyView;

    open spec fn view(&self) -> KeyView {
        KeyView { family: self.family@, px: self.px, codepoint: self.codepoint }
    }
}

impl Clone for GlyphKey {
    fn clone(&self) -> (copy: Self)
        ensures
            copy@ == self@,
    {
        GlyphKey {
            family: String::from_str(self.family.as_str()),
            px: self.px,
            codepoint: self.codepoint,
        }
    }
}

impl GlyphKey {
    fn same(&self, other: &GlyphKey) -> (same: bool)
        ensures
            same == (self@ == other@),
    {
        self.px == other.px && self.codepoint == other.codepoint && text::same_text(
            self.family.as_str(),
            other.family.as_str(),
        )
    }
}

/// Where a rastered glyph sits on the page, and how it hangs off the baseline.
#[derive(Debug, Clone, Copy, PartialEq, Eq, Structural)]
pub struct Slot {
    pub x: u16,
    pub y: u16,
    pub w: u16,
    pub h: u16,
    /// Ink offset from the cell's left edge; can be negative for overhang.
    pub left: i16,
    /// Ink offset up from the baseline to the bitmap's top row.
    pub top: i16,
}

/// A rastered coverage bitmap handed back by the canvas.
pub struct Bitmap {
    pub w: u16,
    pub h: u16,
    pub left: i16,
    pub top: i16,
    pub coverage: Vec<u8>,
}

/// The state of a page: its side, and the shelf that glyphs are put on.
#[verifier::ext_equal]
pub struct PageView {
    pub size: nat,
    pub shelf_y: nat,
    pub shelf_h: nat,
    pub cursor_x: nat,
}

/// A page whose open shelf lies on it.
pub open spec fn page_wf(page: PageView) -> bool {
    page.cursor_x <= page.size && page.shelf_y + page.shelf_h <= page.size
}

/// The page on which a bitmap of width `w` goes: a new shelf is opened when the current one has
/// no room for it.
pub open spec fn shelved(page: PageView, w: nat) -> PageView {
    if page.cursor_x + w > page.size {
        PageView { shelf_y: page.shelf_y + page.shelf_h, shelf_h: 0, cursor_x: 0, ..page }
    } else {
        page
    }
}

/// Whether a page has a spot for a `w` by `h` bitmap.
pub open spec fn fits(page: PageView, w: nat, h: nat) -> bool {
    w <= page.size && h <= page.size && shelved(page, w).shelf_y + h <= page.size
}

/// The page after a `w` by `h` bitmap was put at the end of its shelf.
pub open spec fn page_after(page: PageView, w: nat, h: nat) -> PageView {
    let open = shelved(page, w);
    PageView {
        cursor_x: open.cursor_x + w,
        shelf_h: if h > open.shelf_h {
            h
        } else {
            open.shelf_h
        },
        ..open
    }
}

/// Shelf placement on one square page: rows of glyphs, each row as tall as its tallest occupant.
///
/// Deterministic and append-only: eviction is a whole-page reset when a font generation retires,
/// never a per-glyph hole.
pub struct AtlasPage {
    size: u16,
    shelf_y: u16,
    shelf_h: u16,
    cursor_x: u16,
}

impl View for AtlasPage {
    type V = PageView;

    closed spec fn view(&self) -> PageView {
        PageView {
            size: self.size as nat,
            shelf_y: self.shelf_y as nat,
            shelf_h: self.shelf_h as nat,
            cursor_x: self.cursor_x as nat,
        }
    }
}

impl AtlasPage {
    /// An empty page with sides of `size`.
    pub fn new(size: u16) -> (page: Self)
        ensures
            page@ == (PageView { size: size as nat, shelf_y: 0, shelf_h: 0, cursor_x: 0 }),
            page_wf(page@),
    {
        AtlasPage { size, shelf_y: 0, shelf_h: 0, cursor_x: 0 }
    }

    /// The next free spot for a `w` by `h` bitmap, or `None` when the page is full. A page that
    /// refuses stays as it is.
    pub fn place(&mut self, w: u16, h: u16) -> (spot: Option<(u16, u16)>)
        requires
            page_wf(old(self)@),
        ensures
            page_wf(final(self)@),
            match spot {
                Some(spot) => {
                    &&& fits(old(self)@, w as nat, h as nat)
                    &&& spot.0 == shelved(old(self)@, w as nat).cursor_x
                    &&& spot.1 == shelved(old(self)@, w as nat).shelf_y
                    &&& final(self)@ == page_after(old(self)@, w as nat, h as nat)
                },
                None => !fits(old(self)@, w as nat, h as nat) && final(self)@ == old(self)@,
            },
    {
        if w > self.size || h > self.size {
            return None;
        }
        if self.cursor_x as u32 + w as u32 > self.size as u32 {
            let next_y: u16 = self.shelf_y + self.shelf_h;
            if next_y as u32 + h as u32 > self.size as u32 {
                return None;
            }
            self.shelf_y = next_y;
            self.shelf_h = 0;
            self.cursor_x = 0;
        }
        if self.shelf_y as u32 + h as u32 > self.size as u32 {
            return None;
        }
        let spot = (self.cursor_x, self.shelf_y);
        self.cursor_x = self.cursor_x + w;
        if h > self.shelf_h {
            self.shelf_h = h;
        }
        Some(spot)
    }
}

/// A rectangle on a page.
pub struct Rect {
    pub x: nat,
    pub y: nat,
    pub w: nat,
    pub h: nat,
}

/// Whether two rectangles share no pixel.
pub open spec fn apart(a: Rect, b: Rect) -> bool {
    ||| a.x + a.w <= b.x
    ||| b.x + b.w <= a.x
    ||| a.y + a.h <= b.y
    ||| b.y + b.h <= a.y
}

/// Whether every rectangle lies on the page, above the open shelf or on it before the cursor.
pub open spec fn settled(page: PageView, rects: Seq<Rect>) -> bool {
    forall|i: int|
        0 <= i < rects.len() ==> {
            let rect = #[trigger] rects[i];
            &&& rect.x + rect.w <= page.size
            &&& rect.y + rect.h <= page.size
            &&& rect.y + rect.h <= page.shelf_y || (rect.y == page.shelf_y && rect.x + rect.w
                <= page.cursor_x && rect.h <= page.shelf_h)
        }
}

/// A bitmap is never put over another one or over the edge: what a page placed so far, and what it
/// places next, lie on the page and share no pixel.
pub proof fn law_placed_bitmaps_never_overlap(page: PageView, rects: Seq<Rect>, w: nat, h: nat)
    requires
        page_wf(page),
        settled(page, rects),
        fits(page, w, h),
    ensures
        ({
            let open = shelved(page, w);
            let placed = Rect { x: open.cursor_x, y: open.shelf_y, w, h };
            &&& settled(page_after(page, w, h), rects.push(placed))
            &&& forall|i: int| 0 <= i < rects.len() ==> apart(#[trigger] rects[i], placed)
        }),
{
    let open = shelved(page, w);
    let placed = Rect { x: open.cursor_x, y: open.shelf_y, w, h };
    let all = rects.push(placed);
    assert forall|i: int| 0 <= i < all.len() implies {
        let rect = #[trigger] all[i];
        let after = page_after(page, w, h);
        &&& rect.x + rect.w <= after.size
        &&& rect.y + rect.h <= after.size
        &&& rect.y + rect.h <= after.shelf_y || (rect.y == after.shelf_y && rect.x + rect.w
            <= after.cursor_x && rect.h <= after.shelf_h)
    } by {
        if i < rects.len() {
            assert(all[i] == rects[i]);
        }
    }
}

struct Placed {
    key: GlyphKey,
    slot: Slot,
}

impl Entry for Placed {
    type Key = KeyView;

    type Value = Slot;

    closed spec fn key(&self) -> KeyView {
        self.key@
    }

    closed spec fn value(&self) -> Slot {
        self.slot
    }
}

pub const ATLAS_PAGE_SIZE: u16 = 1024;

/// The atlas: one coverage page plus the slot registry.
pub struct Atlas {
    page: AtlasPage,
    entries: Vec<Placed>,
}

/// What an atlas holds: its page, and the slot of every glyph on it.
#[verifier::ext_equal]
pub struct AtlasView {
    pub page: PageView,
    pub slots: Map<KeyView, Slot>,
}

impl View for Atlas {
    type V = AtlasView;

    closed spec fn view(&self) -> AtlasView {
        AtlasView { page: self.page@, slots: table::table(self.entries@) }
    }
}

/// The slot of a bitmap that is put on a page.
pub open spec fn slot_on(page: PageView, bitmap: Bitmap) -> Slot {
    let open = shelved(page, bitmap.w as nat);
    Slot {
        x: open.cursor_x as u16,
        y: open.shelf_y as u16,
        w: bitmap.w,
        h: bitmap.h,
        left: bitmap.left,
        top: bitmap.top,
    }
}

impl Default for Atlas {
    fn default() -> (atlas: Self)
        ensures
            atlas.wf(),
            atlas@.slots == Map::<KeyView, Slot>::empty(),
            atlas@.page == (PageView {
                size: ATLAS_PAGE_SIZE as nat,
                shelf_y: 0,
                shelf_h: 0,
                cursor_x: 0,
            }),
    {
        Self::new(ATLAS_PAGE_SIZE)
    }
}

impl Atlas {
    /// The registry holds no glyph twice, and the page is in order.
    pub closed spec fn wf(&self) -> bool {
        table::distinct(self.entries@) && page_wf(self.page@)
    }

    /// An empty atlas with one page of `page_size`.
    pub fn new(page_size: u16) -> (atlas: Self)
        ensures
            atlas.wf(),
            atlas@.slots == Map::<KeyView, Slot>::empty(),
            atlas@.page == (PageView {
                size: page_size as nat,
                shelf_y: 0,
                shelf_h: 0,
                cursor_x: 0,
            }),
    {
        Atlas { page: AtlasPage::new(page_size), entries: Vec::new() }
    }

    /// How many glyphs are on the page.
    pub fn len(&self) -> (n: usize)
        requires
            self.wf(),
        ensures
            n == self@.slots.dom().len(),
    {
        proof {
            table::lemma_table(self.entries@);
        }
        self.entries.len()
    }

    /// Whether no glyph is on the page.
    pub fn is_empty(&self) -> (empty: bool)
        requires
            self.wf(),
        ensures
            empty == (self@.slots.dom().len() == 0),
    {
        self.len() == 0
    }

    /// The slot of a glyph that is on the page.
    pub fn slot(&self, key: &GlyphKey) -> (slot: Option<Slot>)
        requires
            self.wf(),
        ensures
            slot == if self@.slots.contains_key(key@) {
                Some(self@.slots[key@])
            } else {
                None
            },
    {
        let mut i: usize = 0;
        while i < self.entries.len()
            invariant
                self.wf(),
                i <= self.entries@.len(),
                forall|j: int| 0 <= j < i ==> (#[trigger] self.entries@[j]).key() != key@,
            decreases self.entries@.len() - i,
        {
            if self.entries[i].key.same(key) {
                proof {
                    table::lemma_table(self.entries@);
                }
                return Some(self.entries[i].slot);
            }
            i = i + 1;
        }
        proof {
            table::lemma_table(self.entries@);
        }
        None
    }

    fn register(&mut self, key: &GlyphKey, slot: Slot)
        requires
            old(self).wf(),
            !old(self)@.slots.contains_key(key@),
        ensures
            final(self).wf(),
            final(self)@ == (AtlasView {
                slots: old(self)@.slots.insert(key@, slot),
                ..old(self)@
            }),
    {
        let entry = Placed { key: key.clone(), slot };
        proof {
            table::lemma_table_push(self.entries@, entry);
        }
        self.entries.push(entry);
    }

    /// The slot for a glyph, rastering and uploading at most once per key. `raster` produces
    /// coverage; `upload` moves it onto the page.
    ///
    /// A glyph that is on the page costs no call. Otherwise it is rastered, and where that fails
    /// nothing changes. A bitmap without a spot is refused. A bitmap that could not be uploaded
    /// leaves its spot unused and its glyph unknown.
    pub fn ensure<R, U>(&mut self, key: &GlyphKey, raster: &mut R, upload: &mut U) -> (slot: Result<
        Slot,
        String,
    >) where
        R: FnMut(&GlyphKey) -> Result<Bitmap, String>,
        U: FnMut(u16, u16, &Bitmap) -> Result<(), String>,

        requires
            old(self).wf(),
            call_requires(*old(raster), (key,)),
            forall|x: u16, y: u16, bitmap: &Bitmap| call_requires(*old(upload), (x, y, bitmap)),
        ensures
            final(self).wf(),
            old(self)@.slots.contains_key(key@) ==> slot == Ok::<Slot, String>(
                old(self)@.slots[key@],
            ) && final(self)@ == old(self)@ && *final(raster) == *old(raster) && *final(upload)
                == *old(upload),
            !old(self)@.slots.contains_key(key@) ==> {
                ||| (slot is Err && call_ensures(*old(raster), (key,), Err::<Bitmap, String>(slot->Err_0))
                    && final(self)@ == old(self)@ && *final(upload) == *old(upload))
                ||| exists|bitmap: Bitmap|
                    #![trigger call_ensures(*old(raster), (key,), Ok::<Bitmap, String>(bitmap))]
                    call_ensures(*old(raster), (key,), Ok::<Bitmap, String>(bitmap))
                        && ensured(
                        old(self)@,
                        key@,
                        bitmap,
                        (*old(upload), *final(upload)),
                        slot,
                        final(self)@,
                    )
            },
    {
        if let Some(slot) = self.slot(key) {
            return Ok(slot);
        }
        let bitmap = match raster(key) {
            Ok(bitmap) => bitmap,
            Err(error) => return Err(error),
        };
        let ghost before = self@;
        let ghost held = *upload;
        let (x, y) = match self.page.place(bitmap.w, bitmap.h) {
            Some(spot) => spot,
            None => {
                let error = String::from_str("ATLAS_FULL: the coverage page has no room left");
                assert(ensured(
                    before,
                    key@,
                    bitmap,
                    (held, *upload),
                    Err::<Slot, String>(error),
                    self@,
                ));
                return Err(error);
            },
        };
        match upload(x, y, &bitmap) {
            Err(error) => {
                assert(ensured(
                    before,
                    key@,
                    bitmap,
                    (held, *upload),
                    Err::<Slot, String>(error),
                    self@,
                ));
                return Err(error);
            },
            Ok(done) => {
                assert(done == ());
            },
        }
        let slot = Slot { x, y, w: bitmap.w, h: bitmap.h, left: bitmap.left, top: bitmap.top };
        self.register(key, slot);
        assert(slot == slot_on(before.page, bitmap));
        assert(ensured(
            before,
            key@,
            bitmap,
            (held, *upload),
            Ok::<Slot, String>(slot),
            self@,
        ));
        Ok(slot)
    }
}

/// What becomes of a rastered glyph: refused without an upload where the page has no room, given
/// back with the upload's error, or registered at its spot. `upload` is the upload before and after.
pub open spec fn ensured<U: FnMut(u16, u16, &Bitmap) -> Result<(), String>>(
    before: AtlasView,
    key: KeyView,
    bitmap: Bitmap,
    upload: (U, U),
    slot: Result<Slot, String>,
    after: AtlasView,
) -> bool {
    let (w, h) = (bitmap.w as nat, bitmap.h as nat);
    let spot = slot_on(before.page, bitmap);
    if !fits(before.page, w, h) {
        &&& after == before
        &&& slot is Err
        &&& slot->Err_0@ == "ATLAS_FULL: the coverage page has no room left"@
        &&& upload.1 == upload.0
    } else {
        &&& after.page == page_after(before.page, w, h)
        &&& match slot {
            Ok(slot) => {
                &&& slot == spot
                &&& call_ensures(upload.0, (spot.x, spot.y, &bitmap), Ok::<(), String>(()))
                &&& after.slots == before.slots.insert(key, spot)
            },
            Err(error) => {
                &&& call_ensures(upload.0, (spot.x, spot.y, &bitmap), Err::<(), String>(error))
                &&& after.slots == before.slots
            },
        }
    }
}

} // verus!
