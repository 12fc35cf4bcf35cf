//! The glyphs of an overlay, packed into one image.
//!
//! Glyphs stand in rows. Around each there is a line of empty pixels, so that
//! sampling one never touches another.

use vstd::prelude::*;

verus! {

pub const ATLAS_WIDTH: u32 = 512;

pub const ATLAS_HEIGHT: u32 = 128;

pub const ATLAS_PIXELS: usize = 65_536;

pub const FIRST_GLYPH: u8 = 32;

pub const LAST_GLYPH: u8 = 126;

/// The picture of a character: `height` rows of `width` pixels.
#[derive(Clone, Debug)]
pub struct GlyphBitmap {
    pub character: char,
    pub width: u32,
    pub height: u32,
    pub xmin: i32,
    pub ymin: i32,
    pub pixels: Vec<u8>,
}

/// Where a glyph stands in the image, and how it stands on a line of text.
#[derive(Clone, Copy, Debug, PartialEq, Eq, Structural)]
pub struct AtlasGlyph {
    pub character: char,
    pub x: u32,
    pub y: u32,
    pub width: u32,
    pub height: u32,
    pub xmin: i32,
    pub ymin: i32,
}

/// The glyphs do not fit the image.
#[derive(Clone, Copy, Debug, PartialEq, Eq, Structural)]
pub struct AtlasFull;

/// An image into which glyphs are packed.
#[derive(Debug)]
pub struct GlyphAtlas {
    pixels: Vec<u8>,
    glyphs: Vec<AtlasGlyph>,
    x: u32,
    y: u32,
    row_height: u32,
}

/// The contents of a [`GlyphAtlas`]: its pixels row by row, the glyphs in the order
/// in which they came, and where the next one goes.
#[verifier::ext_equal]
pub struct AtlasModel {
    pub pixels: Seq<u8>,
    pub glyphs: Seq<AtlasGlyph>,
    pub x: int,
    pub y: int,
    pub row_height: int,
}

impl View for GlyphAtlas {
    type V = AtlasModel;

    closed spec fn view(&self) -> AtlasModel {
        AtlasModel {
            pixels: self.pixels@,
            glyphs: self.glyphs@,
            x: self.x as int,
            y: self.y as int,
            row_height: self.row_height as int,
        }
    }
}

/// `line` written over `pixels` from `start` on.
pub open spec fn overwritten(pixels: Seq<u8>, start: int, line: Seq<u8>) -> Seq<u8> {
    Seq::new(
        pixels.len(),
        |i: int|
            if start <= i < start + line.len() {
                line[i - start]
            } else {
                pixels[i]
            },
    )
}

/// The first `rows` rows of a picture, written with its corner at `x` and `y`.
pub open spec fn drawn(
    pixels: Seq<u8>,
    x: int,
    y: int,
    width: int,
    picture: Seq<u8>,
    rows: int,
) -> Seq<u8>
    decreases rows,
{
    if rows <= 0 {
        pixels
    } else {
        overwritten(
            drawn(pixels, x, y, width, picture, rows - 1),
            (y + rows - 1) * 512 + x,
            picture.subrange((rows - 1) * width, rows * width),
        )
    }
}

impl AtlasModel {
    pub open spec fn empty() -> AtlasModel {
        AtlasModel {
            pixels: Seq::new(65_536, |i: int| 0u8),
            glyphs: Seq::empty(),
            x: 1,
            y: 1,
            row_height: 0,
        }
    }

    /// Where a glyph of this width goes: behind the last one, or where the row is
    /// full at the start of the next row.
    pub open spec fn row_for(self, width: int) -> AtlasModel {
        if self.x + width + 1 > 512 {
            AtlasModel { x: 1, y: self.y + self.row_height + 1, row_height: 0, ..self }
        } else {
            self
        }
    }

    /// The image with a glyph more; nothing where its row is not high enough.
    pub open spec fn placed(self, glyph: GlyphBitmap) -> Option<AtlasModel> {
        let row = self.row_for(glyph.width as int);
        if row.y + glyph.height + 1 > 128 {
            None
        } else {
            Some(
                AtlasModel {
                    pixels: drawn(
                        self.pixels,
                        row.x,
                        row.y,
                        glyph.width as int,
                        glyph.pixels@,
                        glyph.height as int,
                    ),
                    glyphs: self.glyphs.push(
                        AtlasGlyph {
                            character: glyph.character,
                            x: row.x as u32,
                            y: row.y as u32,
                            width: glyph.width,
                            height: glyph.height,
                            xmin: glyph.xmin,
                            ymin: glyph.ymin,
                        },
                    ),
                    x: row.x + glyph.width + 1,
                    y: row.y,
                    row_height: if glyph.height > row.row_height {
                        glyph.height as int
                    } else {
                        row.row_height
                    },
                },
            )
        }
    }

    /// A glyph can be drawn here: its picture is whole, and no row of it runs out of
    /// the image.
    pub open spec fn can_draw(self, glyph: GlyphBitmap) -> bool {
        let row = self.row_for(glyph.width as int);
        &&& glyph.pixels@.len() == glyph.width * glyph.height
        &&& self.x + glyph.width + 1 <= u32::MAX
        &&& row.y + glyph.height + 1 <= 128 && glyph.height > 0 ==> (row.y + glyph.height - 1) * 512
            + row.x + glyph.width <= 65_536
    }

    pub open spec fn well_formed(self) -> bool {
        &&& self.pixels.len() == 65_536
        &&& 1 <= self.x
        &&& 1 <= self.y <= 127
        &&& 0 <= self.row_height
        &&& self.y + self.row_height + 1 <= 128
    }
}

impl GlyphAtlas {
    pub open spec fn well_formed(self) -> bool {
        self@.well_formed()
    }

    /// An image without glyphs.
    pub fn new() -> (atlas: Self)
        ensures
            atlas.well_formed(),
            atlas@ == AtlasModel::empty(),
    {
        let mut pixels: Vec<u8> = Vec::new();
        pixels.resize(ATLAS_PIXELS, 0);
        let atlas = GlyphAtlas { pixels, glyphs: Vec::new(), x: 1, y: 1, row_height: 0 };
        assert(atlas@ =~= AtlasModel::empty());
        atlas
    }

    /// Whether a glyph can be drawn here.
    pub fn can_draw(&self, glyph: &GlyphBitmap) -> (result: bool)
        requires
            self.well_formed(),
        ensures
            result == self@.can_draw(*glyph),
    {
        let width: u64 = glyph.width as u64;
        let height: u64 = glyph.height as u64;
        assert(0 <= width * height <= 0xffff_ffff * 0xffff_ffff) by (nonlinear_arith)
            requires
                0 <= width <= 0xffff_ffff,
                0 <= height <= 0xffff_ffff,
        ;
        if glyph.pixels.len() as u64 != width * height {
            return false;
        }
        let end: u64 = self.x as u64 + width + 1;
        if end > u32::MAX as u64 {
            return false;
        }
        let (x, y): (u64, u64) = if end > ATLAS_WIDTH as u64 {
            (1, self.y as u64 + self.row_height as u64 + 1)
        } else {
            (self.x as u64, self.y as u64)
        };
        y + height + 1 > ATLAS_HEIGHT as u64 || height == 0 || (y + height - 1) * (
        ATLAS_WIDTH as u64) + x + width <= ATLAS_PIXELS as u64
    }

    /// Adds a glyph, or leaves the image as it is where it has no room.
    pub fn place(&mut self, glyph: &GlyphBitmap) -> (result: Result<(), AtlasFull>)
        requires
            old(self).well_formed(),
            old(self)@.can_draw(*glyph),
        ensures
            final(self).well_formed(),
            match old(self)@.placed(*glyph) {
                Some(atlas) => result == Ok::<(), AtlasFull>(()) && final(self)@ == atlas,
                None => result == Err::<(), AtlasFull>(AtlasFull) && final(self)@ == old(self)@,
            },
    {
        let mut x: u32 = self.x;
        let mut y: u32 = self.y;
        let mut row_height: u32 = self.row_height;
        if x + glyph.width + 1 > ATLAS_WIDTH {
            x = 1;
            y = y + row_height + 1;
            row_height = 0;
        }
        if glyph.height > ATLAS_HEIGHT || y + glyph.height + 1 > ATLAS_HEIGHT {
            return Err(AtlasFull);
        }
        draw(&mut self.pixels, x, y, glyph);
        self.glyphs.push(
            AtlasGlyph {
                character: glyph.character,
                x,
                y,
                width: glyph.width,
                height: glyph.height,
                xmin: glyph.xmin,
                ymin: glyph.ymin,
            },
        );
        self.x = x + glyph.width + 1;
        self.y = y;
        self.row_height = if glyph.height > row_height {
            glyph.height
        } else {
            row_height
        };
        assert(old(self)@.placed(*glyph)->Some_0 =~= self@);
        Ok(())
    }

    pub fn pixels(&self) -> (pixels: &Vec<u8>)
        ensures
            pixels@ == self@.pixels,
    {
        &self.pixels
    }

    pub fn glyphs(&self) -> (glyphs: &Vec<AtlasGlyph>)
        ensures
            glyphs@ == self@.glyphs,
    {
        &self.glyphs
    }
}

fn draw(pixels: &mut Vec<u8>, x: u32, y: u32, glyph: &GlyphBitmap)
    requires
        old(pixels)@.len() == 65_536,
        y + glyph.height + 1 <= 128,
        glyph.pixels@.len() == glyph.width * glyph.height,
        glyph.height > 0 ==> (y + glyph.height - 1) * 512 + x + glyph.width <= 65_536,
    ensures
        final(pixels)@ == drawn(
            old(pixels)@,
            x as int,
            y as int,
            glyph.width as int,
            glyph.pixels@,
            glyph.height as int,
        ),
        final(pixels)@.len() == 65_536,
{
    let ghost before = pixels@;
    let size: usize = glyph.pixels.len();
    let mut row: u32 = 0;
    while row < glyph.height
        invariant
            row <= glyph.height,
            y + glyph.height + 1 <= 128,
            pixels@.len() == 65_536,
            glyph.pixels@.len() == glyph.width * glyph.height,
            glyph.pixels@.len() == size,
            (y + glyph.height - 1) * 512 + x + glyph.width <= 65_536 || glyph.height == 0,
            pixels@ == drawn(
                before,
                x as int,
                y as int,
                glyph.width as int,
                glyph.pixels@,
                row as int,
            ),
        decreases glyph.height - row,
    {
        proof {
            lemma_rows(glyph.width as int, row as int, glyph.height as int);
        }
        let source: usize = row as usize * glyph.width as usize;
        let destination: usize = (y as usize + row as usize) * 512 + x as usize;
        let width: usize = glyph.width as usize;
        let ghost line = glyph.pixels@.subrange(source as int, source + width);
        let ghost start = pixels@;
        let mut column: usize = 0;
        while column < width
            invariant
                column <= width,
                pixels@.len() == 65_536,
                start.len() == 65_536,
                destination + width <= 65_536,
                source + width <= size,
                size == glyph.pixels@.len(),
                line == glyph.pixels@.subrange(source as int, source + width),
                pixels@ == overwritten(start, destination as int, line.take(column as int)),
            decreases width - column,
        {
            pixels.set(destination + column, glyph.pixels[source + column]);
            column = column + 1;
            assert(pixels@ =~= overwritten(start, destination as int, line.take(column as int)));
        }
        assert(line.take(width as int) =~= line);
        row = row + 1;
        assert(pixels@ =~= drawn(
            before,
            x as int,
            y as int,
            glyph.width as int,
            glyph.pixels@,
            row as int,
        ));
    }
}

/// The rows of a picture lie one behind the other.
proof fn lemma_rows(width: int, row: int, height: int)
    requires
        0 <= width,
        0 <= row < height,
    ensures
        0 <= row * width,
        (row + 1) * width == row * width + width,
        (row + 1) * width <= width * height,
{
    assert(0 <= row * width && (row + 1) * width == row * width + width && (row + 1) * width <= width
        * height) by (nonlinear_arith)
        requires
            0 <= width,
            0 <= row < height,
    ;
}

/// The image of so many glyphs, where they fit.
pub open spec fn built(glyphs: Seq<GlyphBitmap>) -> Option<AtlasModel>
    decreases glyphs.len(),
{
    if glyphs.len() == 0 {
        Some(AtlasModel::empty())
    } else {
        match built(glyphs.drop_last()) {
            Some(atlas) => atlas.placed(glyphs.last()),
            None => None,
        }
    }
}

/// Each glyph can be drawn when its turn comes.
pub open spec fn can_build(glyphs: Seq<GlyphBitmap>) -> bool {
    forall|count: int|
        #![trigger glyphs[count]]
        0 <= count < glyphs.len() ==> (built(glyphs.take(count)) matches Some(atlas)
            ==> atlas.can_draw(glyphs[count]))
}

/// Packs glyphs into one image.
pub fn build_atlas(glyphs: &Vec<GlyphBitmap>) -> (atlas: Result<GlyphAtlas, AtlasFull>)
    requires
        can_build(glyphs@),
    ensures
        match atlas {
            Ok(atlas) => atlas.well_formed() && built(glyphs@) == Some(atlas@),
            Err(_) => built(glyphs@) is None,
        },
{
    let mut atlas = GlyphAtlas::new();
    let mut index: usize = 0;
    assert(glyphs@.take(0) =~= Seq::empty());
    while index < glyphs.len()
        invariant
            index <= glyphs@.len(),
            can_build(glyphs@),
            atlas.well_formed(),
            built(glyphs@.take(index as int)) == Some(atlas@),
        decreases glyphs@.len() - index,
    {
        assert(atlas@.can_draw(glyphs@[index as int]));
        assert(glyphs@.take(index + 1).drop_last() =~= glyphs@.take(index as int));
        if atlas.place(&glyphs[index]).is_err() {
            proof {
                lemma_built_prefix(glyphs@, index + 1);
            }
            return Err(AtlasFull);
        }
        index = index + 1;
    }
    assert(glyphs@.take(index as int) =~= glyphs@);
    Ok(atlas)
}

/// Where some of the first glyphs do not fit, all of them do not.
proof fn lemma_built_prefix(glyphs: Seq<GlyphBitmap>, count: int)
    requires
        0 <= count <= glyphs.len(),
        built(glyphs.take(count)) is None,
    ensures
        built(glyphs) is None,
    decreases glyphs.len(),
{
    if count < glyphs.len() {
        assert(glyphs.drop_last().take(count) =~= glyphs.take(count));
        lemma_built_prefix(glyphs.drop_last(), count);
    } else {
        assert(glyphs.take(count) =~= glyphs);
    }
}

/// Pictures that are whole and narrower than the image.
pub open spec fn are_pictures(glyphs: Seq<GlyphBitmap>) -> bool {
    forall|i: int|
        0 <= i < glyphs.len() ==> (#[trigger] glyphs[i]).width <= 510 && glyphs[i].pixels@.len()
            == glyphs[i].width * glyphs[i].height
}

/// The pixel at `px` and `py` belongs to a glyph or to the empty line behind it.
pub open spec fn covers(glyph: AtlasGlyph, px: int, py: int) -> bool {
    &&& glyph.x <= px <= glyph.x + glyph.width
    &&& glyph.y <= py <= glyph.y + glyph.height
}

/// The glyphs stand inside the image, none in the place of another, and all before
/// the place of the next.
pub open spec fn is_packed(atlas: AtlasModel) -> bool {
    &&& atlas.x <= 512
    &&& forall|i: int|
        0 <= i < atlas.glyphs.len() ==> {
            let glyph = #[trigger] atlas.glyphs[i];
            &&& 1 <= glyph.x
            &&& glyph.x + glyph.width + 1 <= 512
            &&& 1 <= glyph.y
            &&& glyph.y + glyph.height + 1 <= 128
            &&& {
                ||| glyph.y + glyph.height + 1 <= atlas.y
                ||| glyph.y == atlas.y && glyph.x + glyph.width + 1 <= atlas.x && glyph.height
                    <= atlas.row_height
            }
        }
    &&& forall|i: int, j: int, px: int, py: int|
        0 <= i < j < atlas.glyphs.len() && #[trigger] covers(atlas.glyphs[i], px, py)
            ==> !#[trigger] covers(atlas.glyphs[j], px, py)
}

/// Each glyph has the size and the pixels of its picture.
pub open spec fn shows(atlas: AtlasModel, glyphs: Seq<GlyphBitmap>) -> bool {
    &&& atlas.glyphs.len() == glyphs.len()
    &&& forall|i: int|
        0 <= i < glyphs.len() ==> (#[trigger] atlas.glyphs[i]).width == glyphs[i].width
            && atlas.glyphs[i].height == glyphs[i].height
    &&& forall|i: int, row: int, column: int|
        0 <= i < glyphs.len() && 0 <= row < glyphs[i].height && 0 <= column < glyphs[i].width
            ==> #[trigger] pixel_of(atlas, i, row, column) == picture_pixel(glyphs[i], row, column)
}

/// A pixel of a glyph in the image.
pub open spec fn pixel_of(atlas: AtlasModel, glyph: int, row: int, column: int) -> u8 {
    atlas.pixels[(atlas.glyphs[glyph].y + row) * 512 + atlas.glyphs[glyph].x + column]
}

pub open spec fn picture_pixel(glyph: GlyphBitmap, row: int, column: int) -> u8 {
    glyph.pixels@[row * glyph.width + column]
}

/// Pictures narrower than the image can always be drawn.
pub proof fn law_narrow_pictures_can_be_drawn(glyphs: Seq<GlyphBitmap>)
    requires
        are_pictures(glyphs),
    ensures
        can_build(glyphs),
{
    assert forall|count: int| #![trigger glyphs[count]] 0 <= count < glyphs.len() implies (built(
        glyphs.take(count),
    ) matches Some(atlas) ==> atlas.can_draw(glyphs[count])) by {
        if let Some(atlas) = built(glyphs.take(count)) {
            assert(are_pictures(glyphs.take(count)));
            lemma_packed(glyphs.take(count));
        }
    }
}

/// No two glyphs of an image overlap, not even with the empty line behind them, and
/// all stand inside it.
pub proof fn law_glyphs_do_not_overlap(glyphs: Seq<GlyphBitmap>)
    requires
        are_pictures(glyphs),
        built(glyphs) is Some,
    ensures
        is_packed(built(glyphs)->Some_0),
{
    lemma_packed(glyphs);
}

/// Every glyph of an image is its picture, whatever was added after it.
pub proof fn law_glyphs_keep_their_pictures(glyphs: Seq<GlyphBitmap>)
    requires
        are_pictures(glyphs),
        built(glyphs) is Some,
    ensures
        shows(built(glyphs)->Some_0, glyphs),
{
    lemma_packed(glyphs);
}

proof fn lemma_packed(glyphs: Seq<GlyphBitmap>)
    requires
        are_pictures(glyphs),
        built(glyphs) is Some,
    ensures
        built(glyphs)->Some_0.well_formed(),
        is_packed(built(glyphs)->Some_0),
        shows(built(glyphs)->Some_0, glyphs),
    decreases glyphs.len(),
{
    if glyphs.len() > 0 {
        let before = glyphs.drop_last();
        assert(are_pictures(before));
        lemma_packed(before);
        lemma_placed(built(before)->Some_0, before, glyphs.last());
        assert(before.push(glyphs.last()) =~= glyphs);
    }
}

proof fn lemma_placed(atlas: AtlasModel, before: Seq<GlyphBitmap>, glyph: GlyphBitmap)
    requires
        atlas.well_formed(),
        is_packed(atlas),
        shows(atlas, before),
        glyph.width <= 510,
        glyph.pixels@.len() == glyph.width * glyph.height,
        atlas.placed(glyph) is Some,
    ensures
        atlas.placed(glyph)->Some_0.well_formed(),
        is_packed(atlas.placed(glyph)->Some_0),
        shows(atlas.placed(glyph)->Some_0, before.push(glyph)),
{
    let row = atlas.row_for(glyph.width as int);
    let after = atlas.placed(glyph)->Some_0;
    let count = atlas.glyphs.len();
    assert(glyph.height * glyph.width == glyph.width * glyph.height) by (nonlinear_arith);
    lemma_drawn(
        atlas.pixels,
        row.x,
        row.y,
        glyph.width as int,
        glyph.pixels@,
        glyph.height as int,
    );
    assert forall|i: int, j: int, px: int, py: int|
        0 <= i < j < after.glyphs.len() && #[trigger] covers(
            after.glyphs[i],
            px,
            py,
        ) implies !#[trigger] covers(after.glyphs[j], px, py) by {
        if j < count {
            assert(covers(atlas.glyphs[i], px, py));
        } else {
            assert(after.glyphs[i] == atlas.glyphs[i]);
        }
    }
    let all = before.push(glyph);
    assert forall|i: int, r: int, c: int|
        0 <= i < all.len() && 0 <= r < all[i].height && 0 <= c < all[i].width implies #[trigger] pixel_of(
        after,
        i,
        r,
        c,
    ) == picture_pixel(all[i], r, c) by {
        if i < count {
            let other = atlas.glyphs[i];
            assert(after.glyphs[i] == other);
            assert(pixel_of(atlas, i, r, c) == picture_pixel(before[i], r, c));
            let px = other.x + c;
            let py = other.y + r;
            assert(!(row.x <= px < row.x + glyph.width && row.y <= py < row.y + glyph.height));
            assert(after.pixels[py * 512 + px] == atlas.pixels[py * 512 + px]);
        } else {
            let px = row.x + c;
            let py = row.y + r;
            assert(after.pixels[py * 512 + px] == glyph.pixels@[(py - row.y) * glyph.width + px
                - row.x]);
        }
    }
}

/// Drawing a picture that stands inside the image sets its pixels and no others.
proof fn lemma_drawn(pixels: Seq<u8>, x: int, y: int, width: int, picture: Seq<u8>, rows: int)
    requires
        pixels.len() == 65_536,
        0 <= x,
        0 <= width,
        x + width <= 512,
        0 <= y,
        0 <= rows,
        y + rows <= 128,
        rows * width <= picture.len(),
    ensures
        drawn(pixels, x, y, width, picture, rows).len() == 65_536,
        forall|px: int, py: int|
            0 <= px < 512 && 0 <= py < 128 ==> #[trigger] drawn(
                pixels,
                x,
                y,
                width,
                picture,
                rows,
            )[py * 512 + px] == if x <= px < x + width && y <= py < y + rows {
                picture[(py - y) * width + px - x]
            } else {
                pixels[py * 512 + px]
            },
    decreases rows,
{
    if rows > 0 {
        lemma_rows(width, rows - 1, rows);
        assert(rows * width == width * rows) by (nonlinear_arith);
        lemma_drawn(pixels, x, y, width, picture, rows - 1);
        let inner = drawn(pixels, x, y, width, picture, rows - 1);
        let line = picture.subrange((rows - 1) * width, rows * width);
        let after = drawn(pixels, x, y, width, picture, rows);
        assert(line.len() == width);
        assert forall|px: int, py: int| 0 <= px < 512 && 0 <= py < 128 implies #[trigger] after[py
            * 512 + px] == if x <= px < x + width && y <= py < y + rows {
            picture[(py - y) * width + px - x]
        } else {
            pixels[py * 512 + px]
        } by {
            let place = py * 512 + px;
            let start = (y + rows - 1) * 512 + x;
            assert(inner[py * 512 + px] == if x <= px < x + width && y <= py < y + rows - 1 {
                picture[(py - y) * width + px - x]
            } else {
                pixels[py * 512 + px]
            });
            if py == y + rows - 1 {
                assert((py - y) * width == (rows - 1) * width);
            }
        }
    }
}

/// Where a glyph is put: right of the one before it with a gap, or at the start
/// of a new row below the highest of the old one where the row is full. Its
/// character and its place in a line are kept.
pub proof fn law_where_a_glyph_is_put(atlas: AtlasModel, glyph: GlyphBitmap)
    requires
        atlas.well_formed(),
        atlas.x <= 512,
    ensures
        atlas.placed(glyph) matches Some(after) ==> {
            let put = after.glyphs.last();
            let fits = atlas.x + glyph.width + 1 <= 512;
            &&& after.glyphs.len() == atlas.glyphs.len() + 1
            &&& after.glyphs.drop_last() == atlas.glyphs
            &&& put.character == glyph.character
            &&& put.width == glyph.width
            &&& put.height == glyph.height
            &&& put.xmin == glyph.xmin
            &&& put.ymin == glyph.ymin
            &&& fits ==> put.x == atlas.x && put.y == atlas.y
            &&& !fits ==> put.x == 1 && put.y == atlas.y + atlas.row_height + 1
            &&& after.x == put.x + glyph.width + 1
            &&& after.y == put.y
            &&& after.row_height >= glyph.height
        },
        atlas.placed(glyph) is None <==> if atlas.x + glyph.width + 1 <= 512 {
            atlas.y + glyph.height + 1 > 128
        } else {
            atlas.y + atlas.row_height + 1 + glyph.height + 1 > 128
        },
{
}

} // verus!
