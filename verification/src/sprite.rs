//! Sprite sheets: their frames and pixels, and the store that finds them by
//! name or by position.

use vstd::prelude::*;
use vstd::string::StrSliceExecFns;

verus! {

/// A width and a height, in pixels.
#[derive(Clone, Copy, Debug, Default, PartialEq, Eq)]
pub struct WH {
    pub w: u32,
    pub h: u32,
}

/// A rectangle of pixels in a sheet's image.
#[derive(Clone, Copy, Debug, PartialEq, Eq)]
pub struct Xywh {
    pub x: u32,
    pub y: u32,
    pub w: u32,
    pub h: u32,
}

/// A pixel: red, green, blue, and how opaque it is.
#[derive(Clone, Copy, Debug, PartialEq, Eq)]
pub struct Rgba {
    pub r: u8,
    pub g: u8,
    pub b: u8,
    pub a: u8,
}

/// One frame of a sheet: where it lies in the image and how long it shows.
#[derive(Debug)]
pub struct SpriteSheetJSONFrame {
    pub filename: String,
    pub frame: Xywh,
    pub rotated: bool,
    pub trimmed: bool,
    pub sprite_source_size: Xywh,
    pub source_size: WH,
    pub duration: u32,
}

/// What a descriptor says of the sheet as a whole. `image` is the name of
/// the image file.
#[derive(Debug, Default)]
pub struct SpriteSheetJSONMeta {
    pub app: String,
    pub version: String,
    pub image: String,
    pub format: String,
    pub size: WH,
    pub scale: String,
}

/// A sheet's descriptor: its frames in order, and the image they refer to.
#[derive(Debug, Default)]
pub struct SpriteSheetJSON {
    pub frames: Vec<SpriteSheetJSONFrame>,
    pub meta: SpriteSheetJSONMeta,
}

/// A sheet that is ready for use: its descriptor and its pixels, row by row.
#[derive(Debug, Default)]
pub struct LoadedSprite {
    pub name: String,
    pub index: usize,
    pub data: SpriteSheetJSON,
    pub image: Vec<Vec<Rgba>>,
}

/// A descriptor with the decoded image it names: `width * height` pixels,
/// row by row, four bytes each (red, green, blue, alpha).
pub struct SheetSource {
    pub data: SpriteSheetJSON,
    pub width: u32,
    pub height: u32,
    pub pixels: Vec<u8>,
}

/// A sheet that cannot be loaded, or a lookup that found nothing.
#[derive(Debug)]
pub struct SpriteStoreError;

/// The sheets of the game, in the order in which they were loaded.
#[derive(Default)]
pub struct SpriteStore(pub Vec<LoadedSprite>);

/// The part of a file name before its last dot, if it has a dot.
pub open spec fn stem(s: Seq<char>) -> Option<Seq<char>>
    decreases s.len(),
{
    if s.len() == 0 {
        None
    } else if s.last() == '.' {
        Some(s.drop_last())
    } else {
        stem(s.drop_last())
    }
}

/// The pixel at column `x` of row `y` in an image of the given width.
pub open spec fn pixel_at(bytes: Seq<u8>, width: int, x: int, y: int) -> Rgba {
    let at = 4 * (y * width + x);
    Rgba { r: bytes[at], g: bytes[at + 1], b: bytes[at + 2], a: bytes[at + 3] }
}

/// `rows` holds the pixels of `bytes`, one inner vector per image row.
pub open spec fn rows_hold(rows: Seq<Vec<Rgba>>, bytes: Seq<u8>, width: int, height: int) -> bool {
    &&& rows.len() == height
    &&& forall|y: int| 0 <= y < height ==> (#[trigger] rows[y])@.len() == width
    &&& forall|y: int, x: int|
        0 <= y < height && 0 <= x < width ==> #[trigger] rows[y]@[x] == pixel_at(
            bytes,
            width,
            x,
            y,
        )
}

/// The rows of the frame are rows of an image of the given size, and
/// unless it has no rows, so are its columns.
pub open spec fn frame_fits(f: Xywh, width: int, height: int) -> bool {
    f.y + f.h <= height && (f.h > 0 ==> f.x + f.w <= width)
}

/// Every frame lies inside an image of the given size.
pub open spec fn frames_fit(frames: Seq<SpriteSheetJSONFrame>, width: int, height: int) -> bool {
    forall|i: int| 0 <= i < frames.len() ==> frame_fits((#[trigger] frames[i]).frame, width, height)
}

impl SheetSource {
    /// What makes a source loadable: the image has the stated size, and its
    /// file name has a stem.
    pub open spec fn loadable(&self) -> bool {
        &&& self.pixels@.len() == 4 * self.width * self.height
        &&& stem(self.data.meta.image@) is Some
    }

    /// The descriptor has at least one frame, and each lies inside the
    /// image.
    pub open spec fn framed(&self) -> bool {
        &&& self.data.frames@.len() > 0
        &&& frames_fit(self.data.frames@, self.width as int, self.height as int)
    }
}

impl LoadedSprite {
    /// The number of frames of the sheet.
    pub open spec fn frame_count(&self) -> nat {
        self.data.frames@.len()
    }

    /// The number of pixels in each row of the image.
    pub open spec fn image_width(&self) -> nat {
        if self.image@.len() == 0 {
            0
        } else {
            self.image@[0]@.len()
        }
    }

    /// Every row of the image has the same number of pixels.
    pub open spec fn rectangular(&self) -> bool {
        forall|y: int|
            0 <= y < self.image@.len() ==> (#[trigger] self.image@[y])@.len() == self.image_width()
    }

    /// The sheet can be drawn: the image is a rectangle, and the sheet has at
    /// least one frame, each inside the image.
    pub open spec fn wf(&self) -> bool {
        &&& self.rectangular()
        &&& self.data.frames@.len() > 0
        &&& frames_fit(self.data.frames@, self.image_width() as int, self.image@.len() as int)
    }

    /// The sheet that loading `source` at position `index` gives.
    pub open spec fn loaded_from(&self, source: SheetSource, index: usize) -> bool {
        &&& Some(self.name@) == stem(source.data.meta.image@)
        &&& self.index == index
        &&& self.data == source.data
        &&& rows_hold(self.image@, source.pixels@, source.width as int, source.height as int)
    }
}

/// The frames of every source lie inside its image.
pub open spec fn all_framed(sheets: Seq<SheetSource>) -> bool {
    forall|i: int| 0 <= i < sheets.len() ==> (#[trigger] sheets[i]).framed()
}

impl LoadedSprite {
    /// Tells whether the sheet can be drawn.
    pub fn is_wf(&self) -> (yes: bool)
        ensures
            yes == self.wf(),
    {
        if self.data.frames.len() == 0 {
            return false;
        }
        let height: usize = self.image.len();
        let width: usize = if height == 0 {
            0
        } else {
            self.image[0].len()
        };
        let mut y: usize = 0;
        while y < height
            invariant
                y <= height,
                height == self.image@.len(),
                width == self.image_width(),
                forall|k: int| 0 <= k < y ==> (#[trigger] self.image@[k])@.len() == width,
            decreases height - y,
        {
            if self.image[y].len() != width {
                return false;
            }
            y = y + 1;
        }
        frames_within(&self.data.frames, width as u64, height as u64)
    }
}

/// Cuts the name of a sheet out of the name of its image file.
pub fn sheet_name(image_file: &str) -> (name: Option<String>)
    ensures
        match name {
            Some(n) => stem(image_file@) == Some(n@),
            None => stem(image_file@) is None,
        },
{
    let len: usize = image_file.unicode_len();
    let mut end: usize = len;
    assert(image_file@.subrange(0, len as int) =~= image_file@);
    while end > 0
        invariant
            end <= len,
            len == image_file@.len(),
            stem(image_file@) == stem(image_file@.subrange(0, end as int)),
        decreases end,
    {
        let ghost head = image_file@.subrange(0, end as int);
        assert(head.last() == image_file@[end - 1]);
        assert(head.drop_last() =~= image_file@.subrange(0, end - 1));
        if image_file.get_char(end - 1) == '.' {
            let cut: &str = image_file.substring_char(0, end - 1);
            return Some(cut.to_owned());
        }
        end = end - 1;
    }
    None
}

/// Arranges the bytes of a decoded image as rows of pixels. Gives nothing
/// if the number of bytes is not that of a `width` by `height` image.
pub fn pixel_rows(width: u32, height: u32, bytes: &Vec<u8>) -> (rows: Option<Vec<Vec<Rgba>>>)
    ensures
        rows is Some <==> bytes@.len() == 4 * width * height,
        match rows {
            Some(image) => rows_hold(image@, bytes@, width as int, height as int),
            None => true,
        },
{
    assert(4 * width * height <= u128::MAX) by (nonlinear_arith)
        requires
            width <= u32::MAX,
            height <= u32::MAX,
    ;
    let total: u128 = 4 * (width as u128) * (height as u128);
    if bytes.len() as u128 != total {
        return None;
    }
    let mut image: Vec<Vec<Rgba>> = Vec::new();
    let mut at: usize = 0;
    let mut y: u32 = 0;
    while y < height
        invariant
            y <= height,
            bytes@.len() == 4 * width * height,
            bytes@.len() <= usize::MAX,
            at == 4 * (y * width),
            rows_hold(image@, bytes@, width as int, y as int),
        decreases height - y,
    {
        let mut row: Vec<Rgba> = Vec::new();
        let mut x: u32 = 0;
        while x < width
            invariant
                x <= width,
                y < height,
                bytes@.len() == 4 * width * height,
                bytes@.len() <= usize::MAX,
                at == 4 * (y * width + x),
                row@.len() == x,
                forall|k: int| 0 <= k < x ==> #[trigger] row@[k] == pixel_at(bytes@, width as int, k, y as int),
            decreases width - x,
        {
            assert(4 * (y * width + x) + 4 <= 4 * width * height) by (nonlinear_arith)
                requires
                    0 <= x < width,
                    0 <= y < height,
            ;
            row.push(Rgba { r: bytes[at], g: bytes[at + 1], b: bytes[at + 2], a: bytes[at + 3] });
            at = at + 4;
            x = x + 1;
        }
        assert(4 * (y * width + width) == 4 * ((y + 1) * width)) by (nonlinear_arith);
        image.push(row);
        y = y + 1;
    }
    Some(image)
}

/// Tells whether every frame of a descriptor lies inside an image of the
/// given size.
pub fn frames_inside(frames: &Vec<SpriteSheetJSONFrame>, width: u32, height: u32) -> (inside: bool)
    ensures
        inside == frames_fit(frames@, width as int, height as int),
{
    frames_within(frames, width as u64, height as u64)
}

/// Tells whether every frame of a descriptor lies inside an image of the
/// given size, however large.
pub fn frames_within(frames: &Vec<SpriteSheetJSONFrame>, width: u64, height: u64) -> (inside: bool)
    ensures
        inside == frames_fit(frames@, width as int, height as int),
{
    let mut i: usize = 0;
    while i < frames.len()
        invariant
            i <= frames.len(),
            frames_fit(frames@.subrange(0, i as int), width as int, height as int),
        decreases frames.len() - i,
    {
        let f: Xywh = frames[i].frame;
        if f.y as u64 + f.h as u64 > height || (f.h > 0 && f.x as u64 + f.w as u64 > width) {
            return false;
        }
        assert forall|k: int| 0 <= k < i + 1 implies frame_fits(
            (#[trigger] frames@.subrange(0, i + 1)[k]).frame,
            width as int,
            height as int,
        ) by {
            if k < i {
                assert(frames@.subrange(0, i as int)[k] == frames@[k]);
            }
        }
        i = i + 1;
    }
    assert(frames@.subrange(0, i as int) =~= frames@);
    true
}

/// Builds the sheet that stands at position `index` of a store. Fails if
/// the image has not the stated size or if its file name has no stem. The
/// sheet can be drawn if its frames lie inside the image.
pub fn load_sprite(source: SheetSource, index: usize) -> (loaded: Result<LoadedSprite, SpriteStoreError>)
    ensures
        loaded is Ok <==> source.loadable(),
        match loaded {
            Ok(sprite) => sprite.loaded_from(source, index) && sprite.rectangular() && (sprite.wf()
                <==> source.framed()),
            Err(_) => true,
        },
{
    let image: Vec<Vec<Rgba>> = match pixel_rows(source.width, source.height, &source.pixels) {
        Some(image) => image,
        None => {
            return Err(SpriteStoreError);
        },
    };
    let name: String = match sheet_name(source.data.meta.image.as_str()) {
        Some(name) => name,
        None => {
            return Err(SpriteStoreError);
        },
    };
    let sprite = LoadedSprite { name, index, data: source.data, image };
    proof {
        if source.height > 0 {
            assert(sprite.image_width() == source.width);
        }
        assert(sprite.wf() <==> source.framed()) by {
            if sprite.data.frames@.len() > 0 {
                assert forall|i: int| 0 <= i < sprite.data.frames@.len() implies (frame_fits(
                    (#[trigger] sprite.data.frames@[i]).frame,
                    sprite.image_width() as int,
                    sprite.image@.len() as int,
                ) <==> frame_fits(
                    sprite.data.frames@[i].frame,
                    source.width as int,
                    source.height as int,
                )) by {}
            }
        }
    }
    Ok(sprite)
}

impl SpriteStore {
    /// Every sheet can be drawn and knows its own position in the store.
    pub open spec fn wf(&self) -> bool {
        forall|i: int|
            0 <= i < self.0@.len() ==> (#[trigger] self.0@[i]).wf() && self.0@[i].index == i
    }

    /// Every sheet knows its own position in the store.
    pub open spec fn indexed(&self) -> bool {
        forall|i: int| 0 <= i < self.0@.len() ==> (#[trigger] self.0@[i]).index == i
    }

    /// Tells whether every sheet can be drawn and knows its own position in
    /// the store.
    pub fn is_wf(&self) -> (yes: bool)
        ensures
            yes == self.wf(),
    {
        let mut i: usize = 0;
        while i < self.0.len()
            invariant
                i <= self.0@.len(),
                forall|j: int| 0 <= j < i ==> (#[trigger] self.0@[j]).wf() && self.0@[j].index == j,
            decreases self.0@.len() - i,
        {
            if self.0[i].index != i || !self.0[i].is_wf() {
                return false;
            }
            i = i + 1;
        }
        true
    }

    /// `k` is the first position that holds a sheet called `name`.
    pub open spec fn first_named(&self, name: Seq<char>, k: int) -> bool {
        &&& 0 <= k < self.0@.len()
        &&& self.0@[k].name@ == name
        &&& forall|j: int| 0 <= j < k ==> (#[trigger] self.0@[j]).name@ != name
    }

    /// The position of the first sheet called `name`.
    pub open spec fn position_of(&self, name: Seq<char>) -> Option<int> {
        if exists|k: int| self.first_named(name, k) {
            Some(choose|k: int| self.first_named(name, k))
        } else {
            None
        }
    }

    /// Where there is a first sheet called `name`, `position_of` is it.
    pub(crate) proof fn lemma_position_of(&self, name: Seq<char>, k: int)
        requires
            self.first_named(name, k),
        ensures
            self.position_of(name) == Some(k),
    {
        let other = choose|j: int| self.first_named(name, j);
        assert(self.first_named(name, other));
        if other < k {
            assert(self.0@[other].name@ != name);
        }
        if k < other {
            assert(self.0@[k].name@ != name);
        }
    }

    /// Where no sheet is called `name`, `position_of` finds none.
    pub(crate) proof fn lemma_position_of_none(&self, name: Seq<char>)
        requires
            forall|j: int| 0 <= j < self.0@.len() ==> (#[trigger] self.0@[j]).name@ != name,
        ensures
            self.position_of(name) is None,
    {
        if exists|k: int| self.first_named(name, k) {
            let k = choose|k: int| self.first_named(name, k);
            assert(self.0@[k].name@ != name);
        }
    }

    /// Loads the sources in order. Fails on the first that cannot be loaded.
    /// The store can be drawn from if the frames of every source lie inside
    /// its image.
    pub fn new(sheets: Vec<SheetSource>) -> (made: Result<SpriteStore, SpriteStoreError>)
        ensures
            made is Ok <==> forall|i: int| 0 <= i < sheets@.len() ==> (#[trigger] sheets@[i]).loadable(),
            match made {
                Ok(store) => {
                    &&& store.indexed()
                    &&& store.wf() <==> all_framed(sheets@)
                    &&& store.0@.len() == sheets@.len()
                    &&& forall|i: int|
                        0 <= i < sheets@.len() ==> (#[trigger] store.0@[i]).loaded_from(
                            sheets@[i],
                            i as usize,
                        )
                },
                Err(_) => true,
            },
    {
        let mut rest: Vec<SheetSource> = sheets;
        let mut store: SpriteStore = SpriteStore(Vec::new());
        while rest.len() > 0
            invariant
                store.0@.len() + rest@.len() == sheets@.len(),
                rest@ == sheets@.subrange(store.0@.len() as int, sheets@.len() as int),
                store.indexed(),
                forall|i: int|
                    0 <= i < store.0@.len() ==> ((#[trigger] store.0@[i]).wf()
                        <==> sheets@[i].framed()),
                forall|i: int| 0 <= i < store.0@.len() ==> (#[trigger] sheets@[i]).loadable(),
                forall|i: int|
                    0 <= i < store.0@.len() ==> (#[trigger] store.0@[i]).loaded_from(
                        sheets@[i],
                        i as usize,
                    ),
            decreases rest@.len(),
        {
            let index: usize = store.0.len();
            let source: SheetSource = rest.remove(0);
            assert(source == sheets@[index as int]);
            match load_sprite(source, index) {
                Ok(sprite) => {
                    store.0.push(sprite);
                },
                Err(_) => {
                    return Err(SpriteStoreError);
                },
            }
            assert(rest@ =~= sheets@.subrange(store.0@.len() as int, sheets@.len() as int));
        }
        proof {
            if store.wf() {
                assert forall|i: int| 0 <= i < sheets@.len() implies (#[trigger] sheets@[i]).framed() by {
                    assert(store.0@[i].wf());
                }
            }
            if all_framed(sheets@) {
                assert forall|i: int| 0 <= i < store.0@.len() implies (#[trigger] store.0@[i]).wf()
                    && store.0@[i].index == i by {
                    assert(sheets@[i].framed());
                }
            }
        }
        Ok(store)
    }

    /// The sheet at a position of the store.
    pub fn by_index(&self, index: usize) -> (found: Result<&LoadedSprite, SpriteStoreError>)
        ensures
            found is Ok <==> index < self.0@.len(),
            match found {
                Ok(sprite) => *sprite == self.0@[index as int],
                Err(_) => true,
            },
    {
        if self.0.len() == 0 || self.0.len() - 1 < index {
            return Err(SpriteStoreError);
        }
        Ok(&self.0[index])
    }

    /// The first sheet with the given name.
    pub fn by_name(&self, name: String) -> (found: Result<&LoadedSprite, SpriteStoreError>)
        ensures
            match found {
                Ok(sprite) => match self.position_of(name@) {
                    Some(k) => *sprite == self.0@[k],
                    None => false,
                },
                Err(_) => self.position_of(name@) is None,
            },
    {
        let mut i: usize = 0;
        while i < self.0.len()
            invariant
                i <= self.0@.len(),
                forall|j: int| 0 <= j < i ==> (#[trigger] self.0@[j]).name@ != name@,
            decreases self.0.len() - i,
        {
            if self.0[i].name == name {
                proof {
                    self.lemma_position_of(name@, i as int);
                }
                return Ok(&self.0[i]);
            }
            i = i + 1;
        }
        proof {
            self.lemma_position_of_none(name@);
        }
        Err(SpriteStoreError)
    }

    /// The `index` that the first sheet with the given name carries. In a
    /// well-formed store that is its position.
    pub fn index_by_name(&self, name: &str) -> (found: Result<usize, SpriteStoreError>)
        ensures
            match found {
                Ok(index) => match self.position_of(name@) {
                    Some(k) => index == self.0@[k].index,
                    None => false,
                },
                Err(_) => self.position_of(name@) is None,
            },
    {
        let wanted: String = name.to_owned();
        let mut i: usize = 0;
        while i < self.0.len()
            invariant
                i <= self.0@.len(),
                wanted@ == name@,
                forall|j: int| 0 <= j < i ==> (#[trigger] self.0@[j]).name@ != name@,
            decreases self.0.len() - i,
        {
            if self.0[i].name == wanted {
                proof {
                    self.lemma_position_of(name@, i as int);
                }
                return Ok(self.0[i].index);
            }
            i = i + 1;
        }
        proof {
            self.lemma_position_of_none(name@);
        }
        Err(SpriteStoreError)
    }
}

} // verus!
