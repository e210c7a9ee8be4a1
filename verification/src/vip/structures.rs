use vstd::prelude::*;
use crate::cpu::decode::sign_extend_spec;
use crate::vip::{
    BG_MAPS, CHARACTER_MIRROR, LEFT_COLUMN_TABLE, OBJECT_ATTRIBUTES, RIGHT_COLUMN_TABLE, Vip,
    WORLD_ATTRIBUTES,
};

verus! {

pub const CHARACTER_COUNT: u16 = 2048;
pub const CHARACTER_BYTES: u32 = 16;

pub const BG_MAP_CELLS: u16 = 4096;
pub const BG_MAP_BYTES: u32 = 8192;
pub const BG_MAP_SIDE: u16 = 64;

pub const OBJECT_COUNT: u16 = 1024;
pub const OBJECT_BYTES: u32 = 8;

pub const WORLD_COUNT: u8 = 32;
pub const WORLD_BYTES: u32 = 32;

pub const COLUMN_ENTRIES: u16 = 256;

pub const HBIAS_BYTES: u32 = 4;
pub const AFFINE_BYTES: u32 = 16;

pub const SOURCE_FRACTION_BITS: u32 = 3;
pub const DIRECTION_FRACTION_BITS: u32 = 9;

/// The two's-complement value of the low `2 * half` values of a halfword field.
fn sign_extend(value: u16, half: u16) -> (r: i32)
    requires
        half == 512 || half == 4096 || half == 16384 || half == 32768,
    ensures
        r == sign_extend_spec(value as int % (2 * half as int), half as int),
{
    let field = value as u32 % (2 * half as u32);
    if field < half as u32 {
        field as i32
    } else {
        field as i32 - 2 * half as i32
    }
}

/// An 8x8 character: eight rows of eight two-bit pixels.
#[derive(Debug, Clone, Copy, PartialEq, Eq)]
pub struct Character {
    pub rows: [u16; 8],
}

/// Address of a character through the linear character mirror.
pub open spec fn character_address(index: u16) -> u32 {
    (CHARACTER_MIRROR + (index % CHARACTER_COUNT) * CHARACTER_BYTES) as u32
}

impl Character {
    /// The pixel in column `x`, row `y` (both taken modulo eight); low bits sit to the left.
    pub open spec fn pixel_spec(&self, x: u8, y: u8) -> u8 {
        ((self.rows[(y % 8) as int] >> (((x % 8) * 2) as u16)) % 4) as u8
    }

    /// Reads character `index` (modulo 2048) through the linear mirror.
    pub fn read(vip: &Vip, index: u16) -> (r: Character)
        requires
            vip.wf(),
        ensures
            forall|row: int| 0 <= row < 8 ==> r.rows[row] == vip@.read_u16((character_address(index) + row * 2) as u32),
    {
        let base = CHARACTER_MIRROR + (index % CHARACTER_COUNT) as u32 * CHARACTER_BYTES;
        let mut rows = [0u16; 8];
        let mut row: usize = 0;
        while row < 8
            invariant
                row <= 8,
                base == character_address(index),
                vip.wf(),
                forall|j: int| 0 <= j < row ==> rows[j] == vip@.read_u16((base + j * 2) as u32),
            decreases 8 - row,
        {
            rows[row] = vip.read_u16(base + row as u32 * 2);
            row = row + 1;
        }
        Character { rows }
    }

    // low order bits sit to the left within a row
    /// The pixel in column `x`, row `y`.
    pub fn pixel(&self, x: u8, y: u8) -> (r: u8)
        ensures
            r == self.pixel_spec(x, y),
            r < 4,
    {
        let row = self.rows[(y % 8) as usize];
        ((row >> (((x % 8) * 2) as u16)) % 4) as u8
    }

    /// The pixel as drawn with the given flips.
    pub fn flipped_pixel(&self, x: u8, y: u8, horizontal: bool, vertical: bool) -> (r: u8)
        ensures
            r == self.pixel_spec(
                if horizontal { (7 - x % 8) as u8 } else { x % 8 },
                if vertical { (7 - y % 8) as u8 } else { y % 8 },
            ),
    {
        let x = if horizontal { 7 - (x % 8) } else { x % 8 };
        let y = if vertical { 7 - (y % 8) } else { y % 8 };
        self.pixel(x, y)
    }
}

/// One background map cell.
#[derive(Debug, Clone, Copy, PartialEq, Eq)]
pub struct Cell {
    pub character: u16,
    pub palette: u8,
    pub horizontal_flip: bool,
    pub vertical_flip: bool,
}

impl Cell {
    pub open spec fn decode_spec(raw: u16) -> Cell {
        Cell {
            character: raw % 2048,
            palette: ((raw / 16384) % 4) as u8,
            horizontal_flip: (raw / 8192) % 2 == 1,
            vertical_flip: (raw / 4096) % 2 == 1,
        }
    }

    pub open spec fn address_spec(map: u16, cell: u16) -> u32 {
        (BG_MAPS + (map % 16) * BG_MAP_BYTES + (cell % BG_MAP_CELLS) * 2) as u32
    }

    /// Splits a map cell into character, palette and flips.
    pub fn decode(raw: u16) -> (r: Cell)
        ensures
            r == Cell::decode_spec(raw),
    {
        Cell {
            character: raw % 2048,
            palette: ((raw / 16384) % 4) as u8,
            horizontal_flip: (raw / 8192) % 2 == 1,
            vertical_flip: (raw / 4096) % 2 == 1,
        }
    }

    /// The address of cell `cell` of background map `map`; maps are eight kilobytes apart.
    pub fn address(map: u16, cell: u16) -> (r: u32)
        ensures
            r == Cell::address_spec(map, cell),
    {
        BG_MAPS + (map % 16) as u32 * BG_MAP_BYTES + (cell % BG_MAP_CELLS) as u32 * 2
    }

    /// Reads one map cell.
    pub fn read(vip: &Vip, map: u16, cell: u16) -> (r: Cell)
        requires
            vip.wf(),
        ensures
            r == Cell::decode_spec(vip@.read_u16(Cell::address_spec(map, cell))),
    {
        Cell::decode(vip.read_u16(Cell::address(map, cell)))
    }
}

/// An object attribute entry.
#[derive(Debug, Clone, Copy, PartialEq, Eq)]
pub struct Object {
    pub x: i32,
    pub y: i32,
    pub parallax: i32,
    pub character: u16,
    pub palette: u8,
    pub left: bool,
    pub right: bool,
    pub horizontal_flip: bool,
    pub vertical_flip: bool,
}

// jy is not two's complement, it reaches +224 upward and only wraps negative at the very top
pub open spec fn object_y_spec(raw: u16) -> int {
    if raw >= 0xF8 { raw - 256 } else { raw as int }
}

fn decode_object_y(raw: u16) -> (r: i32)
    requires
        raw < 256,
    ensures
        r == object_y_spec(raw),
{
    if raw >= 0xF8 {
        raw as i32 - 256
    } else {
        raw as i32
    }
}

impl Object {
    pub open spec fn decode_spec(words: [u16; 4]) -> Object {
        Object {
            x: sign_extend_spec(words[0] as int % 1024, 512) as i32,
            left: (words[1] / 32768) % 2 == 1,
            right: (words[1] / 16384) % 2 == 1,
            parallax: sign_extend_spec(words[1] as int % 1024, 512) as i32,
            y: object_y_spec(words[2] % 256) as i32,
            palette: ((words[3] / 16384) % 4) as u8,
            horizontal_flip: (words[3] / 8192) % 2 == 1,
            vertical_flip: (words[3] / 4096) % 2 == 1,
            character: words[3] % 2048,
        }
    }

    pub open spec fn address_spec(index: u16) -> u32 {
        (OBJECT_ATTRIBUTES + (index % OBJECT_COUNT) * OBJECT_BYTES) as u32
    }

    /// Splits the four attribute halfwords into an object.
    pub fn decode(words: [u16; 4]) -> (r: Object)
        ensures
            r == Object::decode_spec(words),
    {
        Object {
            x: sign_extend(words[0], 512),
            left: (words[1] / 32768) % 2 == 1,
            right: (words[1] / 16384) % 2 == 1,
            parallax: sign_extend(words[1], 512),
            y: decode_object_y(words[2] % 256),
            palette: ((words[3] / 16384) % 4) as u8,
            horizontal_flip: (words[3] / 8192) % 2 == 1,
            vertical_flip: (words[3] / 4096) % 2 == 1,
            character: words[3] % 2048,
        }
    }

    /// The address of object `index` (modulo 1024); entries are eight bytes apart.
    pub fn address(index: u16) -> (r: u32)
        ensures
            r == Object::address_spec(index),
    {
        OBJECT_ATTRIBUTES + (index % OBJECT_COUNT) as u32 * OBJECT_BYTES
    }

    /// Reads object `index`.
    pub fn read(vip: &Vip, index: u16) -> (r: Object)
        requires
            vip.wf(),
        ensures
            ({
                let base = Object::address_spec(index);
                r == Object::decode_spec([
                    vip@.read_u16(base),
                    vip@.read_u16((base + 2) as u32),
                    vip@.read_u16((base + 4) as u32),
                    vip@.read_u16((base + 6) as u32),
                ])
            }),
    {
        let base = Object::address(index);
        Object::decode([
            vip.read_u16(base),
            vip.read_u16(base + 2),
            vip.read_u16(base + 4),
            vip.read_u16(base + 6),
        ])
    }

    /// The left eye's column: parallax moves the eyes apart.
    pub fn left_x(&self) -> (r: i32)
        requires
            i32::MIN <= self.x - self.parallax <= i32::MAX,
        ensures
            r == self.x - self.parallax,
    {
        self.x - self.parallax
    }

    /// The right eye's column.
    pub fn right_x(&self) -> (r: i32)
        requires
            i32::MIN <= self.x + self.parallax <= i32::MAX,
        ensures
            r == self.x + self.parallax,
    {
        self.x + self.parallax
    }
}

/// How a world is drawn.
#[derive(Debug, Clone, Copy, PartialEq, Eq, Structural)]
pub enum WorldKind {
    Normal,
    HBias,
    Affine,
    Object,
}

/// A world attribute entry.
#[derive(Debug, Clone, Copy, PartialEq, Eq)]
pub struct World {
    pub kind: WorldKind,
    pub left: bool,
    pub right: bool,
    pub end: bool,
    pub overplane: bool,
    pub map_base: u16,
    pub map_width_power: u8,
    pub map_height_power: u8,
    pub destination_x: i32,
    pub destination_y: i32,
    pub destination_parallax: i32,
    pub source_x: i32,
    pub source_y: i32,
    pub source_parallax: i32,
    pub raw_width: u16,
    pub raw_height: u16,
    pub param_base: u16,
    pub overplane_character: u16,
}

pub open spec fn world_kind_spec(bgm: u16) -> WorldKind {
    let b = bgm % 4;
    if b == 0 { WorldKind::Normal }
    else if b == 1 { WorldKind::HBias }
    else if b == 2 { WorldKind::Affine }
    else { WorldKind::Object }
}

impl World {
    pub open spec fn decode_spec(words: [u16; 16]) -> World {
        let header = words[0];
        World {
            kind: world_kind_spec(header / 4096),
            left: (header / 32768) % 2 == 1,
            right: (header / 16384) % 2 == 1,
            map_width_power: ((header / 1024) % 4) as u8,
            map_height_power: ((header / 256) % 4) as u8,
            overplane: (header / 128) % 2 == 1,
            end: (header / 64) % 2 == 1,
            map_base: header % 16,
            destination_x: sign_extend_spec(words[1] as int % 1024, 512) as i32,
            destination_parallax: sign_extend_spec(words[2] as int % 1024, 512) as i32,
            destination_y: sign_extend_spec(words[3] as int, 32768) as i32,
            source_x: sign_extend_spec(words[4] as int % 8192, 4096) as i32,
            source_parallax: sign_extend_spec(words[5] as int % 32768, 16384) as i32,
            source_y: sign_extend_spec(words[6] as int % 8192, 4096) as i32,
            raw_width: words[7] % 8192,
            raw_height: words[8],
            param_base: words[9],
            overplane_character: words[10],
        }
    }

    pub open spec fn address_spec(index: u8) -> u32 {
        (WORLD_ATTRIBUTES + (index % WORLD_COUNT) * WORLD_BYTES) as u32
    }

    pub open spec fn width_spec(&self) -> int {
        if self.kind == WorldKind::Affine {
            self.raw_width as int % 1024 + 1
        } else {
            sign_extend_spec(self.raw_width as int % 8192, 4096) + 1
        }
    }

    pub open spec fn height_spec(&self) -> int {
        let height = sign_extend_spec(self.raw_height as int, 32768) + 1;
        if (self.kind == WorldKind::Normal || self.kind == WorldKind::HBias) && height < 8 {
            8
        } else {
            height
        }
    }

    pub open spec fn map_count_spec(&self) -> int {
        vstd::arithmetic::power2::pow2((self.map_width_power + self.map_height_power) as nat) as int
    }

    /// Splits the sixteen attribute halfwords into a world.
    pub fn decode(words: [u16; 16]) -> (r: World)
        ensures
            r == World::decode_spec(words),
    {
        let header = words[0];
        let bgm = (header / 4096) % 4;
        let kind = if bgm == 0 {
            WorldKind::Normal
        } else if bgm == 1 {
            WorldKind::HBias
        } else if bgm == 2 {
            WorldKind::Affine
        } else {
            WorldKind::Object
        };

        World {
            kind,
            left: (header / 32768) % 2 == 1,
            right: (header / 16384) % 2 == 1,
            map_width_power: ((header / 1024) % 4) as u8,
            map_height_power: ((header / 256) % 4) as u8,
            overplane: (header / 128) % 2 == 1,
            end: (header / 64) % 2 == 1,
            map_base: header % 16,
            destination_x: sign_extend(words[1], 512),
            destination_parallax: sign_extend(words[2], 512),
            destination_y: sign_extend(words[3], 32768),
            source_x: sign_extend(words[4], 4096),
            source_parallax: sign_extend(words[5], 16384),
            source_y: sign_extend(words[6], 4096),
            raw_width: words[7] % 8192,
            raw_height: words[8],
            param_base: words[9],
            overplane_character: words[10],
        }
    }

    /// The address of world `index` (modulo 32); entries are 32 bytes apart.
    pub fn address(index: u8) -> (r: u32)
        ensures
            r == World::address_spec(index),
    {
        WORLD_ATTRIBUTES + (index % WORLD_COUNT) as u32 * WORLD_BYTES
    }

    /// Reads world `index`.
    pub fn read(vip: &Vip, index: u8) -> (r: World)
        requires
            vip.wf(),
        ensures
            exists|words: [u16; 16]| #![trigger World::decode_spec(words)]
                r == World::decode_spec(words) && forall|i: int| 0 <= i < 16 ==> words[i] == vip@.read_u16(
                    (World::address_spec(index) + i * 2) as u32,
                ),
    {
        let base = World::address(index);
        let mut words = [0u16; 16];
        let mut slot: usize = 0;
        while slot < 16
            invariant
                slot <= 16,
                vip.wf(),
                base == World::address_spec(index),
                forall|j: int| 0 <= j < slot ==> words[j] == vip@.read_u16((base + j * 2) as u32),
            decreases 16 - slot,
        {
            words[slot] = vip.read_u16(base + slot as u32 * 2);
            slot = slot + 1;
        }
        World::decode(words)
    }

    /// A world that is drawn for neither eye.
    pub fn dummy(&self) -> (r: bool)
        ensures
            r == (!self.left && !self.right),
    {
        !self.left && !self.right
    }

    /// The drawn width: ten bits unsigned for affine worlds, thirteen bits signed otherwise.
    pub fn width(&self) -> (r: i32)
        ensures
            r == self.width_spec(),
    {
        if self.kind == WorldKind::Affine {
            (self.raw_width % 1024) as i32 + 1
        } else {
            sign_extend(self.raw_width, 4096) + 1
        }
    }

    // normal and h-bias worlds never draw shorter than one character
    /// The drawn height.
    pub fn height(&self) -> (r: i32)
        ensures
            r == self.height_spec(),
    {
        let height = sign_extend(self.raw_height, 32768) + 1;
        if (self.kind == WorldKind::Normal || self.kind == WorldKind::HBias) && height < 8 {
            8
        } else {
            height
        }
    }

    /// The number of background maps: two to the width power times two to the height power.
    pub fn map_count(&self) -> (r: u32)
        requires
            self.map_width_power + self.map_height_power < 32,
        ensures
            r == self.map_count_spec(),
    {
        proof {
            vstd::bits::lemma_u32_pow2_no_overflow(self.map_width_power as nat);
            vstd::bits::lemma_u32_pow2_no_overflow(self.map_height_power as nat);
            vstd::bits::lemma_u32_shl_is_mul(1, self.map_width_power as u32);
            vstd::bits::lemma_u32_shl_is_mul(1, self.map_height_power as u32);
            vstd::arithmetic::power2::lemma_pow2_adds(self.map_width_power as nat, self.map_height_power as nat);
            vstd::arithmetic::power2::lemma_pow2_strictly_increases(
                (self.map_width_power + self.map_height_power) as nat,
                32,
            );
            vstd::arithmetic::power2::lemma2_to64();
            vstd::arithmetic::power2::lemma_pow2_pos(self.map_width_power as nat);
            vstd::arithmetic::power2::lemma_pow2_pos(self.map_height_power as nat);
        }
        (1u32 << self.map_width_power as u32) * (1u32 << self.map_height_power as u32)
    }

    // a background of more than eight maps is treated as eight when picking the base
    /// The base map, rounded down to a multiple of the background's size (at most eight maps).
    pub fn effective_base(&self) -> (r: u16)
        requires
            self.map_width_power + self.map_height_power < 32,
        ensures
            r == self.map_base - self.map_base as int % (if self.map_count_spec() < 8 { self.map_count_spec() } else { 8int }),
    {
        let count = self.map_count();
        let span: u16 = if count < 8 { count as u16 } else { 8 };
        proof {
            let k = (self.map_width_power + self.map_height_power) as nat;
            vstd::arithmetic::power2::lemma2_to64();
            if k > 3 {
                vstd::arithmetic::power2::lemma_pow2_strictly_increases(3, k);
            }
            assert(span == 1 || span == 2 || span == 4 || span == 8);
            lemma_clear_low(self.map_base);
        }
        self.map_base & !(span - 1)
    }

    /// The address of the world's h-bias or affine parameters.
    pub fn param_address(&self) -> (r: u32)
        ensures
            r == BG_MAPS + self.param_base * 2,
    {
        BG_MAPS + self.param_base as u32 * 2
    }

    /// The address of the overplane character cell.
    pub fn overplane_address(&self) -> (r: u32)
        ensures
            r == BG_MAPS + self.overplane_character * 2,
    {
        BG_MAPS + self.overplane_character as u32 * 2
    }

    /// The left eye's destination column.
    pub fn left_destination(&self) -> (r: i32)
        requires
            i32::MIN <= self.destination_x - self.destination_parallax <= i32::MAX,
        ensures
            r == self.destination_x - self.destination_parallax,
    {
        self.destination_x - self.destination_parallax
    }

    /// The right eye's destination column.
    pub fn right_destination(&self) -> (r: i32)
        requires
            i32::MIN <= self.destination_x + self.destination_parallax <= i32::MAX,
        ensures
            r == self.destination_x + self.destination_parallax,
    {
        self.destination_x + self.destination_parallax
    }

    /// The left eye's source column.
    pub fn left_source(&self) -> (r: i32)
        requires
            i32::MIN <= self.source_x - self.source_parallax <= i32::MAX,
        ensures
            r == self.source_x - self.source_parallax,
    {
        self.source_x - self.source_parallax
    }

    /// The right eye's source column.
    pub fn right_source(&self) -> (r: i32)
        requires
            i32::MIN <= self.source_x + self.source_parallax <= i32::MAX,
        ensures
            r == self.source_x + self.source_parallax,
    {
        self.source_x + self.source_parallax
    }
}

/// Clearing the low bits below a power of two up to eight rounds down to a multiple of it.
proof fn lemma_clear_low(x: u16)
    by (bit_vector)
    ensures
        x & !0u16 == x,
        x & !1u16 == x - x % 2,
        x & !3u16 == x - x % 4,
        x & !7u16 == x - x % 8,
{
}

/// The two h-bias offsets of one row.
#[derive(Debug, Clone, Copy, PartialEq, Eq)]
pub struct HBias {
    pub left: i32,
    pub right: i32,
}

impl HBias {
    /// Reads row `row` of an h-bias table. The right offset is found by or-ing the left
    /// offset's address with two, so a misaligned base reads the left offset twice.
    pub fn read(vip: &Vip, param_address: u32, row: u32) -> (r: HBias)
        requires
            vip.wf(),
            row * HBIAS_BYTES <= u32::MAX,
        ensures
            ({
                let left = param_address.wrapping_add((row * HBIAS_BYTES) as u32);
                &&& r.left == sign_extend_spec(vip@.read_u16(left) as int % 8192, 4096)
                &&& r.right == sign_extend_spec(vip@.read_u16(left | 2) as int % 8192, 4096)
            }),
    {
        let left = param_address.wrapping_add(row * HBIAS_BYTES);
        // the vip reaches the right offset by or-ing with 2, so a misaligned base reuses the left
        let right = left | 2;
        HBias {
            left: sign_extend(vip.read_u16(left), 4096),
            right: sign_extend(vip.read_u16(right), 4096),
        }
    }
}

/// The affine parameters of one row.
#[derive(Debug, Clone, Copy, PartialEq, Eq)]
pub struct Affine {
    pub source_x: i32,
    pub source_y: i32,
    pub parallax: i32,
    pub direction_x: i32,
    pub direction_y: i32,
}

impl Affine {
    /// Reads row `row` of an affine table. Fields are found by or-ing the row address with the
    /// field offset, which is why rows must be aligned to 16 bytes.
    pub fn read(vip: &Vip, param_address: u32, row: u32) -> (r: Affine)
        requires
            vip.wf(),
            row * AFFINE_BYTES <= u32::MAX,
        ensures
            ({
                let base = param_address.wrapping_add((row * AFFINE_BYTES) as u32);
                &&& r.source_x == sign_extend_spec(vip@.read_u16(base | 0) as int, 32768)
                &&& r.parallax == sign_extend_spec(vip@.read_u16(base | 2) as int, 32768)
                &&& r.source_y == sign_extend_spec(vip@.read_u16(base | 4) as int, 32768)
                &&& r.direction_x == sign_extend_spec(vip@.read_u16(base | 6) as int, 32768)
                &&& r.direction_y == sign_extend_spec(vip@.read_u16(base | 8) as int, 32768)
            }),
    {
        let base = param_address.wrapping_add(row * AFFINE_BYTES);
        Affine {
            source_x: sign_extend(vip.read_u16(base | 0), 32768),
            parallax: sign_extend(vip.read_u16(base | 2), 32768),
            source_y: sign_extend(vip.read_u16(base | 4), 32768),
            direction_x: sign_extend(vip.read_u16(base | 6), 32768),
            direction_y: sign_extend(vip.read_u16(base | 8), 32768),
        }
    }

    /// The column after parallax: the left eye shifts when parallax is negative, the right eye
    /// when it is not.
    pub open spec fn shifted_spec(&self, column: i32, right_eye: bool) -> int {
        if self.parallax < 0 {
            if right_eye { column as int } else { column - self.parallax }
        } else if right_eye {
            column + self.parallax
        } else {
            column as int
        }
    }

    // the left eye is shifted when parallax is negative, the right eye when it is not
    /// The source coordinates of a column for one eye.
    pub fn column_source(&self, column: i32, right_eye: bool) -> (r: (i32, i32))
        requires
            i32::MIN <= self.shifted_spec(column, right_eye) <= i32::MAX,
            i32::MIN <= self.direction_x * self.shifted_spec(column, right_eye) <= i32::MAX,
            i32::MIN <= self.direction_y * self.shifted_spec(column, right_eye) <= i32::MAX,
            i32::MIN <= self.source_x + self.direction_x * self.shifted_spec(column, right_eye) <= i32::MAX,
            i32::MIN <= self.source_y + self.direction_y * self.shifted_spec(column, right_eye) <= i32::MAX,
        ensures
            r.0 == self.source_x + self.direction_x * self.shifted_spec(column, right_eye),
            r.1 == self.source_y + self.direction_y * self.shifted_spec(column, right_eye),
    {
        let shifted = if self.parallax < 0 {
            if right_eye {
                column
            } else {
                column - self.parallax
            }
        } else if right_eye {
            column + self.parallax
        } else {
            column
        };

        (self.source_x + self.direction_x * shifted, self.source_y + self.direction_y * shifted)
    }
}

/// One column table entry.
#[derive(Debug, Clone, Copy, PartialEq, Eq)]
pub struct ColumnEntry {
    pub repeat: u16,
    pub length: u16,
}

impl ColumnEntry {
    pub open spec fn address_spec(right_eye: bool, index: u16) -> u32 {
        ((if right_eye { RIGHT_COLUMN_TABLE } else { LEFT_COLUMN_TABLE }) + (index % COLUMN_ENTRIES) * 2) as u32
    }

    /// Splits an entry: repeat count in the high byte, length in the low byte.
    pub fn decode(raw: u16) -> (r: ColumnEntry)
        ensures
            r == (ColumnEntry { repeat: raw / 256, length: raw % 256 }),
    {
        ColumnEntry { repeat: raw / 256, length: raw % 256 }
    }

    /// The address of entry `index` (modulo 256) of one eye's column table.
    pub fn address(right_eye: bool, index: u16) -> (r: u32)
        ensures
            r == ColumnEntry::address_spec(right_eye, index),
    {
        let base = if right_eye {
            RIGHT_COLUMN_TABLE
        } else {
            LEFT_COLUMN_TABLE
        };
        base + (index % COLUMN_ENTRIES) as u32 * 2
    }

    /// Reads one column table entry.
    pub fn read(vip: &Vip, right_eye: bool, index: u16) -> (r: ColumnEntry)
        requires
            vip.wf(),
        ensures
            ({
                let raw = vip@.read_u16(ColumnEntry::address_spec(right_eye, index));
                r == (ColumnEntry { repeat: raw / 256, length: raw % 256 })
            }),
    {
        ColumnEntry::decode(vip.read_u16(ColumnEntry::address(right_eye, index)))
    }

    /// How many times the entry repeats: one more than the stored count.
    pub fn pulses(&self) -> (r: u16)
        requires
            self.repeat < u16::MAX,
        ensures
            r == self.repeat + 1,
    {
        self.repeat + 1
    }

    /// How long the entry lasts: one more than the stored length.
    pub fn duration(&self) -> (r: u16)
        requires
            self.length < u16::MAX,
        ensures
            r == self.length + 1,
    {
        self.length + 1
    }
}

} // verus!
