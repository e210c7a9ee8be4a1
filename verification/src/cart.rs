use vstd::prelude::*;
use vstd::arithmetic::power2::{is_pow2, pow2};
use crate::text::{ascii_char, decimal, push_char, push_decimal, push_str, trim_end_spaces};

verus! {

pub const HEADER_LEN: usize = 0x20;
pub const HEADER_OFFSET_FROM_END: usize = 0x220;

pub const TITLE_LEN: usize = 20;
pub const RESERVED_LEN: usize = 5;
pub const MAKER_CODE_LEN: usize = 2;
pub const GAME_CODE_LEN: usize = 4;

pub const TITLE_START: usize = 0;
pub const RESERVED_START: usize = 20;
pub const MAKER_CODE_START: usize = 25;
pub const GAME_CODE_START: usize = 27;
pub const VERSION_START: usize = 31;

pub const MIN_ROM_LEN: usize = 0x400;
pub const MAX_ROM_LEN: usize = 0x0100_0000;
pub const MAX_SRAM_LEN: usize = 0x0100_0000;

/// Why a rom image or cartridge ram size is refused.
#[derive(Debug, Clone, Copy, PartialEq, Eq, Structural)]
pub enum CartError {
    RomTooSmall(usize),
    RomTooLarge(usize),
    RomNotPowerOfTwo(usize),
    SramTooLarge(usize),
    SramNotPowerOfTwo(usize),
}

/// The rom header that sits 0x220 bytes before the end of the image.
#[derive(Debug, Clone, Copy, PartialEq, Eq)]
pub struct Header {
    pub title: [u8; 20],
    pub reserved: [u8; 5],
    pub maker_code: [u8; 2],
    pub game_code: [u8; 4],
    pub version: u8,
}

/// How a header byte prints: nul as a space, printable ascii as itself, anything else as `?`.
pub open spec fn lossy_char(b: u8) -> char {
    if b == 0 {
        ' '
    } else if 0x20 <= b <= 0x7E {
        b as char
    } else {
        '?'
    }
}

/// The text of a header field: each byte mapped by `lossy_char`, trailing spaces removed.
pub open spec fn ascii_lossy_spec(bytes: Seq<u8>) -> Seq<char> {
    trim_end_spaces(bytes.map_values(|b: u8| lossy_char(b)))
}

proof fn lemma_trim_prefix(s: Seq<char>, k: int)
    requires
        0 <= k <= s.len(),
        forall|i: int| k <= i < s.len() ==> s[i] == ' ',
        k == 0 || s[k - 1] != ' ',
    ensures
        trim_end_spaces(s) == s.subrange(0, k),
    decreases s.len(),
{
    if s.len() > k {
        assert(s.drop_last() =~= s.subrange(0, s.len() - 1));
        lemma_trim_prefix(s.drop_last(), k);
        assert(s.drop_last().subrange(0, k) =~= s.subrange(0, k));
    } else {
        assert(s.subrange(0, k) =~= s);
    }
}

fn lossy(b: u8) -> (c: char)
    ensures
        c == lossy_char(b),
{
    if b == 0 {
        ' '
    } else if 0x20 <= b && b <= 0x7E {
        ascii_char(b)
    } else {
        '?'
    }
}

pub fn ascii_lossy(bytes: &[u8]) -> (r: String)
    ensures
        r@ == ascii_lossy_spec(bytes@),
{
    let ghost mapped = bytes@.map_values(|b: u8| lossy_char(b));
    let mut end: usize = bytes.len();
    while end > 0 && lossy(bytes[end - 1]) == ' '
        invariant
            end <= bytes@.len(),
            mapped == bytes@.map_values(|b: u8| lossy_char(b)),
            forall|i: int| end <= i < bytes@.len() ==> mapped[i] == ' ',
        decreases end,
    {
        end = end - 1;
    }
    proof {
        lemma_trim_prefix(mapped, end as int);
    }
    let mut text = String::new();
    let mut i: usize = 0;
    while i < end
        invariant
            i <= end <= bytes@.len(),
            mapped == bytes@.map_values(|b: u8| lossy_char(b)),
            text@ == mapped.subrange(0, i as int),
        decreases end - i,
    {
        push_char(&mut text, lossy(bytes[i]));
        i = i + 1;
        assert(text@ =~= mapped.subrange(0, i as int));
    }
    text
}

impl Header {
    /// The title as text.
    pub fn title_ascii_lossy(&self) -> (r: String)
        ensures
            r@ == ascii_lossy_spec(self.title@),
    {
        ascii_lossy(self.title.as_slice())
    }

    /// The maker code as text.
    pub fn maker_code_ascii_lossy(&self) -> (r: String)
        ensures
            r@ == ascii_lossy_spec(self.maker_code@),
    {
        ascii_lossy(self.maker_code.as_slice())
    }

    /// The game code as text.
    pub fn game_code_ascii_lossy(&self) -> (r: String)
        ensures
            r@ == ascii_lossy_spec(self.game_code@),
    {
        ascii_lossy(self.game_code.as_slice())
    }
}

/// A game pak: rom, optional battery-backed ram, and the masks that mirror accesses into them.
#[derive(Debug)]
pub struct Cart {
    rom: Vec<u8>,
    sram: Vec<u8>,
    rom_mask: u32,
    sram_mask: u32,
}

/// The contents of a game pak.
pub ghost struct CartView {
    pub rom: Seq<u8>,
    pub sram: Seq<u8>,
}

/// A rom length the cartridge accepts.
pub open spec fn valid_rom_len(len: int) -> bool {
    MIN_ROM_LEN <= len <= MAX_ROM_LEN && is_pow2(len)
}

/// A cartridge ram length the cartridge accepts; zero means no ram.
pub open spec fn valid_sram_len(len: int) -> bool {
    len <= MAX_SRAM_LEN && (len == 0 || is_pow2(len))
}

impl CartView {
    /// Both memories have lengths the cartridge accepts.
    pub open spec fn valid(self) -> bool {
        valid_rom_len(self.rom.len() as int) && valid_sram_len(self.sram.len() as int)
    }

    /// A rom byte: the address mirrors every rom length.
    pub open spec fn read_rom(self, addr: u32) -> u8 {
        self.rom[addr as int % self.rom.len() as int]
    }

    /// A ram byte: the address mirrors every ram length, and a missing ram reads zero.
    pub open spec fn read_sram(self, addr: u32) -> u8 {
        if self.sram.len() == 0 {
            0
        } else {
            self.sram[addr as int % self.sram.len() as int]
        }
    }

    /// A ram write: mirrored like a read, and dropped when there is no ram.
    pub open spec fn write_sram(self, addr: u32, value: u8) -> CartView {
        if self.sram.len() == 0 {
            self
        } else {
            CartView { sram: self.sram.update(addr as int % self.sram.len() as int, value), ..self }
        }
    }
}

impl View for Cart {
    type V = CartView;

    closed spec fn view(&self) -> CartView {
        CartView { rom: self.rom@, sram: self.sram@ }
    }
}

/// The mask that mirrors addresses into a memory of a power-of-two length.
spec fn mask_for(len: nat) -> u32 {
    if len == 0 { 0 } else { (len - 1) as u32 }
}

/// `addr & (len - 1)` is `addr % len` when `len` is a power of two that fits the bus.
proof fn lemma_mask_is_mod(addr: u32, len: nat)
    requires
        is_pow2(len as int),
        len <= 0x0100_0000,
    ensures
        (addr & mask_for(len)) as int == addr as int % len as int,
        (addr & mask_for(len)) < len,
{
    vstd::arithmetic::power2::is_pow2_equiv(len as int);
    let k = choose|k: nat| vstd::arithmetic::power::pow(2, k) == len as int;
    assert(pow2(k) == len);
    if k >= 25 {
        vstd::arithmetic::power2::lemma_pow2_strictly_increases(24, k);
        vstd::arithmetic::power2::lemma2_to64();
        assert(false);
    }
    vstd::arithmetic::power2::lemma_pow2_pos(k);
    vstd::bits::lemma_u32_low_bits_mask_is_mod(addr, k);
    assert(mask_for(len) == vstd::bits::low_bits_mask(k) as u32);
}

/// Whether `n` is a power of two.
fn is_power_of_two(n: usize) -> (r: bool)
    ensures
        r == is_pow2(n as int),
{
    if n == 0 {
        proof {
            reveal(is_pow2);
        }
        return false;
    }
    let mut x = n;
    while x > 1 && x % 2 == 0
        invariant
            0 < x <= n,
            is_pow2(n as int) == is_pow2(x as int),
        decreases x,
    {
        proof {
            reveal(is_pow2);
        }
        x = x / 2;
    }
    proof {
        reveal(is_pow2);
    }
    x == 1
}

impl Cart {
    /// The cartridge's masks agree with its memories, and both lengths are accepted ones.
    pub closed spec fn wf(&self) -> bool {
        &&& self@.valid()
        &&& self.rom_mask == mask_for(self.rom@.len())
        &&& self.sram_mask == mask_for(self.sram@.len())
    }

    /// A well-formed cartridge has accepted lengths.
    pub proof fn lemma_wf(&self)
        requires
            self.wf(),
        ensures
            self@.valid(),
    {
    }

    /// Every well-formed cartridge has accepted lengths.
    pub proof fn lemma_all_wf_valid()
        ensures
            forall|c: Cart| #[trigger] c.wf() ==> c@.valid(),
    {
    }

    /// A cartridge with this rom and no ram.
    pub fn new(rom: Vec<u8>) -> (r: Result<Self, CartError>)
        ensures
            match Self::check_lengths(rom@.len() as int, 0) {
                Some(e) => r == Err::<Self, CartError>(e),
                None => r is Ok,
            },
            r matches Ok(c) ==> c.wf() && c@ == (CartView { rom: rom@, sram: Seq::new(0, |i: int| 0u8) }),
    {
        Self::with_sram(rom, 0)
    }

    /// Which error, if any, `with_sram` reports for these lengths; the checks run in this order.
    pub open spec fn check_lengths(rom_len: int, sram_len: int) -> Option<CartError> {
        if rom_len < MIN_ROM_LEN {
            Some(CartError::RomTooSmall(rom_len as usize))
        } else if rom_len > MAX_ROM_LEN {
            Some(CartError::RomTooLarge(rom_len as usize))
        } else if !is_pow2(rom_len) {
            Some(CartError::RomNotPowerOfTwo(rom_len as usize))
        } else if sram_len > MAX_SRAM_LEN {
            Some(CartError::SramTooLarge(sram_len as usize))
        } else if sram_len != 0 && !is_pow2(sram_len) {
            Some(CartError::SramNotPowerOfTwo(sram_len as usize))
        } else {
            None
        }
    }

    /// A cartridge with this rom and `sram_len` bytes of zeroed ram.
    pub fn with_sram(rom: Vec<u8>, sram_len: usize) -> (r: Result<Self, CartError>)
        ensures
            match Self::check_lengths(rom@.len() as int, sram_len as int) {
                Some(e) => r == Err::<Self, CartError>(e),
                None => r is Ok,
            },
            r matches Ok(c) ==> c.wf() && c@ == (CartView {
                rom: rom@,
                sram: Seq::new(sram_len as nat, |i: int| 0u8),
            }),
    {
        let rom_len = rom.len();

        if rom_len < MIN_ROM_LEN {
            return Err(CartError::RomTooSmall(rom_len));
        }
        if rom_len > MAX_ROM_LEN {
            return Err(CartError::RomTooLarge(rom_len));
        }
        if !is_power_of_two(rom_len) {
            return Err(CartError::RomNotPowerOfTwo(rom_len));
        }
        if sram_len > MAX_SRAM_LEN {
            return Err(CartError::SramTooLarge(sram_len));
        }
        if sram_len != 0 && !is_power_of_two(sram_len) {
            return Err(CartError::SramNotPowerOfTwo(sram_len));
        }

        let rom_mask = (rom_len - 1) as u32;
        let sram_mask: u32 = if sram_len == 0 { 0 } else { (sram_len - 1) as u32 };
        let sram: Vec<u8> = vec![0u8; sram_len];
        proof {
            assert forall|i: int| 0 <= i < sram_len implies sram@[i] == 0u8 by {
                assert(vstd::pervasive::cloned(0u8, sram@[i]));
            }
            assert(sram@ =~= Seq::new(sram_len as nat, |i: int| 0u8));
        }

        Ok(Cart { rom, sram, rom_mask, sram_mask })
    }

    /// The rom image.
    pub fn rom(&self) -> (r: &[u8])
        ensures
            r@ == self@.rom,
    {
        self.rom.as_slice()
    }

    /// The cartridge ram, empty when there is none.
    pub fn sram(&self) -> (r: &[u8])
        ensures
            r@ == self@.sram,
    {
        self.sram.as_slice()
    }

    /// The cartridge ram, for changes; it keeps its length, so the cartridge stays well formed.
    pub fn sram_mut(&mut self) -> (r: &mut [u8])
        ensures
            r@ == old(self)@.sram,
            final(self)@ == (CartView { sram: final(r)@, ..old(self)@ }),
            old(self).wf() && final(r)@.len() == r@.len() ==> final(self).wf(),
    {
        self.sram.as_mut_slice()
    }

    /// Whether the cartridge has ram.
    pub fn has_sram(&self) -> (r: bool)
        ensures
            r == (self@.sram.len() > 0),
    {
        self.sram.len() != 0
    }

    /// Reads a rom byte; every address mirrors into the rom.
    pub fn read_rom(&self, addr: u32) -> (r: u8)
        requires
            self.wf(),
        ensures
            r == self@.read_rom(addr),
    {
        proof {
            lemma_mask_is_mod(addr, self.rom@.len());
        }
        self.rom[(addr & self.rom_mask) as usize]
    }

    /// Reads a ram byte; without ram the read gives zero.
    pub fn read_sram(&self, addr: u32) -> (r: u8)
        requires
            self.wf(),
        ensures
            r == self@.read_sram(addr),
    {
        if self.sram.len() == 0 {
            return 0;
        }
        proof {
            lemma_mask_is_mod(addr, self.sram@.len());
        }
        self.sram[(addr & self.sram_mask) as usize]
    }

    /// Writes a ram byte; without ram the write is dropped.
    pub fn write_sram(&mut self, addr: u32, value: u8)
        requires
            old(self).wf(),
        ensures
            final(self).wf(),
            final(self)@ == old(self)@.write_sram(addr, value),
    {
        if self.sram.len() == 0 {
            return;
        }
        proof {
            lemma_mask_is_mod(addr, self.sram@.len());
        }
        self.sram.set((addr & self.sram_mask) as usize, value);
    }

    /// The header fields, read from 0x220 bytes before the end of the rom.
    pub fn header(&self) -> (h: Header)
        requires
            self.wf(),
        ensures
            ({
                let base = self@.rom.len() - HEADER_OFFSET_FROM_END;
                &&& h.title@ == self@.rom.subrange(base, base + 20)
                &&& h.reserved@ == self@.rom.subrange(base + 20, base + 25)
                &&& h.maker_code@ == self@.rom.subrange(base + 25, base + 27)
                &&& h.game_code@ == self@.rom.subrange(base + 27, base + 31)
                &&& h.version == self@.rom[base + 31]
            }),
    {
        let base = self.rom.len() - HEADER_OFFSET_FROM_END;
        let ghost rom = self.rom@;
        let mut title = [0u8; 20];
        let mut reserved = [0u8; 5];
        let mut maker_code = [0u8; 2];
        let mut game_code = [0u8; 4];

        let mut i: usize = 0;
        while i < 20
            invariant
                i <= 20,
                base + 0x220 == rom.len(),
                rom.len() <= 0x0100_0000,
                rom == self.rom@,
                forall|j: int| 0 <= j < i ==> title@[j] == rom[base + j],
            decreases 20 - i,
        {
            title[i] = self.rom[base + i];
            i = i + 1;
        }
        let mut i: usize = 0;
        while i < 5
            invariant
                i <= 5,
                base + 0x220 == rom.len(),
                rom.len() <= 0x0100_0000,
                rom == self.rom@,
                forall|j: int| 0 <= j < i ==> reserved@[j] == rom[base + 20 + j],
            decreases 5 - i,
        {
            reserved[i] = self.rom[base + RESERVED_START + i];
            i = i + 1;
        }
        let mut i: usize = 0;
        while i < 2
            invariant
                i <= 2,
                base + 0x220 == rom.len(),
                rom.len() <= 0x0100_0000,
                rom == self.rom@,
                forall|j: int| 0 <= j < i ==> maker_code@[j] == rom[base + 25 + j],
            decreases 2 - i,
        {
            maker_code[i] = self.rom[base + MAKER_CODE_START + i];
            i = i + 1;
        }
        let mut i: usize = 0;
        while i < 4
            invariant
                i <= 4,
                base + 0x220 == rom.len(),
                rom.len() <= 0x0100_0000,
                rom == self.rom@,
                forall|j: int| 0 <= j < i ==> game_code@[j] == rom[base + 27 + j],
            decreases 4 - i,
        {
            game_code[i] = self.rom[base + GAME_CODE_START + i];
            i = i + 1;
        }
        assert(title@ =~= rom.subrange(base as int, base + 20));
        assert(reserved@ =~= rom.subrange(base + 20, base + 25));
        assert(maker_code@ =~= rom.subrange(base + 25, base + 27));
        assert(game_code@ =~= rom.subrange(base + 27, base + 31));

        Header { title, reserved, maker_code, game_code, version: self.rom[base + VERSION_START] }
    }
}

/// Rom reads mirror: an address and the same address one rom length further read the same byte.
pub proof fn lemma_rom_mirrors(c: CartView, addr: u32)
    requires
        c.valid(),
        addr as int + c.rom.len() <= u32::MAX,
    ensures
        c.read_rom(addr) == c.read_rom((addr + c.rom.len()) as u32),
{
    vstd::arithmetic::div_mod::lemma_mod_add_multiples_vanish(addr as int, c.rom.len() as int);
}

/// A ram write is read back at the same address and at every mirror of it.
pub proof fn lemma_sram_write_read(c: CartView, addr: u32, value: u8, other: u32)
    requires
        c.valid(),
        c.sram.len() > 0,
        other as int % c.sram.len() as int == addr as int % c.sram.len() as int,
    ensures
        c.write_sram(addr, value).read_sram(other) == value,
{
}

/// A ram write leaves every byte at a different ram offset alone.
pub proof fn lemma_sram_write_other(c: CartView, addr: u32, value: u8, other: u32)
    requires
        other as int % c.sram.len() as int != addr as int % c.sram.len() as int,
    ensures
        c.write_sram(addr, value).read_sram(other) == c.read_sram(other),
{
}

/// Without ram, writes change nothing and reads give zero.
pub proof fn lemma_absent_sram(c: CartView, addr: u32, value: u8, other: u32)
    requires
        c.sram.len() == 0,
    ensures
        c.write_sram(addr, value) == c,
        c.read_sram(other) == 0,
{
}

impl CartError {
    /// What went wrong, in words.
    pub open spec fn message_spec(self) -> Seq<char> {
        match self {
            CartError::RomTooSmall(len) => "rom is "@ + decimal(len as nat) + " bytes, minimum is "@ + decimal(
                MIN_ROM_LEN as nat,
            ),
            CartError::RomTooLarge(len) => "rom is "@ + decimal(len as nat) + " bytes, maximum is "@ + decimal(
                MAX_ROM_LEN as nat,
            ),
            CartError::RomNotPowerOfTwo(len) => "rom is "@ + decimal(len as nat)
                + " bytes, which is not a power of two"@,
            CartError::SramTooLarge(len) => "sram is "@ + decimal(len as nat) + " bytes, maximum is "@ + decimal(
                MAX_SRAM_LEN as nat,
            ),
            CartError::SramNotPowerOfTwo(len) => "sram is "@ + decimal(len as nat)
                + " bytes, which is not a power of two"@,
        }
    }

    /// What went wrong, in words: the rejected length and the rule it breaks.
    pub fn to_string(&self) -> (r: String)
        ensures
            r@ == self.message_spec(),
    {
        let mut text = String::new();
        match *self {
            CartError::RomTooSmall(len) => {
                push_str(&mut text, "rom is ");
                push_decimal(&mut text, len as u64);
                push_str(&mut text, " bytes, minimum is ");
                push_decimal(&mut text, MIN_ROM_LEN as u64);
            },
            CartError::RomTooLarge(len) => {
                push_str(&mut text, "rom is ");
                push_decimal(&mut text, len as u64);
                push_str(&mut text, " bytes, maximum is ");
                push_decimal(&mut text, MAX_ROM_LEN as u64);
            },
            CartError::RomNotPowerOfTwo(len) => {
                push_str(&mut text, "rom is ");
                push_decimal(&mut text, len as u64);
                push_str(&mut text, " bytes, which is not a power of two");
            },
            CartError::SramTooLarge(len) => {
                push_str(&mut text, "sram is ");
                push_decimal(&mut text, len as u64);
                push_str(&mut text, " bytes, maximum is ");
                push_decimal(&mut text, MAX_SRAM_LEN as u64);
            },
            CartError::SramNotPowerOfTwo(len) => {
                push_str(&mut text, "sram is ");
                push_decimal(&mut text, len as u64);
                push_str(&mut text, " bytes, which is not a power of two");
            },
        }
        assert(text@ =~= self.message_spec());
        text
    }
}

} // verus!
