//! iNES cartridge images.
use vstd::prelude::*;

verus! {

/// The four header bytes that describe the cartridge.
#[derive(Clone, Copy)]
pub struct RomHeader {
    pub prg_rom_size: u8,
    pub chr_rom_size: u8,
    pub flags6: u8,
    pub flags7: u8,
}

/// A loaded cartridge: program ROM, character ROM (or RAM), mapper number,
/// nametable mirroring and whether it has battery-backed RAM.
pub struct Cartridge {
    pub header: RomHeader,
    pub prg_rom: Vec<u8>,
    pub chr_rom: Vec<u8>,
    pub mapper_id: u8,
    pub mirror_mode: u8,
    pub battery: bool,
}

/// Size of one program ROM unit in the header.
pub const PRG_UNIT: usize = 16384;
/// Size of one character ROM unit in the header.
pub const CHR_UNIT: usize = 8192;

/// The bytes an iNES image starts with: "NES" and 0x1A.
pub open spec fn has_ines_magic(data: Seq<u8>) -> bool {
    data.len() >= 16 && data[0] == 0x4E && data[1] == 0x45 && data[2] == 0x53 && data[3] == 0x1A
}

/// How many bytes the header says the image holds.
pub open spec fn ines_image_len(data: Seq<u8>) -> int {
    16 + PRG_UNIT * data[4] + CHR_UNIT * data[5]
}

/// Whether `load` accepts `data`: the magic bytes are there and the image
/// holds every ROM bank that the header announces.
pub open spec fn is_loadable(data: Seq<u8>) -> bool {
    has_ines_magic(data) && data.len() >= ines_image_len(data)
}

/// A header whose bytes 12 to 15 are not all zero was written by an old
/// tool; its byte 7 carries no mapper bits.
pub open spec fn is_dirty_header(data: Seq<u8>) -> bool {
    data[12] != 0 || data[13] != 0 || data[14] != 0 || data[15] != 0
}

/// The mapper number: high nibble from byte 7 (unless the header is dirty),
/// low nibble from the high nibble of byte 6.
pub open spec fn ines_mapper_id(data: Seq<u8>) -> u8 {
    (if is_dirty_header(data) { 0u8 } else { data[7] & 0xF0 }) | (data[6] >> 4)
}

/// Mirroring from byte 6: bit 0 selects vertical, bit 3 four-screen.
pub open spec fn ines_mirror_mode(flags6: u8) -> u8 {
    (flags6 & 0x1) | ((flags6 & 0x8) >> 2)
}

impl Cartridge {
    /// Lengths that keep every bank computation of the mappers in range.
    pub open spec fn wf(&self) -> bool {
        &&& self.prg_rom@.len() <= 255 * PRG_UNIT
        &&& self.chr_rom@.len() <= 255 * CHR_UNIT
        &&& self.prg_rom@.len() % PRG_UNIT as nat == 0
        &&& self.chr_rom@.len() % CHR_UNIT as nat == 0
        &&& self.chr_rom@.len() >= CHR_UNIT
    }

    /// Whether the ROM sizes are whole, nonzero-character-ROM iNES sizes.
    pub fn is_wf(&self) -> (r: bool)
        ensures
            r == self.wf(),
    {
        let prg = self.prg_rom.len();
        let chr = self.chr_rom.len();
        prg <= 255 * PRG_UNIT && chr <= 255 * CHR_UNIT && prg % PRG_UNIT == 0 && chr % CHR_UNIT == 0
            && chr >= CHR_UNIT
    }

    /// A copy of the cartridge with its own ROM buffers.
    pub fn duplicate(&self) -> (c: Cartridge)
        ensures
            c.prg_rom@ == self.prg_rom@,
            c.chr_rom@ == self.chr_rom@,
            c.header == self.header,
            c.mapper_id == self.mapper_id,
            c.mirror_mode == self.mirror_mode,
            c.battery == self.battery,
    {
        let prg_rom = copy_range(self.prg_rom.as_slice(), 0, self.prg_rom.len());
        let chr_rom = copy_range(self.chr_rom.as_slice(), 0, self.chr_rom.len());
        assert(prg_rom@ =~= self.prg_rom@);
        assert(chr_rom@ =~= self.chr_rom@);
        Cartridge {
            header: self.header,
            prg_rom,
            chr_rom,
            mapper_id: self.mapper_id,
            mirror_mode: self.mirror_mode,
            battery: self.battery,
        }
    }

    /// An empty cartridge, as a placeholder before a real one is inserted.
    pub fn default() -> (c: Cartridge)
        ensures
            c.header == (RomHeader { prg_rom_size: 0, chr_rom_size: 0, flags6: 0, flags7: 0 }),
            c.prg_rom@.len() == 0,
            c.chr_rom@.len() == 0,
            c.mapper_id == 0,
            c.mirror_mode == 0,
            !c.battery,
    {
        Cartridge {
            header: RomHeader { prg_rom_size: 0, chr_rom_size: 0, flags6: 0, flags7: 0 },
            prg_rom: Vec::new(),
            chr_rom: Vec::new(),
            mapper_id: 0,
            mirror_mode: 0,
            battery: false,
        }
    }

    /// Parses an iNES image.  Without character ROM the cartridge gets
    /// 8 KiB of zeroed character RAM.
    pub fn load(data: &[u8]) -> (c: Cartridge)
        requires
            is_loadable(data@),
        ensures
            c.wf(),
            c.prg_rom@ == data@.subrange(16, 16 + PRG_UNIT * data@[4]),
            data@[5] != 0 ==> c.chr_rom@ == data@.subrange(
                16 + PRG_UNIT * data@[4],
                16 + PRG_UNIT * data@[4] + CHR_UNIT * data@[5],
            ),
            data@[5] == 0 ==> c.chr_rom@ == Seq::new(CHR_UNIT as nat, |i: int| 0u8),
            c.mapper_id == ines_mapper_id(data@),
            c.mirror_mode == ines_mirror_mode(data@[6]),
            c.battery == (data@[6] & 0x02 != 0),
            c.header.prg_rom_size == data@[4],
            c.header.chr_rom_size == data@[5],
            c.header.flags6 == data@[6],
            c.header.flags7 == data@[7],
    {
        let header = RomHeader {
            prg_rom_size: data[4],
            chr_rom_size: data[5],
            flags6: data[6],
            flags7: data[7],
        };
        let prg_len = PRG_UNIT * (header.prg_rom_size as usize);
        let chr_len = CHR_UNIT * (header.chr_rom_size as usize);
        let prg_rom = copy_range(data, 16, prg_len);
        let chr_start = 16 + prg_len;
        let chr_rom = if header.chr_rom_size == 0 {
            zeroed(CHR_UNIT)
        } else {
            copy_range(data, chr_start, chr_len)
        };
        let mapper_lo = header.flags6 >> 4;
        let mut mapper_hi = header.flags7 & 0xF0;
        let is_dirty = data[12] != 0 || data[13] != 0 || data[14] != 0 || data[15] != 0;
        if is_dirty {
            mapper_hi = 0;
        }
        Cartridge {
            prg_rom,
            chr_rom,
            mapper_id: mapper_hi | mapper_lo,
            mirror_mode: (header.flags6 & 0x1) | ((header.flags6 & 0x8) >> 2),
            battery: (header.flags6 & 0x02) != 0,
            header,
        }
    }

    pub fn has_battery(&self) -> (r: bool)
        ensures
            r == self.battery,
    {
        self.battery
    }

    pub fn get_mapper_id(&self) -> (r: u8)
        ensures
            r == self.mapper_id,
    {
        self.mapper_id
    }

    /// The board name of the cartridge's mapper number.
    pub fn get_mapper_name(&self) -> (r: &'static str)
        ensures
            r@ == mapper_name(self.mapper_id)@,
    {
        match self.mapper_id {
            0 => "NROM",
            1 => "MMC1",
            2 => "UNROM",
            3 => "CNROM",
            4 => "MMC3",
            5 => "MMC5",
            7 => "AxROM",
            8 => "Nina-03",
            9 => "MMC2",
            11 => "Color Dreams",
            13 => "CPROM",
            15 => "CP-ROM",
            34 => "BNROM",
            41 => "Caltron",
            47 => "MMC3v2",
            64 => "RAMBO-1",
            65 => "MMC4",
            66 => "GxROM",
            68 => "Namco 175",
            69 => "Sunsoft FME-7",
            71 => "Camerica",
            79 => "Nina",
            105 => "NES-EvtROM",
            113 => "Sachen",
            118 => "TxSROM",
            119 => "TQROM",
            228 => "Action 52",
            232 => "Quattro",
            _ => "Unknown",
        }
    }
}

/// The board name of each mapper number.
pub open spec fn mapper_name(id: u8) -> &'static str {
    if id == 0 { "NROM" }
    else if id == 1 { "MMC1" }
    else if id == 2 { "UNROM" }
    else if id == 3 { "CNROM" }
    else if id == 4 { "MMC3" }
    else if id == 5 { "MMC5" }
    else if id == 7 { "AxROM" }
    else if id == 8 { "Nina-03" }
    else if id == 9 { "MMC2" }
    else if id == 11 { "Color Dreams" }
    else if id == 13 { "CPROM" }
    else if id == 15 { "CP-ROM" }
    else if id == 34 { "BNROM" }
    else if id == 41 { "Caltron" }
    else if id == 47 { "MMC3v2" }
    else if id == 64 { "RAMBO-1" }
    else if id == 65 { "MMC4" }
    else if id == 66 { "GxROM" }
    else if id == 68 { "Namco 175" }
    else if id == 69 { "Sunsoft FME-7" }
    else if id == 71 { "Camerica" }
    else if id == 79 { "Nina" }
    else if id == 105 { "NES-EvtROM" }
    else if id == 113 { "Sachen" }
    else if id == 118 { "TxSROM" }
    else if id == 119 { "TQROM" }
    else if id == 228 { "Action 52" }
    else if id == 232 { "Quattro" }
    else { "Unknown" }
}

/// Copies `len` bytes of `data` starting at `start`.
pub fn copy_range(data: &[u8], start: usize, len: usize) -> (v: Vec<u8>)
    requires
        start + len <= data@.len(),
        start + len <= usize::MAX,
    ensures
        v@ == data@.subrange(start as int, start + len),
{
    let mut v: Vec<u8> = Vec::with_capacity(len);
    let mut i: usize = 0;
    while i < len
        invariant
            start + len <= data@.len(),
            start + len <= usize::MAX,
            i <= len,
            v@ == data@.subrange(start as int, start + i),
        decreases len - i,
    {
        v.push(data[start + i]);
        i += 1;
        assert(v@ =~= data@.subrange(start as int, start + i));
    }
    v
}

/// `len` zero bytes.
pub fn zeroed(len: usize) -> (v: Vec<u8>)
    ensures
        v@ == Seq::new(len as nat, |i: int| 0u8),
{
    let mut v: Vec<u8> = Vec::with_capacity(len);
    let mut i: usize = 0;
    while i < len
        invariant
            i <= len,
            v@ == Seq::new(i as nat, |j: int| 0u8),
        decreases len - i,
    {
        v.push(0);
        i += 1;
        assert(v@ =~= Seq::new(i as nat, |j: int| 0u8));
    }
    v
}

} // verus!
