//! The sector-aligned persistent record store.
//!
//! One erase sector of the memory-mapped flash holds the calibration record.
//! This module owns everything that can be checked: the byte layout of the
//! record inside its sector image, the validity rule for records read back,
//! the sector-size rounding and the address checks.  The volatile read and
//! the erase-then-program hardware sequence act on the raw images built and
//! decoded here.

use vstd::prelude::*;

use vstd::arithmetic::div_mod::{
    lemma_div_denominator, lemma_fundamental_div_mod, lemma_mod_multiples_basic, lemma_small_mod,
};

verus! {

/// Base address of the memory-mapped (execute-in-place) flash window.
pub const FLASH_ORIGIN: usize = 0x10000000;

/// The end of the largest flash a device of this family can have: 16 MiB
/// past the origin.
pub const FLASH_END_MAX: usize = FLASH_ORIGIN + 16 * 1024 * 1024;

/// The smallest region the hardware can erase at once.
pub const FLASH_SECTOR_SIZE: usize = 4096;

/// The value every byte of an erased, unprogrammed sector reads back as.
pub const FLASH_ERASED_VALUE: u8 = 0xff;

/// The IEEE-754 single-precision bit pattern of one, the default
/// calibration coefficient.
pub const UNIT_ONE_BITS: u32 = 0x3F80_0000;

/// Rounds `value` up to the next multiple of `step`.
pub fn ceil_step(value: usize, step: usize) -> (r: usize)
    requires
        step >= 1,
        value + step <= usize::MAX,
    ensures
        r % step == 0,
        value <= r < value + step,
{
    let m = value % step;
    proof {
        lemma_fundamental_div_mod(value as int, step as int);
    }
    if m > 0 {
        let res = value - m + step;
        proof {
            assert(value - m == step * (value / step));
            assert(res == (value / step + 1) * step) by (nonlinear_arith)
                requires
                    value - m == step * (value / step) && res == value - m + step,
            ;
            lemma_mod_multiples_basic((value / step + 1) as int, step as int);
        }
        res
    } else {
        value
    }
}

/// The number of bytes a region must have to hold a value of `size` bytes
/// at sector granularity: the smallest multiple of the erase-sector size
/// that accommodates it.
pub fn sector_aligned_size_of(size: usize) -> (r: usize)
    requires
        size + FLASH_SECTOR_SIZE <= usize::MAX,
    ensures
        r % FLASH_SECTOR_SIZE == 0,
        size <= r < size + FLASH_SECTOR_SIZE,
{
    ceil_step(size, FLASH_SECTOR_SIZE)
}

/// Whether `addr` is a multiple of `alignment`; the hardware layer only
/// ever asks this of power-of-two alignments.
pub fn is_aligned(addr: usize, alignment: usize) -> (r: bool)
    requires
        alignment >= 1,
        alignment & ((alignment - 1) as usize) == 0,
    ensures
        r == (addr % alignment == 0),
{
    addr % alignment == 0
}

/// Whether a region of `size` bytes may live at `mem_addr`: within the
/// memory-mapped flash range and aligned to the erase sector, as both the
/// volatile read and the erase-then-program sequence require.
pub fn flash_addr_is_valid(mem_addr: usize, size: usize) -> (r: bool)
    ensures
        r == (mem_addr >= FLASH_ORIGIN && mem_addr + size <= FLASH_END_MAX && mem_addr
            % FLASH_SECTOR_SIZE == 0),
{
    if mem_addr >= FLASH_ORIGIN && size <= FLASH_END_MAX && mem_addr <= FLASH_END_MAX - size {
        proof {
            assert(4096usize & 4095usize == 0) by (bit_vector);
        }
        is_aligned(mem_addr, FLASH_SECTOR_SIZE)
    } else {
        false
    }
}

/// The persistent calibration record: a format tag and the raw bit pattern
/// of the scale's calibration coefficient.  The tag tells a programmed
/// record apart from erased or foreign memory.
#[derive(Copy, Clone, PartialEq, Eq, Structural, Debug)]
pub struct Conf {
    pub format: u16,
    pub scale_unit: u32,
}

impl Conf {
    /// A record counts as valid only when its tag is neither all-zero nor
    /// all-one bits: erased flash reads back as all ones, and a zero tag
    /// guards against cleared memory.
    pub fn is_valid(&self) -> (r: bool)
        ensures
            r == (self.format != 0 && self.format != 0xffff),
    {
        proof {
            let f = self.format;
            assert((!f != 0) == (f != 0xffff)) by (bit_vector);
        }
        self.format != 0 && !self.format != 0
    }

    /// The record itself when it is valid, else the caller-supplied default:
    /// a record whose tag does not match is treated as absent.
    pub fn or_default(self, default: Conf) -> (r: Conf)
        ensures
            self.format != 0 && self.format != 0xffff ==> r == self,
            !(self.format != 0 && self.format != 0xffff) ==> r == default,
    {
        if self.is_valid() {
            self
        } else {
            default
        }
    }
}

impl Default for Conf {
    /// Format one, coefficient one.
    fn default() -> (r: Conf)
        ensures
            r.format == 1,
            r.scale_unit == UNIT_ONE_BITS,
    {
        Conf { format: 1, scale_unit: UNIT_ONE_BITS }
    }
}

/// The sector image a record is programmed as: the tag at offsets 0 and 1,
/// least significant byte first; the coefficient bits at offsets 4 through 7,
/// least significant byte first; every other byte left at the erased fill
/// value.  Offsets 2 and 3 pad the coefficient to its natural alignment.
pub open spec fn conf_bytes(c: Conf) -> Seq<u8> {
    Seq::new(
        FLASH_SECTOR_SIZE as nat,
        |i: int|
            if i == 0 {
                (c.format % 256) as u8
            } else if i == 1 {
                (c.format / 256) as u8
            } else if i == 4 {
                (c.scale_unit % 256) as u8
            } else if i == 5 {
                ((c.scale_unit / 256) % 256) as u8
            } else if i == 6 {
                ((c.scale_unit / 65536) % 256) as u8
            } else if i == 7 {
                (c.scale_unit / 16777216) as u8
            } else {
                FLASH_ERASED_VALUE
            },
    )
}

/// The record a sector image decodes to, reading the same offsets.
pub open spec fn conf_of_bytes(b: Seq<u8>) -> Conf {
    Conf {
        format: (b[0] + 256 * b[1]) as u16,
        scale_unit: (b[4] + 256 * b[5] + 65536 * b[6] + 16777216 * b[7]) as u32,
    }
}

/// Decoding the image of a record yields the record back: what `write`
/// programs, an uninterrupted `read` returns.
pub proof fn lemma_conf_round_trip(c: Conf)
    ensures
        conf_of_bytes(conf_bytes(c)) == c,
{
    let f = c.format as int;
    lemma_fundamental_div_mod(f, 256);
    let u = c.scale_unit as int;
    lemma_fundamental_div_mod(u, 256);
    lemma_fundamental_div_mod(u / 256, 256);
    lemma_fundamental_div_mod(u / 65536, 256);
    lemma_div_denominator(u, 256, 256);
    lemma_div_denominator(u, 65536, 256);
    lemma_small_mod((u / 16777216) as nat, 256);
}

/// One sector-sized byte image, viewed either as raw bytes (for the hardware
/// erase and program calls) or as the typed record (for the application).
pub struct Flash {
    data: Vec<u8>,
}

impl View for Flash {
    type V = Seq<u8>;

    closed spec fn view(&self) -> Seq<u8> {
        self.data@
    }
}

impl Flash {
    pub closed spec fn wf(&self) -> bool {
        self.data@.len() == FLASH_SECTOR_SIZE
    }

    /// The image that programs `value`: an erased sector with the record's
    /// bytes laid in.
    pub fn new(value: Conf) -> (r: Flash)
        ensures
            r.wf(),
            r@ == conf_bytes(value),
    {
        let mut flash = Flash::default();
        let ghost erased = flash@;
        let b0 = (value.format % 256) as u8;
        let b1 = (value.format / 256) as u8;
        let u = value.scale_unit;
        let b4 = (u % 256) as u8;
        let b5 = ((u / 256) % 256) as u8;
        let b6 = ((u / 65536) % 256) as u8;
        let b7 = (u / 16777216) as u8;
        let slot = &mut flash.data[0];
        *slot = b0;
        let slot = &mut flash.data[1];
        *slot = b1;
        let slot = &mut flash.data[4];
        *slot = b4;
        let slot = &mut flash.data[5];
        *slot = b5;
        let slot = &mut flash.data[6];
        *slot = b6;
        let slot = &mut flash.data[7];
        *slot = b7;
        proof {
            assert forall|i: int|
                0 <= i < FLASH_SECTOR_SIZE && i != 0 && i != 1 && i != 4 && i != 5 && i != 6 && i
                    != 7 implies flash@[i] == FLASH_ERASED_VALUE by {
                assert(erased[i] == FLASH_ERASED_VALUE);
            }
            assert(flash@ =~= conf_bytes(value));
        }
        flash
    }

    /// Wraps a sector image read back from the device.
    pub fn from_bytes(data: Vec<u8>) -> (r: Flash)
        requires
            data@.len() == FLASH_SECTOR_SIZE,
        ensures
            r.wf(),
            r@ == data@,
    {
        Flash { data }
    }

    /// The raw sector image, for the hardware programming call.
    pub fn bytes(&self) -> (r: &Vec<u8>)
        ensures
            r@ == self@,
    {
        &self.data
    }

    /// The record the image decodes to.  The caller must still check its
    /// validity: an erased sector decodes to fill bytes, not to a default.
    pub fn value(&self) -> (r: Conf)
        requires
            self.wf(),
        ensures
            r == conf_of_bytes(self@),
    {
        let format = self.data[0] as u16 + 256 * (self.data[1] as u16);
        let scale_unit = self.data[4] as u32 + 256 * (self.data[5] as u32) + 65536 * (
        self.data[6] as u32) + 16777216 * (self.data[7] as u32);
        Conf { format, scale_unit }
    }
}

impl Default for Flash {
    /// The image of an erased, unprogrammed sector: every byte at the fill
    /// value.
    fn default() -> (r: Flash)
        ensures
            r.wf(),
            forall|i: int| 0 <= i < FLASH_SECTOR_SIZE ==> r@[i] == FLASH_ERASED_VALUE,
    {
        let mut data: Vec<u8> = Vec::new();
        let mut i: usize = 0;
        while i < FLASH_SECTOR_SIZE
            invariant
                i <= FLASH_SECTOR_SIZE,
                data@.len() == i,
                forall|k: int| 0 <= k < i ==> data@[k] == FLASH_ERASED_VALUE,
            decreases FLASH_SECTOR_SIZE - i,
        {
            data.push(FLASH_ERASED_VALUE);
            i += 1;
        }
        Flash { data }
    }
}

} // verus!
