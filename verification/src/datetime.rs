use vstd::prelude::*;

use crate::error::ZipResult;
use crate::wire::le16;

verus! {

/// An MS-DOS date and time. Fields are stored as decoded, not validated:
/// out-of-range values are preserved.
#[derive(Clone, Copy, Debug, Eq, Hash, PartialEq, PartialOrd, Ord, Structural)]
pub struct ZipDateTime {
    pub year: u16,
    pub month: u8,
    pub day: u8,
    pub hour: u8,
    pub minute: u8,
    pub second: u8,
}

/// The fields packed into the two 16-bit MS-DOS words: the date word holds
/// 7 bits of year since 1980, 4 of month and 5 of day; the time word holds
/// 5 bits of hour, 6 of minute and 5 of two-second units.
pub open spec fn spec_datetime(time: u16, date: u16) -> ZipDateTime {
    ZipDateTime {
        year: (1980 + date / 0x200) as u16,
        month: ((date / 0x20) % 0x10) as u8,
        day: (date % 0x20) as u8,
        hour: (time / 0x800) as u8,
        minute: ((time / 0x20) % 0x40) as u8,
        second: ((time % 0x20) * 2) as u8,
    }
}

/// The datetime stored in four little-endian bytes: time word first, then
/// date word.
pub open spec fn spec_datetime_bytes(s: Seq<u8>) -> ZipDateTime
    recommends
        s.len() >= 4,
{
    spec_datetime(le16(s, 0), le16(s, 2))
}

/// The datetime words read in place from a larger record image: the time
/// word at `off`, the date word after it.
pub fn read_datetime(buf: &[u8], off: usize) -> (r: ZipDateTime)
    requires
        off + 4 <= buf@.len(),
    ensures
        r == spec_datetime(le16(buf@, off as int), le16(buf@, off + 2)),
{
    let _n: usize = buf.len();
    let time = crate::wire::read_le16(buf, off);
    let date = crate::wire::read_le16(buf, off + 2);
    ZipDateTime {
        year: 1980 + date / 0x200,
        month: ((date / 0x20) % 0x10) as u8,
        day: (date % 0x20) as u8,
        hour: (time / 0x800) as u8,
        minute: ((time / 0x20) % 0x40) as u8,
        second: ((time % 0x20) * 2) as u8,
    }
}

impl ZipDateTime {
    /// The two words decoded from their little-endian byte image.
    pub fn try_from(value: [u8; 4]) -> (r: ZipResult<ZipDateTime>)
        ensures
            r matches Ok(d) && d == spec_datetime_bytes(value@),
    {
        let time: u16 = value[0] as u16 + value[1] as u16 * 0x100;
        let date: u16 = value[2] as u16 + value[3] as u16 * 0x100;
        Ok(ZipDateTime {
            year: 1980 + date / 0x200,
            month: ((date / 0x20) % 0x10) as u8,
            day: (date % 0x20) as u8,
            hour: (time / 0x800) as u8,
            minute: ((time / 0x20) % 0x40) as u8,
            second: ((time % 0x20) * 2) as u8,
        })
    }
}

} // verus!
