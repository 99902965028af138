use vstd::prelude::*;

use crate::error::{ZipError, ZipErrorKind, ZipResult};

verus! {

/// The host system a record's external attributes are written for. Only the
/// three hosts below are understood; any other value is rejected.
#[derive(Clone, Copy, Debug, PartialEq, Eq, PartialOrd, Ord, Hash, Structural)]
pub enum AttributeCompatibility {
    MsDos,
    NTFS,
    Unix,
}

/// One read/write/execute permission triple of a POSIX mode.
#[derive(Clone, Copy, Debug, Default, PartialEq, Eq, PartialOrd, Ord, Hash, Structural)]
pub struct Permissions {
    pub read: bool,
    pub write: bool,
    pub execute: bool,
}

/// The POSIX-style attributes carried in the high half of a Unix external
/// attribute word. Non-Unix hosts yield the all-false default.
#[derive(Clone, Copy, Debug, Default, PartialEq, Eq, PartialOrd, Ord, Hash, Structural)]
pub struct Attributes {
    pub directory: bool,
    pub file: bool,
    pub symbolic: bool,
    pub owner: Permissions,
    pub group: Permissions,
    pub other: Permissions,
}

/// Which host a version-made-by byte names, or a rejection.
pub open spec fn spec_compatibility(value: u8) -> Result<AttributeCompatibility, ZipErrorKind> {
    if value == 0 {
        Ok(AttributeCompatibility::MsDos)
    } else if value == 3 {
        Ok(AttributeCompatibility::Unix)
    } else if value == 10 {
        Ok(AttributeCompatibility::NTFS)
    } else {
        Err(ZipErrorKind::AttributeCompatibilityNotSupported)
    }
}

/// The attributes decoded from an external-attribute word for a host: for
/// Unix, the high 16 bits carry standard `stat`-style mode bits; for every
/// other host the default applies.
pub open spec fn spec_attributes(value: u32, compatibility: AttributeCompatibility) -> Attributes {
    match compatibility {
        AttributeCompatibility::Unix => {
            let mode = value >> 16;
            Attributes {
                directory: mode & 0o040000 == 0o040000,
                file: mode & 0o100000 == 0o100000,
                symbolic: mode & 0o120000 == 0o120000,
                owner: Permissions {
                    read: mode & 0o400 == 0o400,
                    write: mode & 0o200 == 0o200,
                    execute: mode & 0o100 == 0o100,
                },
                group: Permissions {
                    read: mode & 0o040 == 0o040,
                    write: mode & 0o020 == 0o020,
                    execute: mode & 0o010 == 0o010,
                },
                other: Permissions {
                    read: mode & 0o004 == 0o004,
                    write: mode & 0o002 == 0o002,
                    execute: mode & 0o001 == 0o001,
                },
            }
        },
        _ => Attributes {
            directory: false,
            file: false,
            symbolic: false,
            owner: Permissions { read: false, write: false, execute: false },
            group: Permissions { read: false, write: false, execute: false },
            other: Permissions { read: false, write: false, execute: false },
        },
    }
}

impl AttributeCompatibility {
    /// The host named by a version-made-by byte, or
    /// `AttributeCompatibilityNotSupported`.
    pub fn try_from(value: u8) -> (r: ZipResult<AttributeCompatibility>)
        ensures
            r matches Ok(c) ==> spec_compatibility(value) == Ok::<_, ZipErrorKind>(c),
            r matches Err(e) ==> spec_compatibility(value) is Err && e.kind()
                == ZipErrorKind::AttributeCompatibilityNotSupported,
            r is Ok <==> spec_compatibility(value) is Ok,
    {
        match value {
            0 => Ok(AttributeCompatibility::MsDos),
            3 => Ok(AttributeCompatibility::Unix),
            10 => Ok(AttributeCompatibility::NTFS),
            _ => Err(ZipError::AttributeCompatibilityNotSupported),
        }
    }

    /// The byte value that names this host.
    pub fn code(&self) -> (r: u16)
        ensures
            spec_compatibility(r as u8) == Ok::<_, ZipErrorKind>(*self),
    {
        match self {
            AttributeCompatibility::MsDos => 0,
            AttributeCompatibility::Unix => 3,
            AttributeCompatibility::NTFS => 10,
        }
    }
}

impl Attributes {
    /// The attributes decoded from an external-attribute word for a host.
    pub fn from(value: u32, compatibility: &AttributeCompatibility) -> (r: Attributes)
        ensures
            r == spec_attributes(value, *compatibility),
    {
        match compatibility {
            AttributeCompatibility::Unix => {
                let mode = value >> 16;
                Attributes {
                    directory: mode & 0o040000 == 0o040000,
                    file: mode & 0o100000 == 0o100000,
                    symbolic: mode & 0o120000 == 0o120000,
                    owner: Permissions {
                        read: mode & 0o400 == 0o400,
                        write: mode & 0o200 == 0o200,
                        execute: mode & 0o100 == 0o100,
                    },
                    group: Permissions {
                        read: mode & 0o040 == 0o040,
                        write: mode & 0o020 == 0o020,
                        execute: mode & 0o010 == 0o010,
                    },
                    other: Permissions {
                        read: mode & 0o004 == 0o004,
                        write: mode & 0o002 == 0o002,
                        execute: mode & 0o001 == 0o001,
                    },
                }
            },
            _ => Attributes {
                directory: false,
                file: false,
                symbolic: false,
                owner: Permissions { read: false, write: false, execute: false },
                group: Permissions { read: false, write: false, execute: false },
                other: Permissions { read: false, write: false, execute: false },
            },
        }
    }
}

} // verus!
