//! Device numbers: how a path under `/dev` names one.
use crate::text_num::{parse_decimal_u64, parse_num};
use vstd::prelude::*;
use vstd::utf8::encode_utf8;

verus! {

/// The file type of a block device, among the bits of a file's mode.
pub const S_IFBLK: u32 = 0o060000;

/// The file type of a character device.
pub const S_IFCHR: u32 = 0o020000;

/// The bits of a file's mode that hold its type.
pub const S_IFMT: u32 = 0o170000;

/// The error number for "no such device".
pub const ENODEV: i32 = 19;

/// The error number for "invalid argument".
pub const EINVAL: i32 = 22;

/// The error number for "not a typewriter": the mode is not that of a
/// device.
pub const ENOTTY: i32 = 25;

/// The device number made of a major and a minor number: of the major,
/// the twelve lowest bits go to bits 8 to 19 and the rest to bits 44 and
/// up; of the minor, the eight lowest bits stay and the rest go to bits
/// 20 and up.
pub open spec fn makedev_spec(major: u64, minor: u64) -> u64 {
    ((major & 0xffff_f000) << 32) | ((major & 0x0000_0fff) << 8) | ((minor & 0xffff_ff00) << 12) | (
    minor & 0x0000_00ff)
}

/// The major number in a device number.
pub open spec fn major_spec(dev: u64) -> u64 {
    ((dev >> 32) & 0xffff_f000) | ((dev >> 8) & 0x0000_0fff)
}

/// The minor number in a device number.
pub open spec fn minor_spec(dev: u64) -> u64 {
    ((dev >> 12) & 0xffff_ff00) | (dev & 0x0000_00ff)
}

/// The device number for a major and a minor number.
pub fn makedev(major: u64, minor: u64) -> (dev: u64)
    ensures
        dev == makedev_spec(major, minor),
{
    ((major & 0xffff_f000) << 32) | ((major & 0x0000_0fff) << 8) | ((minor & 0xffff_ff00) << 12) | (
    minor & 0x0000_00ff)
}

/// The major number in a device number.
pub fn major(dev: u64) -> (r: u64)
    ensures
        r == major_spec(dev),
{
    ((dev >> 32) & 0xffff_f000) | ((dev >> 8) & 0x0000_0fff)
}

/// The minor number in a device number.
pub fn minor(dev: u64) -> (r: u64)
    ensures
        r == minor_spec(dev),
{
    ((dev >> 12) & 0xffff_ff00) | (dev & 0x0000_00ff)
}

/// The prefix of the paths that name block devices by number.
pub open spec fn block_prefix() -> Seq<u8> {
    seq![47u8, 100, 101, 118, 47, 98, 108, 111, 99, 107, 47]
}

/// The prefix of the paths that name character devices by number.
pub open spec fn char_prefix() -> Seq<u8> {
    seq![47u8, 100, 101, 118, 47, 99, 104, 97, 114, 47]
}

/// Whether `s` begins with `prefix`.
pub open spec fn starts_with(s: Seq<u8>, prefix: Seq<u8>) -> bool {
    s.len() >= prefix.len() && s.subrange(0, prefix.len() as int) == prefix
}

/// The place right after the last `/` among the first `upto` bytes, or
/// 0 where there is none.
pub open spec fn name_start(s: Seq<u8>, upto: int) -> int
    decreases upto,
{
    if upto <= 0 || upto > s.len() {
        0
    } else if s[upto - 1] == 47 {
        upto
    } else {
        name_start(s, upto - 1)
    }
}

/// The first place from `from` on that holds a colon, or the length.
pub open spec fn colon_pos(s: Seq<u8>, from: int) -> int
    decreases s.len() - from,
{
    if from < 0 || from >= s.len() {
        s.len() as int
    } else if s[from] == 58 {
        from
    } else {
        colon_pos(s, from + 1)
    }
}

/// A number of a device path: decimal, with or without a `+` in front.
pub open spec fn path_number(s: Seq<u8>) -> Option<nat> {
    if s.len() > 0 && s[0] == 43 {
        parse_num(s.skip(1), false, 0xffff_ffff_ffff_ffff)
    } else {
        parse_num(s, false, 0xffff_ffff_ffff_ffff)
    }
}

/// The file type and the device number that a path names. A path under
/// `/dev/block/` names a block device, one under `/dev/char/` a
/// character device, and any other no device. The last part of the path
/// gives the major number, a colon, and the minor number, which ends
/// with the text or at a further colon.
pub open spec fn parse_major_minor(path: Seq<u8>) -> Result<(u32, u64), i32> {
    if !starts_with(path, block_prefix()) && !starts_with(path, char_prefix()) {
        Err(ENODEV)
    } else {
        let mode = if starts_with(path, block_prefix()) {
            S_IFBLK
        } else {
            S_IFCHR
        };
        let start = name_start(path, path.len() as int);
        let first = colon_pos(path, start);
        let second = colon_pos(path, first + 1);
        if first >= path.len() {
            Err(EINVAL)
        } else {
            match (
                path_number(path.subrange(start, first)),
                path_number(path.subrange(first + 1, second)),
            ) {
                (Some(major), Some(minor)) => Ok(
                    (mode, makedev_spec(major as u64, minor as u64)),
                ),
                _ => Err(EINVAL),
            }
        }
    }
}

fn has_prefix(bytes: &[u8], prefix: &Vec<u8>) -> (r: bool)
    ensures
        r == starts_with(bytes@, prefix@),
{
    if bytes.len() < prefix.len() {
        return false;
    }
    let mut i: usize = 0;
    while i < prefix.len()
        invariant
            i <= prefix.len() <= bytes@.len(),
            forall|k: int| 0 <= k < i ==> bytes@[k] == prefix@[k],
        decreases prefix.len() - i,
    {
        if bytes[i] != prefix[i] {
            proof {
                assert(bytes@.subrange(0, prefix@.len() as int)[i as int] != prefix@[i as int]);
            }
            return false;
        }
        i += 1;
    }
    proof {
        assert(bytes@.subrange(0, prefix@.len() as int) =~= prefix@);
    }
    true
}

fn find_name_start(bytes: &[u8]) -> (r: usize)
    ensures
        r == name_start(bytes@, bytes@.len() as int),
        r <= bytes@.len(),
{
    let mut i: usize = bytes.len();
    while i > 0
        invariant
            i <= bytes@.len(),
            name_start(bytes@, bytes@.len() as int) == name_start(bytes@, i as int),
        decreases i,
    {
        if bytes[i - 1] == 47 {
            return i;
        }
        i -= 1;
    }
    0
}

fn find_colon(bytes: &[u8], from: usize) -> (r: usize)
    ensures
        r == colon_pos(bytes@, from as int),
        r <= bytes@.len(),
        from <= r || r == bytes@.len(),
{
    let mut i: usize = from;
    while i < bytes.len()
        invariant
            from <= i,
            colon_pos(bytes@, from as int) == colon_pos(bytes@, i as int),
        decreases bytes.len() - i,
    {
        if bytes[i] == 58 {
            return i;
        }
        i += 1;
    }
    bytes.len()
}

fn read_path_number(bytes: &[u8], start: usize, end: usize) -> (r: Option<u64>)
    requires
        start <= end <= bytes@.len(),
    ensures
        match r {
            Some(n) => path_number(bytes@.subrange(start as int, end as int)) == Some(n as nat),
            None => path_number(bytes@.subrange(start as int, end as int)) is None,
        },
{
    let ghost s = bytes@.subrange(start as int, end as int);
    let from = if start < end && bytes[start] == 43 {
        start + 1
    } else {
        start
    };
    proof {
        if start < end {
            assert(s[0] == bytes@[start as int]);
            assert(s.skip(1) =~= bytes@.subrange(start + 1, end as int));
        }
    }
    parse_decimal_u64(bytes, from, end)
}

/// Extracts the file type and the device number from the bytes of a
/// device path.
pub fn device_path_parse_major_minor_bytes(path: &[u8]) -> (r: Result<(u32, u64), i32>)
    ensures
        r == parse_major_minor(path@),
{
    let block: Vec<u8> = vec![47u8, 100, 101, 118, 47, 98, 108, 111, 99, 107, 47];
    let chr: Vec<u8> = vec![47u8, 100, 101, 118, 47, 99, 104, 97, 114, 47];
    proof {
        assert(block@ =~= block_prefix());
        assert(chr@ =~= char_prefix());
    }
    let mode = if has_prefix(path, &block) {
        S_IFBLK
    } else if has_prefix(path, &chr) {
        S_IFCHR
    } else {
        return Err(ENODEV);
    };
    let start = find_name_start(path);
    let first = find_colon(path, start);
    if first >= path.len() {
        return Err(EINVAL);
    }
    let second = find_colon(path, first + 1);
    let major = match read_path_number(path, start, first) {
        Some(n) => n,
        None => {
            return Err(EINVAL);
        },
    };
    let minor = match read_path_number(path, first + 1, second) {
        Some(n) => n,
        None => {
            return Err(EINVAL);
        },
    };
    Ok((mode, makedev(major, minor)))
}

/// Given a device path, extracts its file type and device number: for
/// `/dev/block/8:0`, the type of a block device and the number made of
/// 8 and 0.
pub fn device_path_parse_major_minor(path: String) -> (r: Result<(u32, u64), i32>)
    ensures
        r == parse_major_minor(encode_utf8(path@)),
{
    device_path_parse_major_minor_bytes(path.as_str().as_bytes())
}

/// A device number made of a major number up to 20 bits wide gives the
/// major number back.
pub proof fn lemma_major_of_makedev(major: u64, minor: u64)
    by (bit_vector)
    requires
        major <= 0xffff_ffff,
        minor <= 0xffff_ffff,
    ensures
        ((((major & 0xffff_f000) << 32) | ((major & 0x0000_0fff) << 8) | ((minor & 0xffff_ff00)
            << 12) | (minor & 0x0000_00ff)) >> 32) & 0xffff_f000 | ((((major & 0xffff_f000) << 32)
            | ((major & 0x0000_0fff) << 8) | ((minor & 0xffff_ff00) << 12) | (minor & 0x0000_00ff))
            >> 8) & 0x0000_0fff == major,
        ((((major & 0xffff_f000) << 32) | ((major & 0x0000_0fff) << 8) | ((minor & 0xffff_ff00)
            << 12) | (minor & 0x0000_00ff)) >> 12) & 0xffff_ff00 | (((major & 0xffff_f000) << 32)
            | ((major & 0x0000_0fff) << 8) | ((minor & 0xffff_ff00) << 12) | (minor & 0x0000_00ff))
            & 0x0000_00ff == minor,
{
}

/// Major and minor numbers that fit 32 bits are read back out of the
/// device number that is made of them.
pub proof fn lemma_makedev_round_trip(major: u64, minor: u64)
    requires
        major <= 0xffff_ffff,
        minor <= 0xffff_ffff,
    ensures
        major_spec(makedev_spec(major, minor)) == major,
        minor_spec(makedev_spec(major, minor)) == minor,
{
    lemma_major_of_makedev(major, minor);
}

} // verus!
