//! Decisions that turn an export into the size and access mode of its backing
//! store: the size a path reports, the block-device fallback for paths that
//! report none, and the effective read-only flag.

use vstd::prelude::*;
use crate::config::ExportConfig;
use crate::error::HandshakeError;

verus! {

/// The largest block count whose size in bytes, at 512 bytes a block, fits in a `u64`.
pub const MAX_BLOCKS: u64 = 36028797018963967;

/// The size of one block in the operating system's block-count metadata.
pub const BLOCK_BYTES: u64 = 512;

/// The namespace of device files, as a path prefix.
pub open spec fn dev_prefix() -> Seq<char> {
    seq!['/', 'd', 'e', 'v', '/']
}

/// The device name of a canonical path under the device-file namespace
/// (`/dev/sda` names `sda`), or `None` for any other path.
pub open spec fn device_name(p: Seq<char>) -> Option<Seq<char>> {
    if p.len() > 5 && p.subrange(0, 5) == dev_prefix() {
        Some(p.subrange(5, p.len() as int))
    } else {
        None
    }
}

/// The metadata file that holds the block count of device `dev`.
pub open spec fn block_count_path(dev: Seq<char>) -> Seq<char> {
    seq!['/', 's', 'y', 's', '/', 'c', 'l', 'a', 's', 's', '/', 'b', 'l', 'o', 'c', 'k', '/'] + dev
        + seq!['/', 's', 'i', 'z', 'e']
}

/// Whether `c` is white space in the Unicode sense, as text trimming counts it.
pub open spec fn is_white_space(c: char) -> bool {
    let u = c as u32;
    (9 <= u <= 13) || u == 32 || u == 0x85 || u == 0xa0 || u == 0x1680 || (0x2000 <= u <= 0x200a)
        || u == 0x2028 || u == 0x2029 || u == 0x202f || u == 0x205f || u == 0x3000
}

/// `s` without its leading white space.
pub open spec fn trim_start(s: Seq<char>) -> Seq<char>
    decreases s.len(),
{
    if s.len() > 0 && is_white_space(s[0]) {
        trim_start(s.subrange(1, s.len() as int))
    } else {
        s
    }
}

/// `s` without its trailing white space.
pub open spec fn trim_end(s: Seq<char>) -> Seq<char>
    decreases s.len(),
{
    if s.len() > 0 && is_white_space(s.last()) {
        trim_end(s.drop_last())
    } else {
        s
    }
}

/// `s` without white space at either end.
pub open spec fn trim(s: Seq<char>) -> Seq<char> {
    trim_end(trim_start(s))
}

/// The digits of an unsigned number's text: an optional leading `+` is dropped.
pub open spec fn unsigned_digits(s: Seq<char>) -> Seq<char> {
    if s.len() > 0 && s[0] == '+' {
        s.subrange(1, s.len() as int)
    } else {
        s
    }
}

/// Whether `c` is an ASCII decimal digit.
pub open spec fn is_digit(c: char) -> bool {
    48 <= (c as u32) <= 57
}

/// Whether every character of `s` is an ASCII decimal digit.
pub open spec fn all_digits(s: Seq<char>) -> bool {
    forall|i: int| 0 <= i < s.len() ==> is_digit(#[trigger] s[i])
}

/// The number that a string of decimal digits writes.
pub open spec fn digits_value(s: Seq<char>) -> nat
    decreases s.len(),
{
    if s.len() == 0 {
        0
    } else {
        digits_value(s.drop_last()) * 10 + ((s.last() as u32) - 48) as nat
    }
}

/// The size in bytes that the text of a block-count metadata file gives: the
/// trimmed text must be an unsigned decimal number, and the count times 512
/// must fit in a `u64`.
pub open spec fn block_count_bytes(content: Seq<char>) -> Option<u64> {
    let d = unsigned_digits(trim(content));
    if d.len() > 0 && all_digits(d) && digits_value(d) <= MAX_BLOCKS {
        Some((digits_value(d) * 512) as u64)
    } else {
        None
    }
}

proof fn lemma_digits_value_prefix(s: Seq<char>, j: int)
    requires
        all_digits(s),
        0 <= j <= s.len(),
    ensures
        digits_value(s.subrange(0, j)) <= digits_value(s),
    decreases s.len(),
{
    if j < s.len() {
        let t = s.drop_last();
        assert(t.subrange(0, j) =~= s.subrange(0, j));
        assert(all_digits(t)) by {
            assert forall|i: int| 0 <= i < t.len() implies is_digit(#[trigger] t[i]) by {
                assert(t[i] == s[i]);
            }
        }
        lemma_digits_value_prefix(t, j);
    } else {
        assert(s.subrange(0, j) =~= s);
    }
}

/// The path of the metadata file that holds the block count of the device
/// that a canonical path names, or `None` when the path is not under the
/// device-file namespace.
pub fn block_count_file(canonical: &str) -> (r: Option<String>)
    ensures
        match device_name(canonical@) {
            Some(dev) => r is Some && r->0@ == block_count_path(dev),
            None => r is None,
        },
{
    let n = canonical.unicode_len();
    if n <= 5 {
        return None;
    }
    let prefix = canonical.substring_char(0, 5);
    proof {
        reveal_strlit("/dev/");
    }
    let dev = "/dev/";
    if prefix.get_char(0) != dev.get_char(0) || prefix.get_char(1) != dev.get_char(1)
        || prefix.get_char(2) != dev.get_char(2) || prefix.get_char(3) != dev.get_char(3)
        || prefix.get_char(4) != dev.get_char(4) {
        proof {
            if device_name(canonical@) is Some {
                assert(prefix@ =~= dev_prefix());
            }
        }
        return None;
    }
    assert(prefix@ =~= dev_prefix());
    let name = canonical.substring_char(5, n);
    let mut path = "/sys/class/block/".to_owned();
    path.append(name);
    path.append("/size");
    proof {
        reveal_strlit("/sys/class/block/");
        reveal_strlit("/size");
        assert(path@ =~= block_count_path(canonical@.subrange(5, n as int)));
    }
    Some(path)
}

/// The size in bytes that the text of a block-count metadata file gives, or
/// `None` when the text is no unsigned decimal number or the size does not
/// fit in a `u64`.
pub fn parse_block_count(content: &str) -> (r: Option<u64>)
    ensures
        r == block_count_bytes(content@),
{
    let n = content.unicode_len();
    let ghost s = content@;
    let mut a: usize = 0;
    assert(s.subrange(0, n as int) =~= s);
    while a < n && is_space(content.get_char(a))
        invariant
            a <= n,
            n == s.len(),
            s == content@,
            trim_start(s) == trim_start(s.subrange(a as int, n as int)),
        decreases n - a,
    {
        assert(s.subrange(a as int, n as int).subrange(1, n - a) =~= s.subrange(a + 1, n as int));
        a = a + 1;
    }
    assert(trim_start(s) == s.subrange(a as int, n as int));
    let mut b: usize = n;
    while b > a && is_space(content.get_char(b - 1))
        invariant
            a <= b <= n,
            n == s.len(),
            s == content@,
            trim(s) == trim_end(s.subrange(a as int, b as int)),
        decreases b,
    {
        assert(s.subrange(a as int, b as int).drop_last() =~= s.subrange(a as int, b - 1));
        b = b - 1;
    }
    assert(trim(s) == s.subrange(a as int, b as int));
    let mut start: usize = a;
    if b > a && content.get_char(a) == '+' {
        start = a + 1;
    }
    let ghost d = s.subrange(start as int, b as int);
    assert(unsigned_digits(trim(s)) =~= d);
    if start == b {
        return None;
    }
    let mut acc: u64 = 0;
    let mut i: usize = start;
    while i < b
        invariant
            start <= i <= b <= n,
            n == s.len(),
            s == content@,
            d == s.subrange(start as int, b as int),
            unsigned_digits(trim(s)) == d,
            acc as nat == digits_value(d.subrange(0, i - start)),
            all_digits(d.subrange(0, i - start)),
            acc <= MAX_BLOCKS,
        decreases b - i,
    {
        let u = content.get_char(i) as u32;
        assert(d[i - start] == s[i as int]);
        if u < 48 || u > 57 {
            assert(!is_digit(d[i - start]));
            return None;
        }
        let next = acc * 10 + (u - 48) as u64;
        assert(d.subrange(0, i + 1 - start).drop_last() =~= d.subrange(0, i - start));
        assert(d.subrange(0, i + 1 - start).last() == d[i - start]);
        assert(next as nat == digits_value(d.subrange(0, i + 1 - start)));
        assert(all_digits(d.subrange(0, i + 1 - start))) by {
            assert forall|j: int| 0 <= j < i + 1 - start implies is_digit(
                #[trigger] d.subrange(0, i + 1 - start)[j],
            ) by {
                if j < i - start {
                    assert(d.subrange(0, i + 1 - start)[j] == d.subrange(0, i - start)[j]);
                }
            }
        }
        if next > MAX_BLOCKS {
            proof {
                if all_digits(d) {
                    lemma_digits_value_prefix(d, i + 1 - start);
                }
            }
            return None;
        }
        acc = next;
        i = i + 1;
    }
    assert(d.subrange(0, i - start) =~= d);
    Some(acc * BLOCK_BYTES)
}

/// Whether `c` is white space; see `is_white_space`.
fn is_space(c: char) -> (r: bool)
    ensures
        r == is_white_space(c),
{
    let u = c as u32;
    (9 <= u && u <= 13) || u == 32 || u == 0x85 || u == 0xa0 || u == 0x1680 || (0x2000 <= u && u
        <= 0x200a) || u == 0x2028 || u == 0x2029 || u == 0x202f || u == 0x205f || u == 0x3000
}

/// What the resolver learns of a backing store before opening it: its size,
/// its effective access mode, and the optional capabilities it advertises,
/// which a pass-through file never has.
pub struct ExportMeta {
    pub size: u64,
    pub readonly: bool,
    pub resizeable: bool,
    pub rotational: bool,
    pub send_trim: bool,
    pub send_flush: bool,
}

/// The size that a path's own reported length settles: its length when it is
/// not zero; zero leaves the size to the block-device lookup.
pub open spec fn spec_size_from_length(len: u64) -> Option<u64> {
    if len != 0 {
        Some(len)
    } else {
        None
    }
}

/// The size that the block-device lookup finds for a canonical path, given
/// the text of its block-count file when that file could be read.
pub open spec fn spec_device_size(canonical: Seq<char>, block_count: Option<Seq<char>>) -> Option<u64> {
    match (device_name(canonical), block_count) {
        (Some(_), Some(text)) => block_count_bytes(text),
        _ => None,
    }
}

/// The view of an optional text.
pub open spec fn opt_view(t: Option<String>) -> Option<Seq<char>> {
    match t {
        Some(s) => Some(s@),
        None => None,
    }
}

/// The store description that an export yields for a given size when the
/// file system does or does not report the path as read-only.
pub open spec fn spec_meta(requested_readonly: bool, size: u64, fs_readonly: bool) -> ExportMeta {
    ExportMeta {
        size,
        readonly: requested_readonly || fs_readonly,
        resizeable: false,
        rotational: false,
        send_trim: false,
        send_flush: false,
    }
}

/// The size that a path's reported length settles, if it settles one: a
/// regular file reports its length; a length of zero asks for the
/// block-device lookup.
pub fn size_from_length(len: u64) -> (r: Option<u64>)
    ensures
        r == spec_size_from_length(len),
{
    if len != 0 {
        Some(len)
    } else {
        None
    }
}

/// The size of the device that a canonical path names, from the text of its
/// block-count file (`None` where it could not be read), or the unknown-size
/// error naming the canonical path.
pub fn device_size(canonical: String, block_count: Option<String>) -> (r: Result<u64, HandshakeError>)
    ensures
        match spec_device_size(canonical@, opt_view(block_count)) {
            Some(size) => r == Ok::<u64, HandshakeError>(size),
            None => r == Err::<u64, HandshakeError>(HandshakeError::UnknownSize(canonical)),
        },
{
    match block_count_file(canonical.as_str()) {
        None => Err(HandshakeError::UnknownSize(canonical)),
        Some(_) => match block_count {
            None => Err(HandshakeError::UnknownSize(canonical)),
            Some(text) => match parse_block_count(text.as_str()) {
                Some(size) => Ok(size),
                None => Err(HandshakeError::UnknownSize(canonical)),
            },
        },
    }
}

impl ExportConfig {
    /// The store description of this export at `size` bytes: read-only when
    /// the export asks for it or the file system reports the path read-only,
    /// with no optional capability.
    pub fn meta(&self, size: u64, fs_readonly: bool) -> (r: ExportMeta)
        ensures
            r == spec_meta(self.readonly, size, fs_readonly),
    {
        ExportMeta {
            size,
            readonly: self.readonly || fs_readonly,
            resizeable: false,
            rotational: false,
            send_trim: false,
            send_flush: false,
        }
    }
}

/// A path that reports a length other than zero is served at exactly that
/// length, and no block-device lookup is asked for.
pub proof fn regular_file_size_is_its_length(len: u64)
    requires
        len != 0,
    ensures
        spec_size_from_length(len) == Some(len),
{
}

/// A canonical path outside the device-file namespace has no block-device
/// size, whatever text is offered as its block count: a path that reports a
/// length of zero there fails with the unknown-size error, never with size 0.
pub proof fn zero_length_outside_devices_has_no_size(canonical: Seq<char>, block_count: Option<Seq<char>>)
    requires
        device_name(canonical) is None,
    ensures
        spec_size_from_length(0) is None,
        spec_device_size(canonical, block_count) is None,
{
}

/// A file that the file system reports read-only is served read-only, even
/// where the export did not ask for it; the size is kept.
pub proof fn readonly_file_is_served_readonly(requested_readonly: bool, size: u64)
    ensures
        spec_meta(requested_readonly, size, true).readonly,
        spec_meta(requested_readonly, size, true).size == size,
        spec_meta(false, size, false).readonly == false,
{
}

} // verus!
