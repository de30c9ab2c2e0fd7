//! Initial ramdisk (initrd) support: locating the ramdisk from the device tree.
use vstd::prelude::*;
use crate::mm::addr::PhysAddr;
use crate::drivers::of_match::bytes_eq;
use vstd::string::StringSliceAdditionalSpecFns;
use vstd::slice::{slice_subrange, slice_to_vec};

verus! {

/// Errors related to the initrd.
#[derive(Debug, Clone, Copy, PartialEq, Eq, Structural)]
pub enum InitrdError {
    /// The initrd was not found in the device tree.
    NotFound,
}

impl InitrdError {
    /// A human-readable description of the error.
    pub fn message(&self) -> (r: &'static str)
        ensures
            r@ == "initrd not reference in FDT"@,
    {
        "initrd not reference in FDT"
    }
}

/// An initial ramdisk.
pub struct Initrd<'a> {
    data: &'a [u8],
}

impl<'a> Initrd<'a> {
    /// The contents of the ramdisk.
    pub closed spec fn data_spec(&self) -> Seq<u8> {
        self.data@
    }

    /// Creates an `Initrd` over the given data.
    pub fn new(data: &'a [u8]) -> (r: Self)
        ensures
            r.data_spec() == data@,
    {
        Initrd { data }
    }

    /// Returns the contents of the ramdisk.
    pub fn data(&self) -> (r: &'a [u8])
        ensures
            r@ == self.data_spec(),
    {
        self.data
    }

    /// Returns the contents of the file at `path` in the ramdisk, a `newc` cpio archive.
    ///
    /// The contents returned are the data of an entry of the archive: the `filesize` bytes
    /// that follow its header and padded name.
    pub fn find_file(&self, path: &str) -> (r: Option<Vec<u8>>)
        ensures
            match r {
                Some(d) => cpio_find(self.data_spec(), path.spec_bytes()) == Some(d@),
                None => cpio_find(self.data_spec(), path.spec_bytes()) is None,
            },
            r matches Some(d) ==> exists|off: int|
                0 <= off < self.data_spec().len() && #[trigger] newc_data(self.data_spec().skip(off)) == Some(d@),
    {
        let want = path.as_bytes();
        let mut rest: &[u8] = self.data;
        let ghost mut off: int = 0;
        proof {
            assert(self.data_spec().skip(0) =~= self.data_spec());
        }
        loop
            invariant
                want@ == path.spec_bytes(),
                cpio_find(rest@, want@) == cpio_find(self.data_spec(), want@),
                0 <= off <= self.data_spec().len(),
                rest@ == self.data_spec().skip(off),
            decreases rest@.len(),
        {
            match next_cpio_entry(rest) {
                None => {
                    return None;
                },
                Some((name, trailer, _copy, next)) => {
                    // The entry's data, taken from the archive where its header places it.
                    let data = match entry_data(rest) {
                        Some(d) => slice_to_vec(d),
                        None => {
                            return None;
                        },
                    };
                    proof {
                        let a = rest@;
                        let d = newc_data_start(a)->0;
                        let fs = newc_file_size(a)->0;
                        lemma_newc_field_nonneg(a, 94);
                        lemma_newc_field_nonneg(a, 54);
                        let x = if round4(d + fs) <= a.len() { round4(d + fs) } else { a.len() as int };
                        assert(0 <= x <= a.len());
                        assert(next@ == a.skip(x));
                        assert(next@ =~= self.data_spec().skip(off + x));
                        assert(x == rest@.len() - next@.len());
                    }
                    match match_cpio_entry(name, trailer, data, next, want) {
                        CpioStep::End => {
                            return None;
                        },
                        CpioStep::Found(d) => {
                            return Some(d);
                        },
                        CpioStep::Next(n) => {
                            proof {
                                off = off + (rest@.len() - n@.len());
                            }
                            rest = n;
                        },
                    }
                },
            }
        }
    }
}

/// What a search for one file does with an entry it has read.
pub enum CpioStep<'b> {
    /// The entry is the trailer: the archive holds no more files.
    End,
    /// The entry is the file searched for; its data.
    Found(Vec<u8>),
    /// The entry is another file; the search goes on in the rest of the archive.
    Next(&'b [u8]),
}

/// Decides what a search for the file named `want` does with an entry named `name` (the
/// trailer if `trailer`), holding `data`, that `rest` of the archive follows: the trailer
/// ends the search, a matching name gives the entry's data, any other entry moves on to
/// `rest`.
pub fn match_cpio_entry<'b>(name: Vec<u8>, trailer: bool, data: Vec<u8>, rest: &'b [u8], want: &[u8]) -> (r: CpioStep<'b>)
    ensures
        trailer ==> r is End,
        !trailer && name@ == want@ ==> (r matches CpioStep::Found(d) && d@ == data@),
        !trailer && name@ != want@ ==> (r matches CpioStep::Next(n) && n@ == rest@),
{
    if trailer {
        return CpioStep::End;
    }
    if bytes_eq(name.as_slice(), want) {
        return CpioStep::Found(data);
    }
    CpioStep::Next(rest)
}

/// What reading one `newc` entry from the start of `archive` gives: the entry's name (as
/// bytes), whether it is the trailer, its data, and the rest of the archive after it;
/// `None` when no entry can be read there.
pub uninterp spec fn cpio_entry(archive: Seq<u8>) -> Option<(Seq<u8>, bool, Seq<u8>, Seq<u8>)>;

/// The value of an ASCII hexadecimal digit.
pub open spec fn hex_digit(c: u8) -> Option<int> {
    if 48 <= c <= 57 {
        Some(c - 48)
    } else if 97 <= c <= 102 {
        Some(c - 87)
    } else if 65 <= c <= 70 {
        Some(c - 55)
    } else {
        None
    }
}

/// The value of a string of hexadecimal digits, most significant first.
pub open spec fn hex_value(s: Seq<u8>) -> Option<int>
    decreases s.len(),
{
    if s.len() == 0 {
        Some(0)
    } else {
        match (hex_value(s.drop_last()), hex_digit(s.last())) {
            (Some(v), Some(d)) => Some(v * 16 + d),
            _ => None,
        }
    }
}

/// The number held by the 8-byte hexadecimal field at `off` of a `newc` header, which may
/// start with a `+` sign.
pub open spec fn newc_field(a: Seq<u8>, off: int) -> Option<int> {
    let f = a.subrange(off, off + 8);
    if f[0] == 43 {
        hex_value(f.drop_first())
    } else {
        hex_value(f)
    }
}

/// `x` rounded up to a multiple of 4.
pub open spec fn round4(x: int) -> int {
    (x + 3) / 4 * 4
}

/// Where the data of the `newc` entry at the start of `a` begins: after the 110-byte header
/// and the name (of the size the header's `namesize` field gives), padded to a multiple of 4.
pub open spec fn newc_data_start(a: Seq<u8>) -> Option<int> {
    if a.len() < 110 {
        None
    } else {
        match newc_field(a, 94) {
            Some(ns) => Some(round4(110 + ns)),
            None => None,
        }
    }
}

/// The size of the file of the `newc` entry at the start of `a`, from its `filesize` field.
pub open spec fn newc_file_size(a: Seq<u8>) -> Option<int> {
    if a.len() < 110 {
        None
    } else {
        newc_field(a, 54)
    }
}

/// The data of the `newc` entry at the start of `a`: the `filesize` bytes after the padded
/// name (as many of them as `a` holds).
pub open spec fn newc_data(a: Seq<u8>) -> Option<Seq<u8>> {
    match (newc_data_start(a), newc_file_size(a)) {
        (Some(d), Some(fs)) => if d <= a.len() {
            Some(a.subrange(d, if d + fs <= a.len() { d + fs } else { a.len() as int }))
        } else {
            None
        },
        _ => None,
    }
}

/// The rest of the archive after the `newc` entry at the start of `a`: what follows its data
/// padded to a multiple of 4 (nothing, if `a` ends first).
pub open spec fn newc_rest(a: Seq<u8>) -> Option<Seq<u8>> {
    match (newc_data_start(a), newc_file_size(a)) {
        (Some(d), Some(fs)) => Some(a.skip(if round4(d + fs) <= a.len() { round4(d + fs) } else { a.len() as int })),
        _ => None,
    }
}

/// Reads the 8-byte hexadecimal field at `off` of a `newc` header.
fn parse_newc_field(a: &[u8], off: usize) -> (r: Option<u32>)
    requires
        off + 8 <= a@.len(),
    ensures
        match r {
            Some(v) => newc_field(a@, off as int) == Some(v as int),
            None => newc_field(a@, off as int) is None,
        },
{
    let n = a.len();
    let stop = off + 8;
    let ghost f = a@.subrange(off as int, off + 8);
    let start: usize = if a[off] == 43u8 { off + 1 } else { off };
    let ghost digits = a@.subrange(start as int, off + 8);
    proof {
        if a[off as int] == 43u8 {
            assert(digits =~= f.drop_first());
        } else {
            assert(digits =~= f);
        }
    }
    let mut v: u32 = 0;
    let mut i: usize = start;
    while i < stop
        invariant
            stop == off + 8,
            off + 8 <= a@.len(),
            newc_field(a@, off as int) == hex_value(digits),
            start <= i <= off + 8,
            start >= off,
            digits == a@.subrange(start as int, off + 8),
            hex_value(a@.subrange(start as int, i as int)) == Some(v as int),
            v < pow16((i - start) as int),
            i - start <= 8,
        decreases stop - i,
    {
        let c = a[i];
        let d: u32 = if 48u8 <= c && c <= 57u8 {
            (c - 48u8) as u32
        } else if 97u8 <= c && c <= 102u8 {
            (c - 87u8) as u32
        } else if 65u8 <= c && c <= 70u8 {
            (c - 55u8) as u32
        } else {
            proof {
                lemma_hex_value_prefix(digits, (i - start) as int);
                assert(a@.subrange(start as int, i + 1).drop_last() =~= a@.subrange(start as int, i as int));
                assert(digits.subrange(0, i + 1 - start) =~= a@.subrange(start as int, i + 1));
            }
            return None;
        };
        proof {
            assert(a@.subrange(start as int, i + 1).drop_last() =~= a@.subrange(start as int, i as int));
            assert(a@.subrange(start as int, i + 1).last() == c);
            lemma_pow16_bound((i + 1 - start) as int);
            assert(pow16((i + 1 - start) as int) == pow16((i - start) as int) * 16);
            assert(v * 16 + d < pow16((i + 1 - start) as int)) by (nonlinear_arith)
                requires v < pow16((i - start) as int), d < 16, pow16((i + 1 - start) as int) == pow16((i - start) as int) * 16;
        }
        v = v * 16 + d;
        i += 1;
    }
    proof {
        assert(a@.subrange(start as int, off + 8) == digits);
    }
    Some(v)
}

/// A header field that parses holds a non-negative number.
proof fn lemma_newc_field_nonneg(a: Seq<u8>, off: int)
    ensures
        newc_field(a, off) matches Some(v) ==> v >= 0,
{
    let f = a.subrange(off, off + 8);
    lemma_hex_value_nonneg(f);
    lemma_hex_value_nonneg(f.drop_first());
}

/// A string of hexadecimal digits has a non-negative value.
proof fn lemma_hex_value_nonneg(s: Seq<u8>)
    ensures
        hex_value(s) matches Some(v) ==> v >= 0,
    decreases s.len(),
{
    if s.len() > 0 {
        lemma_hex_value_nonneg(s.drop_last());
    }
}

/// `16^i`.
pub open spec fn pow16(i: int) -> int
    decreases i,
{
    if i <= 0 {
        1
    } else {
        pow16(i - 1) * 16
    }
}

/// `16^i` is at most `2^32` for `i <= 8`.
proof fn lemma_pow16_bound(i: int)
    requires
        0 <= i <= 8,
    ensures
        1 <= pow16(i) <= 0x1_0000_0000,
{
    reveal_with_fuel(pow16, 9);
}

/// A string with a non-digit among its first `k + 1` bytes has no value.
proof fn lemma_hex_value_prefix(s: Seq<u8>, k: int)
    requires
        0 <= k < s.len(),
        hex_digit(s[k]) is None,
    ensures
        hex_value(s.subrange(0, k + 1)) is None,
        hex_value(s) is None,
    decreases s.len(),
{
    assert(s.subrange(0, k + 1).last() == s[k]);
    if k + 1 < s.len() {
        lemma_hex_value_prefix(s.drop_last(), k);
        assert(s.drop_last().subrange(0, k + 1) =~= s.subrange(0, k + 1));
    } else {
        assert(s.subrange(0, k + 1) =~= s);
    }
}

/// The data of the `newc` entry at the start of `a`, read from the header's `namesize` and
/// `filesize` fields.
pub fn entry_data(a: &[u8]) -> (r: Option<&[u8]>)
    ensures
        match r {
            Some(d) => newc_data(a@) == Some(d@),
            None => newc_data(a@) is None,
        },
{
    if a.len() < 110 {
        return None;
    }
    let ns = match parse_newc_field(a, 94) {
        Some(v) => v as usize,
        None => {
            return None;
        },
    };
    let fs = match parse_newc_field(a, 54) {
        Some(v) => v as usize,
        None => {
            return None;
        },
    };
    if ns > a.len() - 110 {
        return None;
    }
    let t = 110 + ns;
    let pad = (4 - t % 4) % 4;
    if pad > a.len() - t {
        return None;
    }
    let d = t + pad;
    assert(d == round4(t as int));
    let end = if fs <= a.len() - d { d + fs } else { a.len() };
    Some(slice_subrange(a, d, end))
}

/// The data of the first entry named `path` in `archive`, looking no further than the
/// trailer or the first entry that cannot be read.
pub open spec fn cpio_find(archive: Seq<u8>, path: Seq<u8>) -> Option<Seq<u8>>
    decreases archive.len(),
{
    match cpio_entry(archive) {
        None => None,
        Some((name, trailer, data, rest)) => if trailer {
            None
        } else if name == path {
            Some(data)
        } else if rest.len() < archive.len() {
            cpio_find(rest, path)
        } else {
            None
        },
    }
}

/// Reads one entry at the start of `archive` with the `cpio` crate: `NewcReader::new` parses
/// the header and name, the entry's data is read through the reader (`Read::take`,
/// `read_to_end`), and `finish` returns the rest of the archive.
///
/// Claims that the result is [`cpio_entry`] of the archive bytes and, when an entry is read:
/// that what remains is shorter than the archive (the crate consumes the 110-byte header
/// before anything else); that the data is the `filesize` bytes after the header and the name
/// padded to a multiple of 4, as many as the archive holds ([`newc_data`]; `Reader::read`
/// stops at `filesize`); and that the rest starts after the data padded to a multiple of 4
/// ([`newc_rest`]; `finish` skips what was not read and the padding). Which bytes make a
/// valid entry is left to the crate.
#[verifier::external_body]
fn next_cpio_entry<'b>(archive: &'b [u8]) -> (r: Option<(Vec<u8>, bool, Vec<u8>, &'b [u8])>)
    ensures
        match r {
            Some(e) => cpio_entry(archive@) == Some((e.0@, e.1, e.2@, e.3@)) && e.3@.len() < archive@.len()
                && newc_data(archive@) == Some(e.2@) && newc_rest(archive@) == Some(e.3@),
            None => cpio_entry(archive@) is None,
        },
{
    let mut reader = cpio::NewcReader::new(archive).ok()?;
    let name = reader.entry().name().as_bytes().to_vec();
    let trailer = reader.entry().is_trailer();
    let size = reader.entry().file_size() as u64;
    let mut data = Vec::new();
    std::io::Read::read_to_end(&mut std::io::Read::take(&mut reader, size), &mut data).ok()?;
    let rest = reader.finish().ok()?;
    Some((name, trailer, data, rest))
}

/// The address held by a device-tree property made of two big-endian 32-bit cells, high
/// cell first; `None` unless the property is exactly 8 bytes long.
pub open spec fn cell_pair(p: Seq<u8>) -> Option<u64> {
    if p.len() == 8 {
        Some(cell_prefix(p, 8) as u64)
    } else {
        None
    }
}

/// Decodes a property made of two big-endian 32-bit cells, high cell first.
pub fn decode_cell_pair(p: &[u8]) -> (r: Option<u64>)
    ensures
        r == cell_pair(p@),
{
    if p.len() != 8 {
        return None;
    }
    let mut v: u64 = 0;
    let mut i: usize = 0;
    while i < 8
        invariant
            p@.len() == 8,
            i <= 8,
            v == cell_prefix(p@, i as int),
            v < pow256(i as int),
        decreases 8 - i,
    {
        proof {
            assert(v * 256 + p@[i as int] < pow256(i + 1)) by (nonlinear_arith)
                requires v < pow256(i as int), p@[i as int] < 256, pow256(i + 1) == pow256(i as int) * 256;
            lemma_pow256_bound(i + 1);
        }
        v = v * 256 + p[i] as u64;
        i += 1;
    }
    proof {
        reveal_with_fuel(cell_prefix, 9);
    }
    Some(v)
}

/// The big-endian value of the first `i` bytes of `p`.
pub open spec fn cell_prefix(p: Seq<u8>, i: int) -> int
    decreases i,
{
    if i <= 0 {
        0
    } else {
        cell_prefix(p, i - 1) * 256 + p[i - 1]
    }
}

/// `256^i` is at most `2^64` for `i <= 8`.
proof fn lemma_pow256_bound(i: int)
    requires
        0 <= i <= 8,
    ensures
        pow256(i) <= 0x1_0000_0000_0000_0000,
        pow256(i) >= 1,
{
    reveal_with_fuel(pow256, 9);
}

/// `256^i`.
pub open spec fn pow256(i: int) -> int
    decreases i,
{
    if i <= 0 {
        1
    } else {
        pow256(i - 1) * 256
    }
}

/// Locates the initrd from the `linux,initrd-start` and `linux,initrd-end` properties of the
/// device tree's `/chosen` node: its physical start and its length.
///
/// Each property must hold two 32-bit cells; a missing or malformed property, or an end
/// below the start, means there is no initrd.
pub fn initrd_range(start: Option<&[u8]>, end: Option<&[u8]>) -> (r: Result<(PhysAddr, usize), InitrdError>)
    ensures
        match (start, end) {
            (Some(s), Some(e)) => match (cell_pair(s@), cell_pair(e@)) {
                (Some(a), Some(b)) => if a <= b && b <= usize::MAX {
                    r matches Ok((pa, len)) && pa@ == a && len == b - a
                } else {
                    r == Err::<(PhysAddr, usize), InitrdError>(InitrdError::NotFound)
                },
                _ => r == Err::<(PhysAddr, usize), InitrdError>(InitrdError::NotFound),
            },
            _ => r == Err::<(PhysAddr, usize), InitrdError>(InitrdError::NotFound),
        },
{
    let s = match start {
        Some(p) => decode_cell_pair(p),
        None => None,
    };
    let e = match end {
        Some(p) => decode_cell_pair(p),
        None => None,
    };
    match (s, e) {
        (Some(a), Some(b)) => {
            if a <= b && b <= usize::MAX as u64 {
                Ok((PhysAddr::new_unchecked(a as usize), (b - a) as usize))
            } else {
                Err(InitrdError::NotFound)
            }
        },
        _ => Err(InitrdError::NotFound),
    }
}

} // verus!
