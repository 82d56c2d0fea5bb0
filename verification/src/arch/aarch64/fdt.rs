//! Reading a flattened devicetree: header, memory reservations, nodes and
//! properties.
//!
//! A blob is one block of bytes: a 40-byte header, the memory reserve map, the
//! structure block (a token stream that encodes the tree) and the string block
//! (property names). All integers are big-endian. Every read is checked against
//! the blob's own size, so a corrupt blob gives `None`, never a wild read.

use crate::text::{bytes_eq, contains, from_utf8, position};
use vstd::prelude::*;
use vstd::slice::{slice_subrange, slice_to_vec};

verus! {

/// Starts a node; its NUL-terminated name follows, padded to 4 bytes.
pub const FDT_BEGIN_NODE: u32 = 0x1;

/// Ends the most recent open node.
pub const FDT_END_NODE: u32 = 0x2;

/// A property: length, name offset and data follow, padded to 4 bytes.
pub const FDT_PROP: u32 = 0x3;

/// Nothing; skipped.
pub const FDT_NOP: u32 = 0x4;

/// Ends the structure block.
pub const FDT_END: u32 = 0x9;

/// The first header word of every blob.
pub const FDT_MAGIC: u32 = 0xd00d_feed;

/// The size of the header in bytes.
pub const HEADER_SIZE: u32 = 40;

/// The big-endian 32-bit number at `off`.
pub open spec fn be32(b: Seq<u8>, off: int) -> u32 {
    (b[off] * 0x100_0000 + b[off + 1] * 0x1_0000 + b[off + 2] * 0x100 + b[off + 3]) as u32
}

/// The big-endian 64-bit number at `off`.
pub open spec fn be64(b: Seq<u8>, off: int) -> u64 {
    (be32(b, off) * 0x1_0000_0000 + be32(b, off + 4)) as u64
}

pub open spec fn totalsize(b: Seq<u8>) -> int {
    be32(b, 4) as int
}

pub open spec fn off_dt_struct(b: Seq<u8>) -> int {
    be32(b, 8) as int
}

pub open spec fn off_dt_strings(b: Seq<u8>) -> int {
    be32(b, 12) as int
}

pub open spec fn off_mem_rsvmap(b: Seq<u8>) -> int {
    be32(b, 16) as int
}

pub open spec fn boot_cpuid_phys(b: Seq<u8>) -> u32 {
    be32(b, 28)
}

pub open spec fn strings_end(b: Seq<u8>) -> int {
    off_dt_strings(b) + be32(b, 32)
}

pub open spec fn struct_end(b: Seq<u8>) -> int {
    off_dt_struct(b) + be32(b, 36)
}

/// The blob starts with a header whose claims fit the blob: the right magic
/// number, a size that covers the header and no more than is there, and the
/// structure and string blocks inside it, the former behind the header.
pub open spec fn valid_header(b: Seq<u8>) -> bool {
    &&& b.len() >= 8
    &&& be32(b, 0) == FDT_MAGIC
    &&& HEADER_SIZE <= totalsize(b) <= b.len()
    &&& struct_end(b) <= totalsize(b)
    &&& strings_end(b) <= totalsize(b)
    &&& off_dt_struct(b) >= HEADER_SIZE
}

/// The token at `off`, if it lies in the blob.
pub open spec fn word_at(b: Seq<u8>, off: int) -> Option<u32> {
    if 0 <= off && off + 4 <= totalsize(b) {
        Some(be32(b, off))
    } else {
        None
    }
}

/// The 64-bit number at `off`, if it lies in the blob.
pub open spec fn dword_at(b: Seq<u8>, off: int) -> Option<u64> {
    if 0 <= off && off + 8 <= totalsize(b) {
        Some(be64(b, off))
    } else {
        None
    }
}

/// The bytes of the NUL-terminated string at `off`, if its terminator comes
/// before `limit` and the bytes are UTF-8.
pub open spec fn cstr_at(b: Seq<u8>, off: int, limit: int) -> Option<Seq<u8>> {
    let s = b.subrange(off, limit);
    let n = crate::text::byte_position(s, 0);
    if off < limit && n < s.len() && vstd::utf8::valid_utf8(s.take(n as int)) {
        Some(s.take(n as int))
    } else {
        None
    }
}

/// The property name at offset `nameoff` of the string block.
pub open spec fn string_at(b: Seq<u8>, nameoff: u32) -> Option<Seq<u8>> {
    cstr_at(b, off_dt_strings(b) + nameoff, strings_end(b))
}

/// `n` rounded up to a multiple of four.
pub open spec fn pad4(n: int) -> int {
    (n + 3) / 4 * 4
}

/// The full name of the node at `off`, if it is readable.
pub open spec fn node_name(b: Seq<u8>, off: int) -> Option<Seq<u8>> {
    cstr_at(b, off + 4, totalsize(b))
}

/// The text of optional bytes; nothing is the empty text.
pub open spec fn text_of(bytes: Option<Seq<u8>>) -> Seq<char> {
    match bytes {
        Some(s) => vstd::utf8::decode_utf8(s),
        None => Seq::empty(),
    }
}

/// The bytes of the node's name, or none at all if it is not readable.
pub open spec fn full_name_bytes(b: Seq<u8>, off: int) -> Seq<u8> {
    match node_name(b, off) {
        Some(s) => s,
        None => Seq::empty(),
    }
}

/// A node's name before its unit address.
pub open spec fn bare_name(full: Seq<u8>) -> Seq<u8> {
    full.take(crate::text::byte_position(full, 0x40) as int)
}

/// One memory reservation.
#[derive(Clone, Copy, PartialEq, Eq, Structural, Debug)]
pub struct ReserveEntry {
    /// Physical address of the reserved region.
    pub address: u64,
    /// Size in bytes.
    pub size: u64,
}

/// A node: the offset of the token that opens it.
#[derive(Clone, Copy, PartialEq, Eq, Structural, Debug)]
pub struct Node {
    offset: u32,
}

impl View for Node {
    type V = int;

    closed spec fn view(&self) -> int {
        self.offset as int
    }
}

/// A devicetree reader: a blob whose header has been checked.
pub struct Fdtr<'a> {
    blob: &'a [u8],
    totalsize: u32,
    off_dt_struct: u32,
    off_dt_strings: u32,
    off_mem_rsvmap: u32,
    boot_cpuid_phys: u32,
    size_dt_strings: u32,
    size_dt_struct: u32,
}

impl<'a> View for Fdtr<'a> {
    type V = Seq<u8>;

    closed spec fn view(&self) -> Seq<u8> {
        self.blob@
    }
}

/// Read the big-endian 32-bit number at `off`, if all of it lies below `limit`.
pub(crate) fn read_be_u32(blob: &[u8], off: u64, limit: u64) -> (r: Option<u32>)
    requires
        limit <= blob@.len(),
    ensures
        r == (if off + 4 <= limit {
            Some(be32(blob@, off as int))
        } else {
            None
        }),
{
    if limit < 4 || off > limit - 4 {
        return None;
    }
    let i: usize = off as usize;
    Some(
        blob[i] as u32 * 0x100_0000 + blob[i + 1] as u32 * 0x1_0000 + blob[i + 2] as u32 * 0x100
            + blob[i + 3] as u32,
    )
}

/// Read the big-endian 64-bit number at `off`, if all of it lies below `limit`.
pub(crate) fn read_be_u64(blob: &[u8], off: u64, limit: u64) -> (r: Option<u64>)
    requires
        limit <= blob@.len(),
    ensures
        r == (if off + 8 <= limit {
            Some(be64(blob@, off as int))
        } else {
            None
        }),
{
    if limit < 8 || off > limit - 8 {
        return None;
    }
    match (read_be_u32(blob, off, limit), read_be_u32(blob, off + 4, limit)) {
        (Some(hi), Some(lo)) => Some(hi as u64 * 0x1_0000_0000 + lo as u64),
        _ => None,
    }
}

/// Read the NUL-terminated string at `off`, if it ends before `limit` and is
/// UTF-8.
fn read_cstr<'b>(blob: &'b [u8], off: u64, limit: u64) -> (r: Option<&'b str>)
    requires
        limit <= blob@.len(),
    ensures
        r is Some == cstr_at(blob@, off as int, limit as int) is Some,
        r matches Some(s) ==> s@ == text_of(cstr_at(blob@, off as int, limit as int))
            && vstd::utf8::encode_utf8(s@) == cstr_at(blob@, off as int, limit as int)->Some_0,
{
    if off >= limit {
        return None;
    }
    assert(limit <= blob.len());
    let s = slice_subrange(blob, off as usize, limit as usize);
    let n: usize = position(s, 0);
    if n >= s.len() {
        return None;
    }
    let bytes = slice_subrange(s, 0, n);
    proof {
        assert(bytes@ =~= s@.take(n as int));
        if vstd::utf8::valid_utf8(bytes@) {
            vstd::utf8::decode_utf8_encode_utf8(bytes@);
        }
    }
    from_utf8(bytes)
}

impl<'a> Fdtr<'a> {
    /// The cached header is the blob's, and it is valid.
    #[verifier::type_invariant]
    spec fn type_inv(self) -> bool {
        let b = self.blob@;
        &&& valid_header(b)
        &&& self.totalsize == totalsize(b)
        &&& self.off_dt_struct == off_dt_struct(b)
        &&& self.off_dt_strings == off_dt_strings(b)
        &&& self.off_mem_rsvmap == off_mem_rsvmap(b)
        &&& self.boot_cpuid_phys == boot_cpuid_phys(b)
        &&& self.off_dt_strings + self.size_dt_strings == strings_end(b)
        &&& self.off_dt_struct + self.size_dt_struct == struct_end(b)
    }

    /// Accept a blob if its header is valid.
    pub fn new(blob: &'a [u8]) -> (r: Option<Fdtr<'a>>)
        ensures
            r is Some == valid_header(blob@),
            r matches Some(f) ==> f@ == blob@,
    {
        let len: u64 = blob.len() as u64;
        if len < 8 {
            return None;
        }
        if read_be_u32(blob, 0, len) != Some(FDT_MAGIC) {
            return None;
        }
        let totalsize: u32 = match read_be_u32(blob, 4, len) {
            Some(v) => v,
            None => {
                return None;
            },
        };
        if totalsize < HEADER_SIZE || totalsize as u64 > len {
            return None;
        }
        let limit: u64 = totalsize as u64;
        let off_dt_struct: u32 = read_be_u32(blob, 8, limit)?;
        let off_dt_strings: u32 = read_be_u32(blob, 12, limit)?;
        let off_mem_rsvmap: u32 = read_be_u32(blob, 16, limit)?;
        let boot_cpuid_phys: u32 = read_be_u32(blob, 28, limit)?;
        let size_dt_strings: u32 = read_be_u32(blob, 32, limit)?;
        let size_dt_struct: u32 = read_be_u32(blob, 36, limit)?;
        if off_dt_struct as u64 + size_dt_struct as u64 > limit {
            return None;
        }
        if off_dt_strings as u64 + size_dt_strings as u64 > limit {
            return None;
        }
        if off_dt_struct < HEADER_SIZE {
            return None;
        }
        Some(
            Fdtr {
                blob,
                totalsize,
                off_dt_struct,
                off_dt_strings,
                off_mem_rsvmap,
                boot_cpuid_phys,
                size_dt_strings,
                size_dt_struct,
            },
        )
    }

    /// The size of the blob in bytes.
    pub fn totalsize(&self) -> (n: usize)
        ensures
            n == totalsize(self@),
            valid_header(self@),
    {
        proof {
            use_type_invariant(self);
        }
        self.totalsize as usize
    }

    /// The boot CPU's physical ID.
    pub fn boot_cpuid(&self) -> (id: u32)
        ensures
            id == boot_cpuid_phys(self@),
    {
        proof {
            use_type_invariant(self);
        }
        self.boot_cpuid_phys
    }

    fn struct_u32(&self, off: u64) -> (r: Option<u32>)
        ensures
            r == word_at(self@, off as int),
    {
        proof {
            use_type_invariant(self);
        }
        read_be_u32(self.blob, off, self.totalsize as u64)
    }

    fn struct_u64(&self, off: u64) -> (r: Option<u64>)
        ensures
            r == dword_at(self@, off as int),
    {
        proof {
            use_type_invariant(self);
        }
        read_be_u64(self.blob, off, self.totalsize as u64)
    }

    fn struct_cstr(&self, off: u64) -> (r: Option<&'a str>)
        ensures
            r is Some == cstr_at(self@, off as int, totalsize(self@)) is Some,
            r matches Some(s) ==> s@ == text_of(cstr_at(self@, off as int, totalsize(self@)))
                && vstd::utf8::encode_utf8(s@) == cstr_at(
                self@,
                off as int,
                totalsize(self@),
            )->Some_0,
    {
        proof {
            use_type_invariant(self);
        }
        read_cstr(self.blob, off, self.totalsize as u64)
    }

    fn string_at(&self, nameoff: u32) -> (r: Option<&'a str>)
        ensures
            r is Some == string_at(self@, nameoff) is Some,
            r matches Some(s) ==> s@ == text_of(string_at(self@, nameoff))
                && vstd::utf8::encode_utf8(s@) == string_at(self@, nameoff)->Some_0,
    {
        proof {
            use_type_invariant(self);
        }
        let off: u64 = self.off_dt_strings as u64 + nameoff as u64;
        let end: u64 = self.off_dt_strings as u64 + self.size_dt_strings as u64;
        read_cstr(self.blob, off, end)
    }

    fn struct_bytes(&self, off: u64, len: u32) -> (r: Option<&'a [u8]>)
        requires
            off <= 0xFFFF_FFFF_FFFF,
        ensures
            r is Some == (off + len <= totalsize(self@)),
            r matches Some(s) ==> s@ == self@.subrange(off as int, off + len),
    {
        proof {
            use_type_invariant(self);
        }
        let end: u64 = off + len as u64;
        if end > self.totalsize as u64 {
            return None;
        }
        assert(end <= self.blob.len());
        Some(slice_subrange(self.blob, off as usize, end as usize))
    }

    fn struct_end(&self) -> (n: u64)
        ensures
            n == struct_end(self@),
            n <= totalsize(self@) <= 0xFFFF_FFFF,
    {
        proof {
            use_type_invariant(self);
        }
        self.off_dt_struct as u64 + self.size_dt_struct as u64
    }

    /// The root node: the structure block's first token, if the block is not
    /// empty and that token opens a node.
    pub fn root(&self) -> (r: Option<Node>)
        ensures
            r is Some == (off_dt_struct(self@) + 4 <= struct_end(self@) && be32(
                self@,
                off_dt_struct(self@),
            ) == FDT_BEGIN_NODE),
            r matches Some(n) ==> n@ == off_dt_struct(self@),
            r is Some == root(self@) is Some,
    {
        proof {
            use_type_invariant(self);
        }
        let off: u32 = self.off_dt_struct;
        if off as u64 + 4 <= self.struct_end() && self.struct_u32(off as u64) == Some(
            FDT_BEGIN_NODE,
        ) {
            Some(Node { offset: off })
        } else {
            None
        }
    }

    fn node_name_raw(&self, node: &Node) -> (r: Option<&'a str>)
        ensures
            r is Some == node_name(self@, node@) is Some,
            r matches Some(s) ==> s@ == text_of(node_name(self@, node@))
                && vstd::utf8::encode_utf8(s@) == node_name(self@, node@)->Some_0,
    {
        self.struct_cstr(node.offset as u64 + 4)
    }

    /// The node's name with its unit address: "memory@40000000".
    pub fn full_name(&self, node: &Node) -> (r: &'a str)
        ensures
            r@ == text_of(node_name(self@, node@)),
            vstd::utf8::encode_utf8(r@) == full_name_bytes(self@, node@),
    {
        match self.node_name_raw(node) {
            Some(s) => s,
            None => {
                proof {
                    reveal_strlit("");
                }
                let e = "";
                assert(e@ =~= Seq::<char>::empty());
                assert(vstd::utf8::encode_utf8(e@) =~= Seq::<u8>::empty());
                e
            },
        }
    }
}

/// How much of the structure block lies behind `off`.
pub open spec fn left(b: Seq<u8>, off: int) -> nat {
    if off < struct_end(b) {
        (struct_end(b) - off) as nat
    } else {
        0
    }
}

/// Where the tokens behind a node's name start, if the name is readable.
pub open spec fn after_name(b: Seq<u8>, off: int) -> Option<int> {
    match node_name(b, off) {
        Some(s) => Some(off + 4 + pad4(s.len() as int + 1)),
        None => None,
    }
}

/// The data of the first property called `name` among the properties at `off`.
/// The search ends at the first token that is neither a property nor nothing,
/// and at anything unreadable.
pub open spec fn props_from(b: Seq<u8>, off: int, name: Seq<u8>) -> Option<Seq<u8>>
    decreases left(b, off),
{
    if off < 0 || off + 4 > struct_end(b) {
        None
    } else if be32(b, off) == FDT_PROP {
        if off + 12 > totalsize(b) {
            None
        } else {
            let len = be32(b, off + 4);
            match string_at(b, be32(b, off + 8)) {
                None => None,
                Some(p) => if off + 12 + len > totalsize(b) {
                    None
                } else if p == name {
                    Some(b.subrange(off + 12, off + 12 + len))
                } else {
                    props_from(b, off + 12 + pad4(len as int), name)
                },
            }
        }
    } else if be32(b, off) == FDT_NOP {
        props_from(b, off + 4, name)
    } else {
        None
    }
}

/// The data of property `name` of the node at `off`.
pub open spec fn prop(b: Seq<u8>, off: int, name: Seq<u8>) -> Option<Seq<u8>> {
    match after_name(b, off) {
        Some(o) => props_from(b, o, name),
        None => None,
    }
}

/// The bytes before the first NUL, or all of them.
pub open spec fn before_nul(data: Seq<u8>) -> Seq<u8> {
    data.take(crate::text::byte_position(data, 0) as int)
}

/// The text of a string property; None if it is missing or not UTF-8.
pub open spec fn prop_text(b: Seq<u8>, off: int, name: Seq<u8>) -> Option<Seq<char>> {
    match prop(b, off, name) {
        Some(data) => if vstd::utf8::valid_utf8(before_nul(data)) {
            Some(vstd::utf8::decode_utf8(before_nul(data)))
        } else {
            None
        },
        None => None,
    }
}

/// The text of a node's first `compatible` entry; empty if it has none.
pub open spec fn compatible_text(b: Seq<u8>, off: int) -> Seq<char> {
    match prop_text(b, off, vstd::utf8::encode_utf8("compatible"@)) {
        Some(t) => t,
        None => Seq::empty(),
    }
}

/// The 32-bit cells of a property; bytes that fill no cell are left out.
pub open spec fn cells(data: Seq<u8>) -> Seq<u32> {
    Seq::new(data.len() / 4, |i: int| be32(data, 4 * i))
}

/// The reservations from `off` on: up to the all-zero entry or the blob's end.
pub open spec fn reserves_from(b: Seq<u8>, off: int) -> Seq<ReserveEntry>
    decreases totalsize(b) - off,
{
    if off < 0 || off + 16 > totalsize(b) {
        Seq::empty()
    } else if be64(b, off) == 0 && be64(b, off + 8) == 0 {
        Seq::empty()
    } else {
        seq![ReserveEntry { address: be64(b, off), size: be64(b, off + 8) }] + reserves_from(
            b,
            off + 16,
        )
    }
}

/// Step through the memory reserve map.
pub struct ReserveIter<'r, 'a> {
    fdt: &'r Fdtr<'a>,
    offset: u64,
}

impl<'r, 'a> ReserveIter<'r, 'a> {
    /// The entries still to come.
    pub closed spec fn remaining(&self) -> Seq<ReserveEntry> {
        reserves_from(self.fdt@, self.offset as int)
    }

    /// The next reservation.
    pub fn next(&mut self) -> (r: Option<ReserveEntry>)
        ensures
            ({
                let before = old(self).remaining();
                if before.len() == 0 {
                    r is None && final(self).remaining() == before
                } else {
                    r == Some(before[0]) && final(self).remaining() == before.drop_first()
                }
            }),
    {
        let total: u64 = self.fdt.totalsize() as u64;
        if total < 16 || self.offset > total - 16 {
            return None;
        }
        let address: u64 = self.fdt.struct_u64(self.offset)?;
        let size: u64 = self.fdt.struct_u64(self.offset + 8)?;
        if address == 0 && size == 0 {
            return None;
        }
        self.offset = self.offset + 16;
        assert(self.remaining() =~= old(self).remaining().drop_first());
        Some(ReserveEntry { address, size })
    }
}

/// Step through the cells of a property.
pub struct CellIter<'a> {
    data: &'a [u8],
    pos: usize,
}

impl<'a> CellIter<'a> {
    /// The cells still to come.
    pub closed spec fn remaining(&self) -> Seq<u32> {
        cells(self.data@.skip(self.pos as int))
    }

    #[verifier::type_invariant]
    spec fn type_inv(self) -> bool {
        self.pos <= self.data@.len()
    }

    /// The next cell.
    pub fn next(&mut self) -> (r: Option<u32>)
        ensures
            ({
                let before = old(self).remaining();
                if before.len() == 0 {
                    r is None && final(self).remaining() == before
                } else {
                    r == Some(before[0]) && final(self).remaining() == before.drop_first()
                }
            }),
    {
        proof {
            use_type_invariant(&*self);
        }
        if self.data.len() - self.pos < 4 {
            return None;
        }
        let r = read_be_u32(self.data, self.pos as u64, self.data.len() as u64);
        let ghost rest = self.data@.skip(self.pos as int);
        self.pos = self.pos + 4;
        proof {
            assert(self.data@.skip(self.pos as int) =~= rest.skip(4));
            assert forall|i: int| 0 <= i < cells(rest).len() - 1 implies cells(rest.skip(4))[i]
                == cells(rest)[i + 1] by {}
            assert(self.remaining() =~= old(self).remaining().drop_first());
        }
        r
    }
}

impl<'a> Fdtr<'a> {
    /// The memory reserve map.
    pub fn reserves<'r>(&'r self) -> (it: ReserveIter<'r, 'a>)
        ensures
            it.remaining() == reserves_from(self@, off_mem_rsvmap(self@)),
    {
        proof {
            use_type_invariant(self);
        }
        ReserveIter { fdt: self, offset: self.off_mem_rsvmap as u64 }
    }

    /// The node's name without its unit address: "memory".
    pub fn name(&self, node: &Node) -> (r: &'a str)
        ensures
            vstd::utf8::encode_utf8(r@) == bare_name(full_name_bytes(self@, node@)),
    {
        let full = self.full_name(node);
        let bytes = full.as_bytes();
        let n: usize = position(bytes, 0x40);
        proof {
            vstd::utf8::encode_utf8_valid_utf8(full@);
            if n < bytes@.len() {
                assert(!vstd::utf8::is_continuation_byte(0x40u8)) by (bit_vector);
                vstd::utf8::is_char_boundary_iff_not_is_continuation_byte(bytes@, n as int);
            } else {
                vstd::utf8::is_char_boundary_start_end_of_seq(bytes@);
            }
        }
        let (head, _) = full.split_at(n);
        assert(bytes@.subrange(0, n as int) =~= bytes@.take(n as int));
        head
    }

    /// Where the tokens behind the node's name start.
    fn tokens_of(&self, node: &Node) -> (r: Option<u64>)
        ensures
            r is Some == after_name(self@, node@) is Some,
            r matches Some(o) ==> o == after_name(self@, node@)->Some_0 && node@ + 4 < o
                <= totalsize(self@) + 3,
    {
        proof {
            use_type_invariant(self);
        }
        match self.node_name_raw(node) {
            Some(s) => {
                let n: u64 = s.as_bytes().len() as u64;
                Some(node.offset as u64 + 4 + (n + 4) / 4 * 4)
            },
            None => None,
        }
    }

    /// The raw bytes of property `name` of `node`.
    pub fn prop(&self, node: &Node, name: &str) -> (r: Option<&'a [u8]>)
        ensures
            r is Some == prop(self@, node@, vstd::utf8::encode_utf8(name@)) is Some,
            r matches Some(d) ==> d@ == prop(
                self@,
                node@,
                vstd::utf8::encode_utf8(name@),
            )->Some_0,
    {
        let ghost key = vstd::utf8::encode_utf8(name@);
        let end: u64 = self.struct_end();
        let mut off: u64 = match self.tokens_of(node) {
            Some(o) => o,
            None => {
                return None;
            },
        };
        while off + 4 <= end
            invariant
                off <= totalsize(self@) + 0x2_0000_0000,
                end == struct_end(self@),
                end <= totalsize(self@) <= 0xFFFF_FFFF,
                key == vstd::utf8::encode_utf8(name@),
                after_name(self@, node@) is Some,
                prop(self@, node@, key) == props_from(self@, off as int, key),
            decreases left(self@, off as int),
        {
            let token: u32 = self.struct_u32(off)?;
            if token == FDT_PROP {
                let len: u32 = self.struct_u32(off + 4)?;
                let nameoff: u32 = self.struct_u32(off + 8)?;
                let pname = self.string_at(nameoff)?;
                let data = self.struct_bytes(off + 12, len)?;
                if bytes_eq(pname.as_bytes(), name.as_bytes()) {
                    return Some(data);
                }
                off = off + 12 + (len as u64 + 3) / 4 * 4;
            } else if token == FDT_NOP {
                off = off + 4;
            } else {
                return None;
            }
        }
        None
    }

    /// A string property, up to its first NUL.
    pub fn prop_str(&self, node: &Node, name: &str) -> (r: Option<&'a str>)
        ensures
            r is Some == prop_text(self@, node@, vstd::utf8::encode_utf8(name@)) is Some,
            r matches Some(s) ==> s@ == prop_text(
                self@,
                node@,
                vstd::utf8::encode_utf8(name@),
            )->Some_0,
    {
        let data = self.prop(node, name)?;
        let n: usize = position(data, 0);
        let s = slice_subrange(data, 0, n);
        assert(s@ =~= before_nul(data@));
        from_utf8(s)
    }

    /// The first entry of the node's `compatible` property, or "".
    pub fn compatible(&self, node: &Node) -> (r: &'a str)
        ensures
            r@ == compatible_text(self@, node@),
    {
        match self.prop_str(node, "compatible") {
            Some(s) => s,
            None => {
                proof {
                    reveal_strlit("");
                }
                let e = "";
                assert(e@ =~= Seq::<char>::empty());
                e
            },
        }
    }

    /// A 32-bit property; None if it is missing or not exactly four bytes.
    pub fn prop_u32(&self, node: &Node, name: &str) -> (r: Option<u32>)
        ensures
            r == (match prop(self@, node@, vstd::utf8::encode_utf8(name@)) {
                Some(d) => if d.len() == 4 {
                    Some(be32(d, 0))
                } else {
                    None
                },
                None => None,
            }),
    {
        let data = self.prop(node, name)?;
        if data.len() != 4 {
            return None;
        }
        read_be_u32(data, 0, 4)
    }

    /// A 64-bit property; None if it is missing or not exactly eight bytes.
    pub fn prop_u64(&self, node: &Node, name: &str) -> (r: Option<u64>)
        ensures
            r == (match prop(self@, node@, vstd::utf8::encode_utf8(name@)) {
                Some(d) => if d.len() == 8 {
                    Some(be64(d, 0))
                } else {
                    None
                },
                None => None,
            }),
    {
        let data = self.prop(node, name)?;
        if data.len() != 8 {
            return None;
        }
        read_be_u64(data, 0, 8)
    }

    /// The 32-bit cells of a property; none if the property is missing.
    pub fn prop_cells(&self, node: &Node, name: &str) -> (it: CellIter<'a>)
        ensures
            it.remaining() == (match prop(self@, node@, vstd::utf8::encode_utf8(name@)) {
                Some(d) => cells(d),
                None => Seq::empty(),
            }),
    {
        match self.prop(node, name) {
            Some(data) => {
                assert(data@.skip(0) =~= data@);
                CellIter { data, pos: 0 }
            },
            None => {
                let none = slice_subrange(self.blob, 0, 0);
                assert(cells(none@.skip(0)) =~= Seq::<u32>::empty());
                CellIter { data: none, pos: 0 }
            },
        }
    }
}

/// The first node opened among the tokens at `off`, past properties and
/// nothings.
pub open spec fn child_from(b: Seq<u8>, off: int) -> Option<int>
    decreases left(b, off),
{
    if off < 0 || off + 4 > struct_end(b) {
        None
    } else if be32(b, off) == FDT_PROP {
        if off + 8 > totalsize(b) {
            None
        } else {
            child_from(b, off + 12 + pad4(be32(b, off + 4) as int))
        }
    } else if be32(b, off) == FDT_NOP {
        child_from(b, off + 4)
    } else if be32(b, off) == FDT_BEGIN_NODE {
        Some(off)
    } else {
        None
    }
}

/// The nodes opened at nesting depth 0 among the tokens at `off`, where `depth`
/// nodes are open already. The walk ends at the token that closes the parent,
/// at the end of the block, and at anything unreadable.
pub open spec fn nodes_from(b: Seq<u8>, off: int, depth: nat) -> Seq<int>
    decreases left(b, off),
{
    if off <= 0 || off + 4 > struct_end(b) {
        Seq::empty()
    } else if be32(b, off) == FDT_BEGIN_NODE {
        match after_name(b, off) {
            None => Seq::empty(),
            Some(o) => if depth == 0 {
                seq![off] + nodes_from(b, o, 1)
            } else {
                nodes_from(b, o, depth + 1)
            },
        }
    } else if be32(b, off) == FDT_END_NODE {
        if depth == 0 {
            Seq::empty()
        } else {
            nodes_from(b, off + 4, (depth - 1) as nat)
        }
    } else if be32(b, off) == FDT_PROP {
        if off + 8 > totalsize(b) {
            Seq::empty()
        } else {
            nodes_from(b, off + 12 + pad4(be32(b, off + 4) as int), depth)
        }
    } else if be32(b, off) == FDT_NOP {
        nodes_from(b, off + 4, depth)
    } else {
        Seq::empty()
    }
}

/// The first child of the node at `off`.
pub open spec fn first_child(b: Seq<u8>, off: int) -> Option<int> {
    match after_name(b, off) {
        Some(o) => child_from(b, o),
        None => None,
    }
}

/// The direct children of the node at `off`, in order.
pub open spec fn children(b: Seq<u8>, off: int) -> Seq<int> {
    match first_child(b, off) {
        Some(o) => nodes_from(b, o, 0),
        None => Seq::empty(),
    }
}

proof fn lemma_child_from(b: Seq<u8>, off: int)
    ensures
        child_from(b, off) matches Some(o) ==> off <= o && o + 4 <= struct_end(b),
    decreases left(b, off),
{
    if off < 0 || off + 4 > struct_end(b) {
    } else if be32(b, off) == FDT_PROP {
        if off + 8 <= totalsize(b) {
            lemma_child_from(b, off + 12 + pad4(be32(b, off + 4) as int));
        }
    } else if be32(b, off) == FDT_NOP {
        lemma_child_from(b, off + 4);
    }
}

/// All of `nodes` lie at or behind `off` and inside the structure block.
pub open spec fn all_within(b: Seq<u8>, off: int, nodes: Seq<int>) -> bool {
    forall|i: int| 0 <= i < nodes.len() ==> off <= #[trigger] nodes[i] <= struct_end(b) - 4
}

proof fn lemma_nodes_from(b: Seq<u8>, off: int, depth: nat)
    ensures
        all_within(b, off, nodes_from(b, off, depth)),
    decreases left(b, off),
{
    let nodes = nodes_from(b, off, depth);
    if off <= 0 || off + 4 > struct_end(b) {
    } else if be32(b, off) == FDT_BEGIN_NODE {
        match after_name(b, off) {
            None => {},
            Some(o) => {
                if depth == 0 {
                    let rest = nodes_from(b, o, 1);
                    lemma_nodes_from(b, o, 1);
                    assert forall|i: int| 0 <= i < nodes.len() implies off <= #[trigger] nodes[i]
                        <= struct_end(b) - 4 by {
                        if i > 0 {
                            assert(nodes[i] == rest[i - 1]);
                        }
                    }
                } else {
                    lemma_nodes_from(b, o, depth + 1);
                    assert(nodes == nodes_from(b, o, depth + 1));
                }
            },
        }
    } else if be32(b, off) == FDT_END_NODE {
        if depth > 0 {
            lemma_nodes_from(b, off + 4, (depth - 1) as nat);
            assert(nodes == nodes_from(b, off + 4, (depth - 1) as nat));
        }
    } else if be32(b, off) == FDT_PROP {
        if off + 8 <= totalsize(b) {
            let o = off + 12 + pad4(be32(b, off + 4) as int);
            lemma_nodes_from(b, o, depth);
            assert(nodes == nodes_from(b, o, depth));
        }
    } else if be32(b, off) == FDT_NOP {
        lemma_nodes_from(b, off + 4, depth);
        assert(nodes == nodes_from(b, off + 4, depth));
    }
}

/// Every child lies behind its parent and inside the structure block.
pub proof fn lemma_children(b: Seq<u8>, off: int)
    ensures
        all_within(b, off + 1, children(b, off)),
{
    match first_child(b, off) {
        Some(o) => {
            lemma_child_from(b, after_name(b, off)->Some_0);
            lemma_nodes_from(b, o, 0);
        },
        None => {},
    }
}

/// Step through the children of a node.
pub struct NodeIter<'r, 'a> {
    fdt: &'r Fdtr<'a>,
    /// The next token; 0 = exhausted.
    offset: u64,
    /// How many nodes are open below the children's level.
    depth: u64,
}

impl<'r, 'a> NodeIter<'r, 'a> {
    #[verifier::type_invariant]
    spec fn type_inv(self) -> bool {
        self.depth <= self.offset <= 0x3_0000_0000
    }

    /// The children still to come.
    pub closed spec fn remaining(&self) -> Seq<int> {
        nodes_from(self.fdt@, self.offset as int, self.depth as nat)
    }

    /// The next child.
    pub fn next(&mut self) -> (r: Option<Node>)
        ensures
            ({
                let before = old(self).remaining();
                if before.len() == 0 {
                    r is None && final(self).remaining() == before
                } else {
                    r matches Some(n) && n@ == before[0] && final(self).remaining()
                        == before.drop_first()
                }
            }),
    {
        proof {
            use_type_invariant(&*self);
        }
        let fdt = self.fdt;
        let end: u64 = fdt.struct_end();
        let mut off: u64 = self.offset;
        let mut depth: u64 = self.depth;
        let ghost b = fdt@;
        while off != 0 && off + 4 <= end
            invariant
                depth <= off <= 0x3_0000_0000,
                end == struct_end(b),
                b == fdt@,
                end <= totalsize(b) <= 0xFFFF_FFFF,
                old(self).remaining() == nodes_from(b, off as int, depth as nat),
            decreases left(b, off as int),
        {
            let token: u32 = match fdt.struct_u32(off) {
                Some(t) => t,
                None => 0,
            };
            if token == FDT_BEGIN_NODE {
                let node = Node { offset: off as u32 };
                match fdt.tokens_of(&node) {
                    Some(o) => {
                        if depth == 0 {
                            *self = NodeIter { fdt, offset: o, depth: 1 };
                            assert(old(self).remaining().drop_first() =~= nodes_from(
                                b,
                                o as int,
                                1,
                            ));
                            return Some(node);
                        }
                        depth = depth + 1;
                        off = o;
                    },
                    None => {
                        *self = NodeIter { fdt, offset: 0, depth: 0 };
                        return None;
                    },
                }
            } else if token == FDT_END_NODE && depth > 0 {
                depth = depth - 1;
                off = off + 4;
            } else if token == FDT_PROP {
                match fdt.struct_u32(off + 4) {
                    Some(len) => {
                        off = off + 12 + (len as u64 + 3) / 4 * 4;
                    },
                    None => {
                        *self = NodeIter { fdt, offset: 0, depth: 0 };
                        return None;
                    },
                }
            } else if token == FDT_NOP {
                off = off + 4;
            } else {
                *self = NodeIter { fdt, offset: 0, depth: 0 };
                return None;
            }
        }
        *self = NodeIter { fdt, offset: 0, depth: 0 };
        None
    }
}

/// The parts of a path between its slashes, without the empty ones.
pub open spec fn components(path: Seq<u8>) -> Seq<Seq<u8>>
    decreases path.len(),
{
    if path.len() == 0 {
        Seq::empty()
    } else {
        let n = crate::text::byte_position(path, 0x2f) as int;
        let head = path.take(n);
        let rest = if 0 <= n < path.len() {
            path.skip(n + 1)
        } else {
            Seq::empty()
        };
        if n == 0 {
            components(rest)
        } else {
            seq![head] + components(rest)
        }
    }
}

/// A path component names a node by its full name, or, if it has no unit
/// address itself, by the name before the node's.
pub open spec fn name_matches(full: Seq<u8>, component: Seq<u8>) -> bool {
    full == component || (!component.contains(0x40) && bare_name(full) == component)
}

/// The first of `nodes` that `component` names.
pub open spec fn pick(b: Seq<u8>, nodes: Seq<int>, component: Seq<u8>) -> Option<int>
    decreases nodes.len(),
{
    if nodes.len() == 0 {
        None
    } else if name_matches(full_name_bytes(b, nodes[0]), component) {
        Some(nodes[0])
    } else {
        pick(b, nodes.drop_first(), component)
    }
}

/// Follow the components down from the node at `off`.
pub open spec fn descend(b: Seq<u8>, off: int, path: Seq<Seq<u8>>) -> Option<int>
    decreases path.len(),
{
    if path.len() == 0 {
        Some(off)
    } else {
        match pick(b, children(b, off), path[0]) {
            Some(o) => descend(b, o, path.drop_first()),
            None => None,
        }
    }
}

/// The root node's offset, if the structure block starts with a node.
pub open spec fn root(b: Seq<u8>) -> Option<int> {
    if off_dt_struct(b) + 4 <= struct_end(b) && be32(b, off_dt_struct(b)) == FDT_BEGIN_NODE {
        Some(off_dt_struct(b))
    } else {
        None
    }
}

/// The node a path leads to.
pub open spec fn find(b: Seq<u8>, path: Seq<u8>) -> Option<int> {
    match root(b) {
        Some(o) => descend(b, o, components(path)),
        None => None,
    }
}

/// The node at `off` is compatible with `key`: its first `compatible` entry
/// contains it.
pub open spec fn is_compatible(b: Seq<u8>, off: int, key: Seq<u8>) -> bool {
    crate::text::occurs(vstd::utf8::encode_utf8(compatible_text(b, off)), key)
}

/// The first compatible node, in pre-order, of the subtree at `off`.
pub open spec fn search(b: Seq<u8>, off: int, key: Seq<u8>) -> Option<int>
    decreases left(b, off), 1nat, 0nat,
{
    if is_compatible(b, off, key) {
        Some(off)
    } else {
        search_all(b, off, children(b, off), key)
    }
}

/// The first compatible node, in pre-order, of the subtrees at `nodes`, which
/// lie below the node at `parent`.
pub open spec fn search_all(b: Seq<u8>, parent: int, nodes: Seq<int>, key: Seq<u8>) -> Option<int>
    decreases left(b, parent), 0nat, nodes.len(),
{
    if nodes.len() == 0 || !(parent < nodes[0] < struct_end(b)) {
        None
    } else {
        match search(b, nodes[0], key) {
            Some(o) => Some(o),
            None => search_all(b, parent, nodes.drop_first(), key),
        }
    }
}

impl<'a> Fdtr<'a> {
    fn first_child_offset(&self, node: &Node) -> (r: Option<u64>)
        ensures
            r is Some == first_child(self@, node@) is Some,
            r matches Some(o) ==> o == first_child(self@, node@)->Some_0 && o <= totalsize(self@),
    {
        let end: u64 = self.struct_end();
        let mut off: u64 = self.tokens_of(node)?;
        let ghost b = self@;
        while off + 4 <= end
            invariant
                off <= 0x3_0000_0000,
                b == self@,
                end == struct_end(b),
                end <= totalsize(b) <= 0xFFFF_FFFF,
                after_name(b, node@) is Some,
                first_child(b, node@) == child_from(b, off as int),
            decreases left(b, off as int),
        {
            let token: u32 = self.struct_u32(off)?;
            if token == FDT_PROP {
                let len: u32 = self.struct_u32(off + 4)?;
                off = off + 12 + (len as u64 + 3) / 4 * 4;
            } else if token == FDT_NOP {
                off = off + 4;
            } else if token == FDT_BEGIN_NODE {
                return Some(off);
            } else {
                return None;
            }
        }
        None
    }

    /// The direct children of `node`.
    pub fn children<'r>(&'r self, node: &Node) -> (it: NodeIter<'r, 'a>)
        ensures
            it.remaining() == children(self@, node@),
    {
        proof {
            use_type_invariant(self);
        }
        match self.first_child_offset(node) {
            Some(o) => NodeIter { fdt: self, offset: o, depth: 0 },
            None => NodeIter { fdt: self, offset: 0, depth: 0 },
        }
    }

    /// The child of `node` that `component` names.
    fn child_named(&self, node: &Node, component: &[u8]) -> (r: Option<Node>)
        ensures
            r is Some == pick(self@, children(self@, node@), component@) is Some,
            r matches Some(n) ==> n@ == pick(
                self@,
                children(self@, node@),
                component@,
            )->Some_0,
    {
        let at: usize = position(component, 0x40);
        let bare: bool = at == component.len();
        assert(bare == !component@.contains(0x40)) by {
            if !bare {
                assert(component@[at as int] == 0x40);
            }
        }
        let mut it = self.children(node);
        let ghost b = self@;
        loop
            invariant
                b == self@,
                bare == !component@.contains(0x40),
                pick(b, children(b, node@), component@) == pick(b, it.remaining(), component@),
            decreases it.remaining().len(),
        {
            match it.next() {
                Some(child) => {
                    let full = self.full_name(&child).as_bytes();
                    let n: usize = position(full, 0x40);
                    let head = slice_subrange(full, 0, n);
                    assert(head@ =~= bare_name(full@));
                    if bytes_eq(full, component) || (bare && bytes_eq(head, component)) {
                        return Some(child);
                    }
                },
                None => {
                    return None;
                },
            }
        }
    }

    /// The node at a path such as "/memory" or "/intc@8000000". A component
    /// without a unit address also names a node that has one.
    pub fn find(&self, path: &str) -> (r: Option<Node>)
        ensures
            r is Some == find(self@, vstd::utf8::encode_utf8(path@)) is Some,
            r matches Some(n) ==> n@ == find(self@, vstd::utf8::encode_utf8(path@))->Some_0,
    {
        let bytes = path.as_bytes();
        let mut node = self.root()?;
        let mut pos: usize = 0;
        let ghost b = self@;
        let ghost goal = find(b, bytes@);
        assert(bytes@.skip(0) =~= bytes@);
        while pos < bytes.len()
            invariant
                b == self@,
                pos <= bytes@.len(),
                goal == descend(b, node@, components(bytes@.skip(pos as int))),
                goal == find(b, bytes@),
                bytes@ == vstd::utf8::encode_utf8(path@),
            decreases bytes@.len() - pos,
        {
            let rest = slice_subrange(bytes, pos, bytes.len());
            let n: usize = position(rest, 0x2f);
            let head = slice_subrange(rest, 0, n);
            proof {
                assert(rest@ =~= bytes@.skip(pos as int));
                assert(head@ =~= rest@.take(n as int));
                if n < rest@.len() {
                    assert(rest@.skip(n + 1) =~= bytes@.skip(pos + n + 1));
                } else {
                    assert(bytes@.skip(bytes@.len() as int) =~= Seq::<u8>::empty());
                }
            }
            if n > 0 {
                proof {
                    let tail = if n < rest@.len() {
                        rest@.skip(n + 1)
                    } else {
                        Seq::empty()
                    };
                    assert(components(rest@) == seq![head@] + components(tail));
                    assert(components(rest@).drop_first() =~= components(tail));
                }
                node = self.child_named(&node, head)?;
            }
            if n < rest.len() {
                pos = pos + n + 1;
            } else {
                pos = bytes.len();
            }
        }
        assert(bytes@.skip(pos as int) =~= Seq::<u8>::empty());
        Some(node)
    }

    fn find_by_compatible_in(&self, node: &Node, substr: &str) -> (r: Option<Node>)
        ensures
            r is Some == search(self@, node@, vstd::utf8::encode_utf8(substr@)) is Some,
            r matches Some(n) ==> n@ == search(
                self@,
                node@,
                vstd::utf8::encode_utf8(substr@),
            )->Some_0,
        decreases left(self@, node@),
    {
        let ghost b = self@;
        let ghost key = vstd::utf8::encode_utf8(substr@);
        if contains(self.compatible(node).as_bytes(), substr.as_bytes()) {
            return Some(*node);
        }
        let mut it = self.children(node);
        proof {
            lemma_children(b, node@);
        }
        loop
            invariant
                b == self@,
                key == vstd::utf8::encode_utf8(substr@),
                search(b, node@, key) == search_all(b, node@, it.remaining(), key),
                all_within(b, node@ + 1, it.remaining()),
            decreases it.remaining().len(),
        {
            let ghost nodes = it.remaining();
            match it.next() {
                Some(child) => {
                    assert(nodes[0] == child@);
                    match self.find_by_compatible_in(&child, substr) {
                        Some(n) => {
                            return Some(n);
                        },
                        None => {},
                    }
                },
                None => {
                    return None;
                },
            }
        }
    }

    /// The first node, in pre-order, whose first `compatible` entry contains
    /// `substr`.
    pub fn find_by_compatible(&self, substr: &str) -> (r: Option<Node>)
        ensures
            ({
                let goal = match root(self@) {
                    Some(o) => search(self@, o, vstd::utf8::encode_utf8(substr@)),
                    None => None,
                };
                match r {
                    Some(n) => goal == Some(n@),
                    None => goal is None,
                }
            }),
    {
        let root = self.root()?;
        self.find_by_compatible_in(&root, substr)
    }
}

/// The nodes of the subtree at `off` in pre-order.
pub open spec fn preorder(b: Seq<u8>, off: int) -> Seq<int>
    decreases left(b, off), 1nat, 0nat,
{
    seq![off] + preorder_all(b, off, children(b, off))
}

/// The nodes of the subtrees at `nodes`, which lie below `parent`, in pre-order.
pub open spec fn preorder_all(b: Seq<u8>, parent: int, nodes: Seq<int>) -> Seq<int>
    decreases left(b, parent), 0nat, nodes.len(),
{
    if nodes.len() == 0 || !(parent < nodes[0] < struct_end(b)) {
        Seq::empty()
    } else {
        preorder(b, nodes[0]) + preorder_all(b, parent, nodes.drop_first())
    }
}

/// `hit` is the first of `nodes` compatible with `key`, or None if none is.
pub open spec fn is_first_compatible(
    b: Seq<u8>,
    nodes: Seq<int>,
    key: Seq<u8>,
    hit: Option<int>,
) -> bool {
    match hit {
        Some(o) => exists|i: int|
            0 <= i < nodes.len() && #[trigger] nodes[i] == o && is_compatible(b, o, key) && forall|
                j: int,
            |
                0 <= j < i ==> !is_compatible(b, #[trigger] nodes[j], key),
        None => forall|j: int| 0 <= j < nodes.len() ==> !is_compatible(b, #[trigger] nodes[j], key),
    }
}

proof fn lemma_first_compatible_append(
    b: Seq<u8>,
    x: Seq<int>,
    y: Seq<int>,
    key: Seq<u8>,
    hx: Option<int>,
    hy: Option<int>,
)
    requires
        is_first_compatible(b, x, key, hx),
        is_first_compatible(b, y, key, hy),
    ensures
        is_first_compatible(
            b,
            x + y,
            key,
            if hx is Some {
                hx
            } else {
                hy
            },
        ),
{
    let z = x + y;
    match hx {
        Some(o) => {
            let i = choose|i: int|
                0 <= i < x.len() && #[trigger] x[i] == o && is_compatible(b, o, key) && forall|
                    j: int,
                |
                    0 <= j < i ==> !is_compatible(b, #[trigger] x[j], key);
            assert(z[i] == o);
            assert forall|j: int| 0 <= j < i implies !is_compatible(b, #[trigger] z[j], key) by {
                assert(z[j] == x[j]);
            }
        },
        None => {
            match hy {
                Some(o) => {
                    let i = choose|i: int|
                        0 <= i < y.len() && #[trigger] y[i] == o && is_compatible(b, o, key)
                            && forall|j: int|
                            0 <= j < i ==> !is_compatible(b, #[trigger] y[j], key);
                    assert(z[x.len() + i] == o);
                    assert forall|j: int| 0 <= j < x.len() + i implies !is_compatible(
                        b,
                        #[trigger] z[j],
                        key,
                    ) by {
                        if j < x.len() {
                            assert(z[j] == x[j]);
                        } else {
                            assert(z[j] == y[j - x.len()]);
                        }
                    }
                },
                None => {
                    assert forall|j: int| 0 <= j < z.len() implies !is_compatible(
                        b,
                        #[trigger] z[j],
                        key,
                    ) by {
                        if j < x.len() {
                            assert(z[j] == x[j]);
                        } else {
                            assert(z[j] == y[j - x.len()]);
                        }
                    }
                },
            }
        },
    }
}

proof fn lemma_search_all(b: Seq<u8>, parent: int, nodes: Seq<int>, key: Seq<u8>)
    ensures
        is_first_compatible(
            b,
            preorder_all(b, parent, nodes),
            key,
            search_all(b, parent, nodes, key),
        ),
    decreases left(b, parent), 0nat, nodes.len(),
{
    if nodes.len() == 0 || !(parent < nodes[0] < struct_end(b)) {
    } else {
        law_search_is_preorder(b, nodes[0], key);
        lemma_search_all(b, parent, nodes.drop_first(), key);
        lemma_first_compatible_append(
            b,
            preorder(b, nodes[0]),
            preorder_all(b, parent, nodes.drop_first()),
            key,
            search(b, nodes[0], key),
            search_all(b, parent, nodes.drop_first(), key),
        );
    }
}

/// A search by `compatible` finds the first match in pre-order: no node before
/// the one found matches, and if nothing is found no node of the tree matches.
pub proof fn law_search_is_preorder(b: Seq<u8>, off: int, key: Seq<u8>)
    ensures
        is_first_compatible(b, preorder(b, off), key, search(b, off, key)),
    decreases left(b, off), 1nat, 0nat,
{
    let hit: Option<int> = if is_compatible(b, off, key) {
        Some(off)
    } else {
        None
    };
    assert(is_first_compatible(b, seq![off], key, hit)) by {
        assert(seq![off][0] == off);
    }
    lemma_search_all(b, off, children(b, off), key);
    lemma_first_compatible_append(
        b,
        seq![off],
        preorder_all(b, off, children(b, off)),
        key,
        hit,
        search_all(b, off, children(b, off), key),
    );
}

/// The unit address is optional in a path: "memory" names "memory@40000000",
/// and a component with a unit address names only the node that has it.
pub proof fn law_unit_address_is_optional(base: Seq<u8>, unit: Seq<u8>, component: Seq<u8>)
    requires
        !base.contains(0x40),
    ensures
        name_matches(base + seq![0x40u8] + unit, base),
        component.contains(0x40) ==> (name_matches(base + seq![0x40u8] + unit, component)
            <==> component == base + seq![0x40u8] + unit),
{
    let full = base + seq![0x40u8] + unit;
    assert(full[base.len() as int] == 0x40);
    assert forall|j: int| 0 <= j < base.len() implies full[j] != 0x40 by {
        assert(base.contains(base[j]));
    }
    crate::text::lemma_byte_position(full, 0x40, base.len());
    assert(bare_name(full) =~= base);
}

/// How a property value is shown.
pub enum PropValue {
    /// No data at all.
    Empty,
    /// Printable text.
    Text(String),
    /// 32-bit cells.
    Cells(Vec<u32>),
    /// Anything else.
    Bytes(Vec<u8>),
}

/// `PropValue` as a mathematical value.
#[verifier::ext_equal]
pub enum PropValueView {
    Empty,
    Text(Seq<char>),
    Cells(Seq<u32>),
    Bytes(Seq<u8>),
}

impl View for PropValue {
    type V = PropValueView;

    open spec fn view(&self) -> PropValueView {
        match *self {
            PropValue::Empty => PropValueView::Empty,
            PropValue::Text(s) => PropValueView::Text(s@),
            PropValue::Cells(c) => PropValueView::Cells(c@),
            PropValue::Bytes(b) => PropValueView::Bytes(b@),
        }
    }
}

/// `s` is a non-empty run of printable ASCII.
pub open spec fn printable(s: Seq<u8>) -> bool {
    s.len() > 0 && forall|i: int| 0 <= i < s.len() ==> 0x20 <= #[trigger] s[i] < 0x7f
}

/// The blob carries no types, so the kind of a value is guessed: printable text
/// with its terminator, then whole cells, then raw bytes.
pub open spec fn value_of(data: Seq<u8>) -> PropValueView {
    if data.len() == 0 {
        PropValueView::Empty
    } else if data.last() == 0 && printable(data.drop_last()) && vstd::utf8::valid_utf8(
        data.drop_last(),
    ) {
        PropValueView::Text(vstd::utf8::decode_utf8(data.drop_last()))
    } else if data.len() % 4 == 0 {
        PropValueView::Cells(cells(data))
    } else {
        PropValueView::Bytes(data)
    }
}

/// One line of a tree dump.
pub enum DumpLine {
    Node { depth: u64, label: String },
    Prop { depth: u64, name: String, value: PropValue },
}

/// `DumpLine` as a mathematical value.
#[verifier::ext_equal]
pub enum DumpLineView {
    Node(nat, Seq<char>),
    Prop(nat, Seq<char>, PropValueView),
}

impl View for DumpLine {
    type V = DumpLineView;

    open spec fn view(&self) -> DumpLineView {
        match *self {
            DumpLine::Node { depth, label } => DumpLineView::Node(depth as nat, label@),
            DumpLine::Prop { depth, name, value } => DumpLineView::Prop(
                depth as nat,
                name@,
                value@,
            ),
        }
    }
}

/// The lines' meanings.
pub open spec fn lines(v: Seq<DumpLine>) -> Seq<DumpLineView> {
    v.map_values(|l: DumpLine| l@)
}

/// The lines for the properties at `off`. A name that cannot be read is shown
/// as "?".
pub open spec fn prop_lines(b: Seq<u8>, off: int, depth: nat) -> Seq<DumpLineView>
    decreases left(b, off),
{
    if off < 0 || off + 4 > struct_end(b) {
        Seq::empty()
    } else if be32(b, off) == FDT_NOP {
        prop_lines(b, off + 4, depth)
    } else if be32(b, off) != FDT_PROP || off + 12 > totalsize(b) || off + 12 + be32(b, off + 4)
        > totalsize(b) {
        Seq::empty()
    } else {
        let len = be32(b, off + 4);
        let name = match string_at(b, be32(b, off + 8)) {
            Some(s) => vstd::utf8::decode_utf8(s),
            None => "?"@,
        };
        seq![DumpLineView::Prop(depth, name, value_of(b.subrange(off + 12, off + 12 + len)))]
            + prop_lines(b, off + 12 + pad4(len as int), depth)
    }
}

/// The label of the node at `off`: its name, or "/" for a node without one.
pub open spec fn label(b: Seq<u8>, off: int) -> Seq<char> {
    let name = text_of(node_name(b, off));
    if name.len() == 0 {
        "/"@
    } else {
        name
    }
}

/// Where the properties of the node at `off` start; a name that cannot be read
/// counts as empty.
pub open spec fn props_start(b: Seq<u8>, off: int) -> int {
    match after_name(b, off) {
        Some(o) => o,
        None => off + 8,
    }
}

/// The lines for the subtree at `off`: the node, its properties, its children.
pub open spec fn dump_lines(b: Seq<u8>, off: int, depth: nat) -> Seq<DumpLineView>
    decreases left(b, off), 1nat, 0nat,
{
    seq![DumpLineView::Node(depth, label(b, off))] + prop_lines(b, props_start(b, off), depth + 1)
        + dump_all(b, off, children(b, off), depth + 1)
}

/// The lines for the subtrees at `nodes`, which lie below `parent`.
pub open spec fn dump_all(b: Seq<u8>, parent: int, nodes: Seq<int>, depth: nat) -> Seq<DumpLineView>
    decreases left(b, parent), 0nat, nodes.len(),
{
    if nodes.len() == 0 || !(parent < nodes[0] < struct_end(b)) {
        Seq::empty()
    } else {
        dump_lines(b, nodes[0], depth) + dump_all(b, parent, nodes.drop_first(), depth)
    }
}

/// The width of the indentation at `depth`.
pub open spec fn indent_width(depth: int) -> int {
    if depth < 32 {
        2 * depth
    } else {
        64
    }
}

/// Two spaces per level, 64 at most.
pub fn indent_str(depth: u64) -> (r: &'static str)
    ensures
        r@ == Seq::new(indent_width(depth as int) as nat, |i: int| ' '),
{
    let spaces = "                                                                ";
    proof {
        reveal_strlit("                                                                ");
    }
    let n: usize = if depth < 32 {
        2 * depth as usize
    } else {
        64
    };
    let r = spaces.substring_ascii(0, n);
    assert(r@ =~= Seq::new(indent_width(depth as int) as nat, |i: int| ' '));
    r
}

/// Guess what kind of value `data` is.
pub fn prop_value(data: &[u8]) -> (v: PropValue)
    ensures
        v@ == value_of(data@),
{
    let n: usize = data.len();
    if n == 0 {
        return PropValue::Empty;
    }
    if data[n - 1] == 0 && n > 1 {
        let s = slice_subrange(data, 0, n - 1);
        assert(s@ =~= data@.drop_last());
        let mut plain: bool = true;
        let mut i: usize = 0;
        while i < s.len()
            invariant
                i <= s@.len(),
                plain == (forall|j: int| 0 <= j < i ==> 0x20 <= #[trigger] s@[j] < 0x7f),
            decreases s@.len() - i,
        {
            plain = plain && 0x20 <= s[i] && s[i] < 0x7f;
            i = i + 1;
        }
        if plain {
            match from_utf8(s) {
                Some(t) => {
                    return PropValue::Text(t.to_owned());
                },
                None => {},
            }
        }
    }
    if n % 4 == 0 {
        let mut out: Vec<u32> = Vec::new();
        let mut it = CellIter { data, pos: 0 };
        assert(data@.skip(0) =~= data@);
        assert(out@ + it.remaining() =~= cells(data@));
        loop
            invariant
                out@ + it.remaining() == cells(data@),
            ensures
                out@ == cells(data@),
            decreases it.remaining().len(),
        {
            let ghost before = it.remaining();
            match it.next() {
                Some(c) => {
                    out.push(c);
                    assert(out@ + it.remaining() =~= cells(data@)) by {
                        assert(before =~= seq![c] + it.remaining());
                    }
                },
                None => {
                    assert(out@ + before =~= out@);
                    break ;
                },
            }
        }
        return PropValue::Cells(out);
    }
    PropValue::Bytes(slice_to_vec(data))
}

impl<'a> Fdtr<'a> {
    /// Append the lines for the properties at `start`.
    fn dump_props(&self, start: u64, depth: u64, out: &mut Vec<DumpLine>)
        requires
            start <= 0x2_0000_0000,
        ensures
            lines(final(out)@) == lines(old(out)@) + prop_lines(
                self@,
                start as int,
                depth as nat,
            ),
    {
        let end: u64 = self.struct_end();
        let mut off: u64 = start;
        let ghost b = self@;
        let ghost goal = lines(out@) + prop_lines(b, start as int, depth as nat);
        while off + 4 <= end
            invariant
                off <= 0x3_0000_0000,
                b == self@,
                end == struct_end(b),
                end <= totalsize(b) <= 0xFFFF_FFFF,
                goal == lines(old(out)@) + prop_lines(b, start as int, depth as nat),
                goal == lines(out@) + prop_lines(b, off as int, depth as nat),
            decreases left(b, off as int),
        {
            let ghost here = prop_lines(b, off as int, depth as nat);
            let token: u32 = match self.struct_u32(off) {
                Some(t) => t,
                None => 0,
            };
            if token == FDT_NOP {
                off = off + 4;
            } else if token != FDT_PROP {
                assert(lines(out@) + here =~= lines(out@));
                return ;
            } else {
                let (len, nameoff): (u32, u32) = match (
                    self.struct_u32(off + 4),
                    self.struct_u32(off + 8),
                ) {
                    (Some(len), Some(nameoff)) => (len, nameoff),
                    _ => {
                        assert(lines(out@) + here =~= lines(out@));
                        return ;
                    },
                };
                let data = match self.struct_bytes(off + 12, len) {
                    Some(d) => d,
                    None => {
                        assert(lines(out@) + here =~= lines(out@));
                        return ;
                    },
                };
                let name = match self.string_at(nameoff) {
                    Some(s) => s,
                    None => "?",
                };
                let line = DumpLine::Prop {
                    depth,
                    name: name.to_owned(),
                    value: prop_value(data),
                };
                let ghost before = out@;
                let ghost next = off + 12 + pad4(len as int);
                out.push(line);
                off = off + 12 + (len as u64 + 3) / 4 * 4;
                proof {
                    assert(lines(out@) =~= lines(before).push(line@));
                    assert(here =~= seq![line@] + prop_lines(b, next, depth as nat));
                    assert(lines(out@) + prop_lines(b, off as int, depth as nat) =~= goal);
                }
            }
        }
        assert(lines(out@) + prop_lines(b, off as int, depth as nat) =~= lines(out@));
    }

    /// Append the lines for the subtree at `node`.
    fn dump_node(&self, node: &Node, depth: u64, out: &mut Vec<DumpLine>)
        requires
            depth + left(self@, node@) <= 0x1_0000_0000,
        ensures
            lines(final(out)@) == lines(old(out)@) + dump_lines(self@, node@, depth as nat),
        decreases left(self@, node@),
    {
        let ghost b = self@;
        let ghost d = (depth + 1) as nat;
        let name = self.full_name(node);
        let text = if name.is_empty() {
            "/"
        } else {
            name
        };
        let line = DumpLine::Node { depth, label: text.to_owned() };
        out.push(line);
        assert(lines(out@) =~= lines(old(out)@).push(line@));
        let start: u64 = match self.tokens_of(node) {
            Some(o) => o,
            None => node.offset as u64 + 8,
        };
        proof {
            use_type_invariant(self);
        }
        self.dump_props(start, depth + 1, out);
        let ghost head = seq![line@] + prop_lines(b, props_start(b, node@), d);
        assert(lines(out@) =~= lines(old(out)@) + head);
        let mut it = self.children(node);
        proof {
            lemma_children(b, node@);
        }
        let ghost kids = dump_all(b, node@, children(b, node@), d);
        loop
            invariant
                b == self@,
                d == depth + 1,
                depth + left(b, node@) <= 0x1_0000_0000,
                all_within(b, node@ + 1, it.remaining()),
                lines(out@) + dump_all(b, node@, it.remaining(), d) == lines(old(out)@) + head
                    + kids,
            ensures
                lines(out@) == lines(old(out)@) + head + kids,
            decreases it.remaining().len(),
        {
            let ghost nodes = it.remaining();
            let ghost before = lines(out@);
            match it.next() {
                Some(child) => {
                    assert(nodes[0] == child@);
                    self.dump_node(&child, depth + 1, out);
                    assert(before + dump_all(b, node@, nodes, d) =~= lines(out@) + dump_all(
                        b,
                        node@,
                        it.remaining(),
                        d,
                    ));
                },
                None => {
                    assert(before + dump_all(b, node@, nodes, d) =~= before);
                    break ;
                },
            }
        }
        assert(lines(old(out)@) + head + kids =~= lines(old(out)@) + dump_lines(
            b,
            node@,
            depth as nat,
        ));
    }

    /// The whole tree, line by line; None if there is no root node.
    pub fn dump(&self) -> (r: Option<Vec<DumpLine>>)
        ensures
            match (r, root(self@)) {
                (Some(v), Some(o)) => lines(v@) == dump_lines(self@, o, 0),
                (None, None) => true,
                _ => false,
            },
    {
        let root = self.root()?;
        proof {
            use_type_invariant(self);
        }
        let mut out: Vec<DumpLine> = Vec::new();
        self.dump_node(&root, 0, &mut out);
        assert(lines(out@) =~= dump_lines(self@, root@, 0));
        Some(out)
    }
}

} // verus!
