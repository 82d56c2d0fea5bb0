//! Devicetrees as they are written, and that the reader gets back what was
//! written.
//!
//! A tree is a mathematical value here, and its encoding a sequence of bytes.
//! Each law puts an encoded tree somewhere into a blob and says what the reader
//! makes of it.

use crate::arch::aarch64::fdt::{DumpLineView, PropValueView, ReserveEntry};
use vstd::prelude::*;

verus! {

/// An item of a node's body.
pub enum Item {
    /// Nothing.
    Nop,
    /// A property: its name, where the string block holds it, and its data.
    Prop { name: Seq<u8>, nameoff: u32, data: Seq<u8> },
    /// A node below this one.
    Node { name: Seq<u8>, items: Seq<Item> },
}

/// A node.
pub open spec fn node(name: Seq<u8>, items: Seq<Item>) -> Item {
    Item::Node { name, items }
}

/// A property.
pub open spec fn property(name: Seq<u8>, nameoff: u32, data: Seq<u8>) -> Item {
    Item::Prop { name, nameoff, data }
}

/// A number as four bytes, the most significant first.
pub open spec fn word(v: u32) -> Seq<u8> {
    seq![
        (v / 0x100_0000) as u8,
        (v / 0x1_0000 % 0x100) as u8,
        (v / 0x100 % 0x100) as u8,
        (v % 0x100) as u8,
    ]
}

/// A number as eight bytes, the most significant first.
pub open spec fn dword(v: u64) -> Seq<u8> {
    word((v / 0x1_0000_0000) as u32) + word((v % 0x1_0000_0000) as u32)
}

/// `s` filled up with NULs to whole words.
pub open spec fn filled(s: Seq<u8>) -> Seq<u8> {
    s + Seq::new(((4 - s.len() % 4) % 4) as nat, |i: int| 0u8)
}

/// How an item is written.
pub open spec fn encoded(item: Item) -> Seq<u8>
    decreases item,
{
    match item {
        Item::Nop => word(4),
        Item::Prop { name, nameoff, data } => word(3) + word(data.len() as u32) + word(nameoff)
            + filled(data),
        Item::Node { name, items } => word(1) + filled(name.push(0)) + encoded_all(items) + word(2),
    }
}

/// How items are written, one behind the other.
pub open spec fn encoded_all(items: Seq<Item>) -> Seq<u8>
    decreases items,
{
    if items.len() == 0 {
        Seq::empty()
    } else {
        encoded(items[0]) + encoded_all(items.subrange(1, items.len() as int))
    }
}

/// `s` stands in `b` at `off`.
pub open spec fn stands_at(b: Seq<u8>, off: int, s: Seq<u8>) -> bool {
    0 <= off && off + s.len() <= b.len() && b.subrange(off, off + s.len()) == s
}

/// `name` can be written: UTF-8 without a NUL.
pub open spec fn is_name(name: Seq<u8>) -> bool {
    vstd::utf8::valid_utf8(name) && !name.contains(0)
}

/// `item` can be written into `b`: its names are names, the string block holds
/// the properties' names, and lengths fit.
pub open spec fn fits(b: Seq<u8>, item: Item) -> bool
    decreases item,
{
    match item {
        Item::Nop => true,
        Item::Prop { name, nameoff, data } => {
            let at = crate::arch::aarch64::fdt::off_dt_strings(b) + nameoff;
            &&& data.len() <= 0xFFFF_FFFF
            &&& is_name(name)
            &&& stands_at(b, at, name.push(0))
            &&& at + name.len() + 1 <= crate::arch::aarch64::fdt::strings_end(b)
        },
        Item::Node { name, items } => is_name(name) && fit_all(b, items),
    }
}

pub open spec fn fit_all(b: Seq<u8>, items: Seq<Item>) -> bool
    decreases items,
{
    items.len() == 0 || (fits(b, items[0]) && fit_all(b, items.subrange(1, items.len() as int)))
}

/// The items that follow the first.
pub open spec fn rest(items: Seq<Item>) -> Seq<Item> {
    items.subrange(1, items.len() as int)
}

/// `s` stands in the structure block of the valid blob `b` at `off`.
pub open spec fn written(b: Seq<u8>, off: int, s: Seq<u8>) -> bool {
    &&& crate::arch::aarch64::fdt::valid_header(b)
    &&& 0 < off
    &&& stands_at(b, off, s)
    &&& off + s.len() <= crate::arch::aarch64::fdt::struct_end(b)
}

proof fn lemma_split(b: Seq<u8>, off: int, x: Seq<u8>, y: Seq<u8>)
    requires
        stands_at(b, off, x + y),
    ensures
        stands_at(b, off, x),
        stands_at(b, off + x.len(), y),
{
    let s = x + y;
    let z = b.subrange(off, off + s.len());
    assert forall|i: int| 0 <= i < x.len() implies b[off + i] == x[i] by {
        assert(z[i] == s[i]);
    }
    assert forall|i: int| 0 <= i < y.len() implies b[off + x.len() + i] == y[i] by {
        assert(z[x.len() + i] == s[x.len() + i]);
    }
    assert(b.subrange(off, off + x.len()) =~= x);
    assert(b.subrange(off + x.len(), off + x.len() + y.len()) =~= y);
}

/// A number that was written is read back.
pub proof fn law_numbers_are_read_back(b: Seq<u8>, off: int, v: u32)
    requires
        stands_at(b, off, word(v)),
    ensures
        crate::arch::aarch64::fdt::be32(b, off) == v,
{
    let z = b.subrange(off, off + 4);
    assert(z =~= word(v));
    assert(b[off] == z[0] && b[off + 1] == z[1] && b[off + 2] == z[2] && b[off + 3] == z[3]);
    assert(v / 0x100_0000 < 0x100);
    assert(v == v / 0x100_0000 * 0x100_0000 + v / 0x1_0000 % 0x100 * 0x1_0000 + v / 0x100 % 0x100
        * 0x100 + v % 0x100);
}

/// So is a 64-bit number.
pub proof fn law_long_numbers_are_read_back(b: Seq<u8>, off: int, v: u64)
    requires
        stands_at(b, off, dword(v)),
    ensures
        crate::arch::aarch64::fdt::be64(b, off) == v,
{
    let hi = (v / 0x1_0000_0000) as u32;
    let lo = (v % 0x1_0000_0000) as u32;
    lemma_split(b, off, word(hi), word(lo));
    law_numbers_are_read_back(b, off, hi);
    law_numbers_are_read_back(b, off + 4, lo);
}

/// A text that was written with its terminator is read back.
proof fn lemma_cstr(b: Seq<u8>, off: int, name: Seq<u8>, limit: int)
    requires
        is_name(name),
        stands_at(b, off, name.push(0)),
        off + name.len() + 1 <= limit <= b.len(),
    ensures
        crate::arch::aarch64::fdt::cstr_at(b, off, limit) == Some(name),
{
    let s = b.subrange(off, limit);
    let z = b.subrange(off, off + name.len() + 1);
    assert(z =~= name.push(0));
    assert forall|j: int| 0 <= j < name.len() implies s[j] != 0 by {
        assert(s[j] == z[j]);
        assert(name.contains(name[j]));
    }
    assert(s[name.len() as int] == z[name.len() as int]);
    crate::text::lemma_byte_position(s, 0, name.len());
    assert(s.take(name.len() as int) =~= name) by {
        assert forall|j: int| 0 <= j < name.len() implies s[j] == name[j] by {
            assert(s[j] == z[j]);
        }
    }
}

/// The parts of a written node: its opening token, its name, its body and its
/// closing token.
proof fn lemma_node_parts(b: Seq<u8>, off: int, name: Seq<u8>, items: Seq<Item>)
    requires
        written(b, off, encoded(node(name, items))),
        is_name(name),
    ensures
        crate::arch::aarch64::fdt::be32(b, off) == 1,
        crate::arch::aarch64::fdt::node_name(b, off) == Some(name),
        crate::arch::aarch64::fdt::after_name(b, off) == Some(body_at(off, name)),
        written(b, body_at(off, name), encoded_all(items)),
        crate::arch::aarch64::fdt::be32(b, body_at(off, name) + encoded_all(items).len()) == 2,
        off + encoded(node(name, items)).len() == body_at(off, name) + encoded_all(
            items,
        ).len() + 4,
{
    let body = encoded_all(items);
    let named = filled(name.push(0));
    let gap = Seq::new(((4 - name.push(0).len() % 4) % 4) as nat, |i: int| 0u8);
    lemma_split(b, off, word(1) + named + body, word(2));
    lemma_split(b, off, word(1) + named, body);
    lemma_split(b, off, word(1), named);
    lemma_split(b, off + 4, name.push(0), gap);
    law_numbers_are_read_back(b, off, 1);
    law_numbers_are_read_back(b, off + 4 + named.len() + body.len(), 2);
    lemma_cstr(b, off + 4, name, crate::arch::aarch64::fdt::totalsize(b));
}

/// Where the body of a node at `off` called `name` starts: behind the token and
/// the terminated, filled-up name.
pub open spec fn body_at(off: int, name: Seq<u8>) -> int {
    off + 4 + filled(name.push(0)).len()
}

/// Filling up makes whole words, and no more than are needed.
proof fn lemma_filled(s: Seq<u8>)
    ensures
        filled(s).len() == crate::arch::aarch64::fdt::pad4(s.len() as int),
        filled(s).take(s.len() as int) == s,
{
    assert(filled(s).take(s.len() as int) =~= s);
}

/// What it takes for a node to fit.
proof fn lemma_fits_node(b: Seq<u8>, name: Seq<u8>, items: Seq<Item>)
    requires
        fits(b, node(name, items)),
    ensures
        is_name(name),
        fit_all(b, items),
{
}

/// The parts of a written property.
proof fn lemma_prop_parts(b: Seq<u8>, off: int, name: Seq<u8>, nameoff: u32, data: Seq<u8>)
    requires
        written(b, off, encoded(property(name, nameoff, data))),
        fits(b, property(name, nameoff, data)),
    ensures
        crate::arch::aarch64::fdt::be32(b, off) == 3,
        crate::arch::aarch64::fdt::be32(b, off + 4) == data.len(),
        crate::arch::aarch64::fdt::be32(b, off + 8) == nameoff,
        crate::arch::aarch64::fdt::string_at(b, nameoff) == Some(name),
        b.subrange(off + 12, off + 12 + data.len()) == data,
        off + 12 + data.len() <= crate::arch::aarch64::fdt::struct_end(b),
        off + encoded(property(name, nameoff, data)).len() == off + 12
            + crate::arch::aarch64::fdt::pad4(data.len() as int),
{
    let len = data.len() as u32;
    let gap = filled(data).skip(data.len() as int);
    lemma_filled(data);
    assert(filled(data) =~= data + gap);
    lemma_split(b, off, word(3) + word(len) + word(nameoff), filled(data));
    lemma_split(b, off, word(3) + word(len), word(nameoff));
    lemma_split(b, off, word(3), word(len));
    lemma_split(b, off + 12, data, gap);
    law_numbers_are_read_back(b, off, 3);
    law_numbers_are_read_back(b, off + 4, len);
    law_numbers_are_read_back(b, off + 8, nameoff);
    lemma_cstr(
        b,
        crate::arch::aarch64::fdt::off_dt_strings(b) + nameoff,
        name,
        crate::arch::aarch64::fdt::strings_end(b),
    );
}

/// The first of several written items, and those behind it.
proof fn lemma_items_parts(b: Seq<u8>, off: int, items: Seq<Item>)
    requires
        written(b, off, encoded_all(items)),
        items.len() > 0,
    ensures
        written(b, off, encoded(items[0])),
        written(b, off + encoded(items[0]).len(), encoded_all(rest(items))),
        encoded_all(items).len() == encoded(items[0]).len() + encoded_all(rest(items)).len(),
{
    lemma_split(b, off, encoded(items[0]), encoded_all(rest(items)));
}

/// Where the nodes among `items` stand, written from `off` on. What is nested in
/// them does not count.
pub open spec fn node_offsets(off: int, items: Seq<Item>) -> Seq<int>
    decreases items,
{
    if items.len() == 0 {
        Seq::empty()
    } else {
        let next = off + encoded(items[0]).len();
        let behind = node_offsets(next, items.subrange(1, items.len() as int));
        if items[0] is Node {
            seq![off] + behind
        } else {
            behind
        }
    }
}

/// Inside an open node a whole item is passed over, however deep it is nested.
proof fn lemma_pass_item(b: Seq<u8>, off: int, item: Item, depth: nat)
    requires
        written(b, off, encoded(item)),
        fits(b, item),
        depth > 0,
    ensures
        crate::arch::aarch64::fdt::nodes_from(b, off, depth)
            == crate::arch::aarch64::fdt::nodes_from(b, off + encoded(item).len(), depth),
    decreases item,
{
    match item {
        Item::Nop => {
            law_numbers_are_read_back(b, off, 4);
        },
        Item::Prop { name, nameoff, data } => {
            lemma_prop_parts(b, off, name, nameoff, data);
        },
        Item::Node { name, items } => {
            lemma_node_parts(b, off, name, items);
            lemma_pass_items(b, body_at(off, name), items, depth + 1);
        },
    }
}

proof fn lemma_pass_items(b: Seq<u8>, off: int, items: Seq<Item>, depth: nat)
    requires
        written(b, off, encoded_all(items)),
        fit_all(b, items),
        depth > 0,
    ensures
        crate::arch::aarch64::fdt::nodes_from(b, off, depth)
            == crate::arch::aarch64::fdt::nodes_from(b, off + encoded_all(items).len(), depth),
    decreases items,
{
    if items.len() > 0 {
        lemma_items_parts(b, off, items);
        lemma_pass_item(b, off, items[0], depth);
        lemma_pass_items(
            b,
            off + encoded(items[0]).len(),
            items.subrange(1, items.len() as int),
            depth,
        );
    }
}

/// At the level of the children each node is listed once.
proof fn lemma_list_items(b: Seq<u8>, off: int, items: Seq<Item>)
    requires
        written(b, off, encoded_all(items)),
        fit_all(b, items),
    ensures
        crate::arch::aarch64::fdt::nodes_from(b, off, 0) == node_offsets(off, items)
            + crate::arch::aarch64::fdt::nodes_from(b, off + encoded_all(items).len(), 0),
    decreases items,
{
    let tail = crate::arch::aarch64::fdt::nodes_from(b, off + encoded_all(items).len(), 0);
    if items.len() == 0 {
        assert(Seq::<int>::empty() + tail =~= tail);
    } else {
        let next = off + encoded(items[0]).len();
        lemma_items_parts(b, off, items);
        lemma_list_items(b, next, items.subrange(1, items.len() as int));
        let behind = node_offsets(next, items.subrange(1, items.len() as int));
        match items[0] {
            Item::Nop => {
                law_numbers_are_read_back(b, off, 4);
            },
            Item::Prop { name, nameoff, data } => {
                lemma_prop_parts(b, off, name, nameoff, data);
            },
            Item::Node { name, items: inner } => {
                lemma_fits_node(b, name, inner);
                lemma_node_parts(b, off, name, inner);
                lemma_pass_items(b, body_at(off, name), inner, 1);
                assert(seq![off] + (behind + tail) =~= (seq![off] + behind) + tail);
            },
        }
    }
}

/// Nothing is lost by starting at the first child.
proof fn lemma_first_child(b: Seq<u8>, off: int, items: Seq<Item>)
    requires
        written(b, off, encoded_all(items)),
        fit_all(b, items),
        crate::arch::aarch64::fdt::be32(b, off + encoded_all(items).len()) == 2,
        off + encoded_all(items).len() + 4 <= crate::arch::aarch64::fdt::struct_end(b),
    ensures
        match crate::arch::aarch64::fdt::child_from(b, off) {
            Some(o) => crate::arch::aarch64::fdt::nodes_from(b, o, 0)
                == crate::arch::aarch64::fdt::nodes_from(b, off, 0),
            None => node_offsets(off, items) == Seq::<int>::empty(),
        },
    decreases items,
{
    if items.len() > 0 {
        lemma_items_parts(b, off, items);
        match items[0] {
            Item::Nop => {
                law_numbers_are_read_back(b, off, 4);
                lemma_first_child(
                    b,
                    off + encoded(items[0]).len(),
                    items.subrange(1, items.len() as int),
                );
            },
            Item::Prop { name, nameoff, data } => {
                lemma_prop_parts(b, off, name, nameoff, data);
                lemma_first_child(
                    b,
                    off + encoded(items[0]).len(),
                    items.subrange(1, items.len() as int),
                );
            },
            Item::Node { name, items: inner } => {
                lemma_fits_node(b, name, inner);
                lemma_node_parts(b, off, name, inner);
            },
        }
    }
}

/// The children of a node are exactly the nodes it directly encloses, in order,
/// whatever is nested in them and whatever stands between them.
pub proof fn law_children_are_read_back(b: Seq<u8>, off: int, name: Seq<u8>, items: Seq<Item>)
    requires
        written(b, off, encoded(node(name, items))),
        fits(b, node(name, items)),
    ensures
        crate::arch::aarch64::fdt::children(b, off) == node_offsets(body_at(off, name), items),
{
    let start = body_at(off, name);
    let end = start + encoded_all(items).len();
    lemma_node_parts(b, off, name, items);
    lemma_list_items(b, start, items);
    lemma_first_child(b, start, items);
    assert(crate::arch::aarch64::fdt::nodes_from(b, end, 0) =~= Seq::<int>::empty());
    assert(node_offsets(start, items) + Seq::<int>::empty() =~= node_offsets(start, items));
}

/// A node's name is read back.
pub proof fn law_names_are_read_back(b: Seq<u8>, off: int, name: Seq<u8>, items: Seq<Item>)
    requires
        written(b, off, encoded(node(name, items))),
        is_name(name),
    ensures
        crate::arch::aarch64::fdt::node_name(b, off) == Some(name),
        crate::arch::aarch64::fdt::full_name_bytes(b, off) == name,
{
    lemma_node_parts(b, off, name, items);
}

/// The data of the first property called `key` that stands before any node.
pub open spec fn prop_in(items: Seq<Item>, key: Seq<u8>) -> Option<Seq<u8>>
    decreases items,
{
    if items.len() == 0 {
        None
    } else {
        match items[0] {
            Item::Nop => prop_in(items.subrange(1, items.len() as int), key),
            Item::Prop { name, nameoff, data } => if name == key {
                Some(data)
            } else {
                prop_in(items.subrange(1, items.len() as int), key)
            },
            Item::Node { name, items } => None,
        }
    }
}

proof fn lemma_prop_in(b: Seq<u8>, off: int, items: Seq<Item>, key: Seq<u8>)
    requires
        written(b, off, encoded_all(items)),
        fit_all(b, items),
        crate::arch::aarch64::fdt::be32(b, off + encoded_all(items).len()) == 2,
    ensures
        crate::arch::aarch64::fdt::props_from(b, off, key) == prop_in(items, key),
    decreases items,
{
    if items.len() > 0 {
        lemma_items_parts(b, off, items);
        match items[0] {
            Item::Nop => {
                law_numbers_are_read_back(b, off, 4);
            },
            Item::Prop { name, nameoff, data } => {
                lemma_prop_parts(b, off, name, nameoff, data);
            },
            Item::Node { name, items: inner } => {
                lemma_fits_node(b, name, inner);
                lemma_node_parts(b, off, name, inner);
            },
        }
        if !(items[0] is Node) {
            lemma_prop_in(
                b,
                off + encoded(items[0]).len(),
                items.subrange(1, items.len() as int),
                key,
            );
        }
    }
}

/// A property's data is read back: that of the first property of that name, and
/// nothing if the node has none.
pub proof fn law_props_are_read_back(
    b: Seq<u8>,
    off: int,
    name: Seq<u8>,
    items: Seq<Item>,
    key: Seq<u8>,
)
    requires
        written(b, off, encoded(node(name, items))),
        fits(b, node(name, items)),
    ensures
        crate::arch::aarch64::fdt::prop(b, off, key) == prop_in(items, key),
{
    lemma_node_parts(b, off, name, items);
    lemma_prop_in(b, body_at(off, name), items, key);
}

/// Where the nodes of a tree stand that is written at `off`: each node before the
/// nodes below it.
pub open spec fn offsets(off: int, item: Item) -> Seq<int>
    decreases item,
{
    match item {
        Item::Node { name, items } => seq![off] + offsets_all(body_at(off, name), items),
        _ => Seq::empty(),
    }
}

pub open spec fn offsets_all(off: int, items: Seq<Item>) -> Seq<int>
    decreases items,
{
    if items.len() == 0 {
        Seq::empty()
    } else {
        offsets(off, items[0]) + offsets_all(
            off + encoded(items[0]).len(),
            items.subrange(1, items.len() as int),
        )
    }
}

/// The reader visits every node of a written tree, each once and each before the
/// nodes below it.
pub proof fn law_every_node_is_visited(b: Seq<u8>, off: int, name: Seq<u8>, items: Seq<Item>)
    requires
        written(b, off, encoded(node(name, items))),
        fits(b, node(name, items)),
    ensures
        crate::arch::aarch64::fdt::preorder(b, off) == offsets(off, node(name, items)),
    decreases node(name, items),
{
    lemma_node_parts(b, off, name, items);
    law_children_are_read_back(b, off, name, items);
    lemma_visit_all(b, off, body_at(off, name), items);
}

proof fn lemma_visit_step(b: Seq<u8>, parent: int, off: int, behind: Seq<int>)
    requires
        parent < off < crate::arch::aarch64::fdt::struct_end(b),
    ensures
        crate::arch::aarch64::fdt::preorder_all(b, parent, seq![off] + behind)
            == crate::arch::aarch64::fdt::preorder(b, off)
            + crate::arch::aarch64::fdt::preorder_all(b, parent, behind),
{
    let nodes = seq![off] + behind;
    assert(nodes[0] == off);
    assert(nodes.drop_first() =~= behind);
}

proof fn lemma_visit_all(b: Seq<u8>, parent: int, off: int, items: Seq<Item>)
    requires
        written(b, off, encoded_all(items)),
        fit_all(b, items),
        parent < off,
    ensures
        crate::arch::aarch64::fdt::preorder_all(b, parent, node_offsets(off, items))
            == offsets_all(off, items),
    decreases items,
{
    if items.len() > 0 {
        let next = off + encoded(items[0]).len();
        let behind = items.subrange(1, items.len() as int);
        lemma_items_parts(b, off, items);
        lemma_visit_all(b, parent, next, behind);
        match items[0] {
            Item::Node { name, items: inner } => {
                lemma_fits_node(b, name, inner);
                lemma_node_parts(b, off, name, inner);
                assert(items[0] == node(name, inner));
                law_every_node_is_visited(b, off, name, inner);
                lemma_visit_step(b, parent, off, node_offsets(next, behind));
            },
            _ => {
                let t = offsets_all(next, behind);
                assert(offsets(off, items[0]) == Seq::<int>::empty());
                assert(Seq::<int>::empty() + t =~= t);
            },
        }
    }
}

/// A node is compatible with what stands in the first string of its `compatible`
/// property, and without one it is compatible with nothing.
pub proof fn law_compatible_is_the_first_string(
    b: Seq<u8>,
    off: int,
    name: Seq<u8>,
    items: Seq<Item>,
    first: Seq<u8>,
    more: Seq<u8>,
    key: Seq<u8>,
)
    requires
        written(b, off, encoded(node(name, items))),
        fits(b, node(name, items)),
        is_name(first),
        key.len() > 0,
    ensures
        prop_in(items, vstd::utf8::encode_utf8("compatible"@)) == Some(first + seq![0u8] + more)
            ==> (crate::arch::aarch64::fdt::is_compatible(b, off, key) <==> exists|
            x: Seq<u8>,
            y: Seq<u8>,
        |
            first == #[trigger] (x + key + y)),
        prop_in(items, vstd::utf8::encode_utf8("compatible"@)) is None
            ==> !crate::arch::aarch64::fdt::is_compatible(b, off, key),
{
    let compatible = vstd::utf8::encode_utf8("compatible"@);
    law_props_are_read_back(b, off, name, items, compatible);
    let text = vstd::utf8::encode_utf8(crate::arch::aarch64::fdt::compatible_text(b, off));
    if prop_in(items, compatible) == Some(first + seq![0u8] + more) {
        let data = first + seq![0u8] + more;
        assert forall|j: int| 0 <= j < first.len() implies data[j] != 0 by {
            assert(first.contains(first[j]));
        }
        crate::text::lemma_byte_position(data, 0, first.len());
        assert(crate::arch::aarch64::fdt::before_nul(data) =~= first);
        vstd::utf8::decode_utf8_encode_utf8(first);
        assert(text == first);
        crate::text::law_occurs(first, key);
    }
    if prop_in(items, compatible) is None {
        assert(crate::arch::aarch64::fdt::compatible_text(b, off).len() == 0);
        assert(text =~= Seq::<u8>::empty());
        if crate::text::occurs(text, key) {
            let i = choose|i: int| crate::text::occurs_at(text, key, i);
            assert(crate::text::occurs_at(text, key, i));
        }
    }
}

/// A path component names a node: by its whole name, or, without a unit address,
/// by what stands before the node's.
pub open spec fn called(name: Seq<u8>, component: Seq<u8>) -> bool {
    ||| name == component
    ||| !component.contains(0x40) && name.len() > component.len() && name[component.len() as int]
        == 0x40 && name.take(component.len() as int) == component
}

/// The first node among `items`, written from `off` on, that `component` names.
pub open spec fn child_called(off: int, items: Seq<Item>, component: Seq<u8>) -> Option<(int, Item)>
    decreases items,
{
    if items.len() == 0 {
        None
    } else if items[0] is Node && called(items[0]->Node_name, component) {
        Some((off, items[0]))
    } else {
        child_called(
            off + encoded(items[0]).len(),
            items.subrange(1, items.len() as int),
            component,
        )
    }
}

/// Where a path leads from the node `item` at `off`.
pub open spec fn followed(off: int, item: Item, path: Seq<Seq<u8>>) -> Option<int>
    decreases path.len(),
{
    if path.len() == 0 {
        Some(off)
    } else {
        match child_called(body_at(off, item->Node_name), item->Node_items, path[0]) {
            Some((o, child)) => followed(o, child, path.drop_first()),
            None => None,
        }
    }
}

proof fn lemma_called(name: Seq<u8>, component: Seq<u8>)
    ensures
        crate::arch::aarch64::fdt::name_matches(name, component) == called(name, component),
{
    let n = crate::text::byte_position(name, 0x40) as int;
    crate::text::lemma_position_is_first(name, 0x40);
    let bare = crate::arch::aarch64::fdt::bare_name(name);
    if !component.contains(0x40) && name != component {
        if bare == component {
            assert(n < name.len()) by {
                if n == name.len() {
                    assert(bare =~= name);
                }
            }
            assert(name.take(component.len() as int) =~= component);
        }
        if called(name, component) {
            let c = component.len() as int;
            assert forall|j: int| 0 <= j < c implies name[j] != 0x40 by {
                assert(name[j] == name.take(c)[j]);
                assert(component.contains(component[j]));
            }
            crate::text::lemma_byte_position(name, 0x40, component.len());
        }
    }
}

proof fn lemma_child_called(b: Seq<u8>, off: int, items: Seq<Item>, component: Seq<u8>)
    requires
        written(b, off, encoded_all(items)),
        fit_all(b, items),
    ensures
        match child_called(off, items, component) {
            Some((o, child)) => crate::arch::aarch64::fdt::pick(
                b,
                node_offsets(off, items),
                component,
            ) == Some(o) && child is Node && written(b, o, encoded(child)) && fits(b, child),
            None => crate::arch::aarch64::fdt::pick(b, node_offsets(off, items), component) is None,
        },
    decreases items,
{
    if items.len() > 0 {
        let next = off + encoded(items[0]).len();
        let behind = items.subrange(1, items.len() as int);
        lemma_items_parts(b, off, items);
        lemma_child_called(b, next, behind, component);
        match items[0] {
            Item::Node { name, items: inner } => {
                lemma_fits_node(b, name, inner);
                lemma_node_parts(b, off, name, inner);
                lemma_called(name, component);
                assert(node_offsets(off, items).drop_first() =~= node_offsets(next, behind));
            },
            _ => {},
        }
    }
}

proof fn lemma_followed(b: Seq<u8>, off: int, item: Item, path: Seq<Seq<u8>>)
    requires
        item is Node,
        written(b, off, encoded(item)),
        fits(b, item),
    ensures
        crate::arch::aarch64::fdt::descend(b, off, path) == followed(off, item, path),
    decreases path.len(),
{
    if path.len() > 0 {
        let name = item->Node_name;
        let items = item->Node_items;
        lemma_fits_node(b, name, items);
        lemma_node_parts(b, off, name, items);
        law_children_are_read_back(b, off, name, items);
        lemma_child_called(b, body_at(off, name), items, path[0]);
        match child_called(body_at(off, name), items, path[0]) {
            Some((o, child)) => {
                lemma_followed(b, o, child, path.drop_first());
            },
            None => {},
        }
    }
}

/// A path is written with a slash before each component.
pub open spec fn slashed(path: Seq<Seq<u8>>) -> Seq<u8>
    decreases path.len(),
{
    if path.len() == 0 {
        Seq::empty()
    } else {
        seq![0x2fu8] + path[0] + slashed(path.drop_first())
    }
}

/// Something that can stand between two slashes.
pub open spec fn is_component(c: Seq<u8>) -> bool {
    c.len() > 0 && !c.contains(0x2f)
}

/// A written path is taken apart into its components again.
pub proof fn law_paths_are_taken_apart(path: Seq<Seq<u8>>)
    requires
        forall|i: int| 0 <= i < path.len() ==> is_component(#[trigger] path[i]),
    ensures
        crate::arch::aarch64::fdt::components(slashed(path)) == path,
    decreases path.len(),
{
    if path.len() == 0 {
        assert(crate::arch::aarch64::fdt::components(slashed(path)) =~= path);
    } else {
        let more = path.drop_first();
        assert forall|i: int| 0 <= i < more.len() implies is_component(#[trigger] more[i]) by {
            assert(more[i] == path[i + 1]);
        }
        law_paths_are_taken_apart(more);
        assert(is_component(path[0]));
        let s = slashed(path);
        let t = path[0] + slashed(more);
        assert(s[0] == 0x2f);
        assert(s.skip(1) =~= t);
        assert(crate::arch::aarch64::fdt::components(s) == crate::arch::aarch64::fdt::components(t));
        let n = path[0].len();
        assert forall|j: int| 0 <= j < n implies t[j] != 0x2f by {
            assert(path[0].contains(path[0][j]));
        }
        crate::text::lemma_byte_position(t, 0x2f, n);
        assert(t.take(n as int) =~= path[0]);
        if more.len() > 0 {
            assert(t[n as int] == 0x2f);
            let u = more[0] + slashed(more.drop_first());
            assert(t.skip(n as int + 1) =~= u);
            assert(slashed(more).skip(1) =~= u);
            assert(slashed(more)[0] == 0x2f);
            assert(crate::arch::aarch64::fdt::components(slashed(more))
                == crate::arch::aarch64::fdt::components(u));
        }
        assert(crate::arch::aarch64::fdt::components(t) == seq![path[0]]
            + crate::arch::aarch64::fdt::components(slashed(more)));
        assert(seq![path[0]] + more =~= path);
    }
}

/// A path finds the node it leads to in the tree that was written: component by
/// component, the first child of that name.
pub proof fn law_paths_find_their_nodes(b: Seq<u8>, item: Item, path: Seq<Seq<u8>>)
    requires
        item is Node,
        written(b, crate::arch::aarch64::fdt::off_dt_struct(b), encoded(item)),
        fits(b, item),
        forall|i: int| 0 <= i < path.len() ==> is_component(#[trigger] path[i]),
    ensures
        crate::arch::aarch64::fdt::root(b) == Some(crate::arch::aarch64::fdt::off_dt_struct(b)),
        crate::arch::aarch64::fdt::find(b, slashed(path)) == followed(
            crate::arch::aarch64::fdt::off_dt_struct(b),
            item,
            path,
        ),
{
    let off = crate::arch::aarch64::fdt::off_dt_struct(b);
    lemma_fits_node(b, item->Node_name, item->Node_items);
    lemma_node_parts(b, off, item->Node_name, item->Node_items);
    law_paths_are_taken_apart(path);
    lemma_followed(b, off, item, path);
}

/// The lines for a node's own properties.
pub open spec fn own_lines(items: Seq<Item>, depth: nat) -> Seq<DumpLineView>
    decreases items,
{
    if items.len() == 0 {
        Seq::empty()
    } else {
        match items[0] {
            Item::Nop => own_lines(items.subrange(1, items.len() as int), depth),
            Item::Prop { name, nameoff, data } => seq![
                DumpLineView::Prop(
                    depth,
                    vstd::utf8::decode_utf8(name),
                    crate::arch::aarch64::fdt::value_of(data),
                ),
            ] + own_lines(items.subrange(1, items.len() as int), depth),
            Item::Node { name, items } => Seq::empty(),
        }
    }
}

/// The lines for a tree: the node, its properties one level in, and the nodes
/// below it.
pub open spec fn tree_lines(item: Item, depth: nat) -> Seq<DumpLineView>
    decreases item,
{
    match item {
        Item::Node { name, items } => seq![
            DumpLineView::Node(
                depth,
                if name.len() == 0 {
                    "/"@
                } else {
                    vstd::utf8::decode_utf8(name)
                },
            ),
        ] + own_lines(items, depth + 1) + tree_lines_all(items, depth + 1),
        _ => Seq::empty(),
    }
}

pub open spec fn tree_lines_all(items: Seq<Item>, depth: nat) -> Seq<DumpLineView>
    decreases items,
{
    if items.len() == 0 {
        Seq::empty()
    } else {
        tree_lines(items[0], depth) + tree_lines_all(items.subrange(1, items.len() as int), depth)
    }
}

proof fn lemma_own_lines(b: Seq<u8>, off: int, items: Seq<Item>, depth: nat)
    requires
        written(b, off, encoded_all(items)),
        fit_all(b, items),
        crate::arch::aarch64::fdt::be32(b, off + encoded_all(items).len()) == 2,
    ensures
        crate::arch::aarch64::fdt::prop_lines(b, off, depth) == own_lines(items, depth),
    decreases items,
{
    if items.len() > 0 {
        lemma_items_parts(b, off, items);
        match items[0] {
            Item::Nop => {
                law_numbers_are_read_back(b, off, 4);
            },
            Item::Prop { name, nameoff, data } => {
                lemma_prop_parts(b, off, name, nameoff, data);
            },
            Item::Node { name, items: inner } => {
                lemma_fits_node(b, name, inner);
                lemma_node_parts(b, off, name, inner);
            },
        }
        if !(items[0] is Node) {
            lemma_own_lines(
                b,
                off + encoded(items[0]).len(),
                items.subrange(1, items.len() as int),
                depth,
            );
        }
    }
}

/// The dump of a written tree shows what was written: every node under its name
/// and every property with its data, in order and as deep as they are nested.
pub proof fn law_dump_shows_the_tree(
    b: Seq<u8>,
    off: int,
    name: Seq<u8>,
    items: Seq<Item>,
    depth: nat,
)
    requires
        written(b, off, encoded(node(name, items))),
        fits(b, node(name, items)),
    ensures
        crate::arch::aarch64::fdt::dump_lines(b, off, depth) == tree_lines(
            node(name, items),
            depth,
        ),
    decreases node(name, items),
{
    lemma_node_parts(b, off, name, items);
    law_children_are_read_back(b, off, name, items);
    lemma_own_lines(b, body_at(off, name), items, depth + 1);
    lemma_lines_all(b, off, body_at(off, name), items, depth + 1);
    lemma_decoded_length(name);
}

/// Only nothing is written as nothing.
proof fn lemma_decoded_length(name: Seq<u8>)
    requires
        vstd::utf8::valid_utf8(name),
    ensures
        vstd::utf8::decode_utf8(name).len() == 0 <==> name.len() == 0,
{
    vstd::utf8::decode_utf8_encode_utf8(name);
    if vstd::utf8::decode_utf8(name).len() == 0 {
        assert(vstd::utf8::decode_utf8(name) =~= Seq::<char>::empty());
        assert(vstd::utf8::encode_utf8(Seq::<char>::empty()) =~= Seq::<u8>::empty());
    }
    if name.len() == 0 {
        assert(vstd::utf8::decode_utf8(name).len() == 0);
    }
}

proof fn lemma_lines_step(b: Seq<u8>, parent: int, off: int, behind: Seq<int>, depth: nat)
    requires
        parent < off < crate::arch::aarch64::fdt::struct_end(b),
    ensures
        crate::arch::aarch64::fdt::dump_all(b, parent, seq![off] + behind, depth)
            == crate::arch::aarch64::fdt::dump_lines(b, off, depth)
            + crate::arch::aarch64::fdt::dump_all(b, parent, behind, depth),
{
    let nodes = seq![off] + behind;
    assert(nodes[0] == off);
    assert(nodes.drop_first() =~= behind);
}

proof fn lemma_lines_all(b: Seq<u8>, parent: int, off: int, items: Seq<Item>, depth: nat)
    requires
        written(b, off, encoded_all(items)),
        fit_all(b, items),
        parent < off,
    ensures
        crate::arch::aarch64::fdt::dump_all(b, parent, node_offsets(off, items), depth)
            == tree_lines_all(items, depth),
    decreases items,
{
    if items.len() > 0 {
        let next = off + encoded(items[0]).len();
        let behind = items.subrange(1, items.len() as int);
        lemma_items_parts(b, off, items);
        lemma_lines_all(b, parent, next, behind, depth);
        match items[0] {
            Item::Node { name, items: inner } => {
                lemma_fits_node(b, name, inner);
                lemma_node_parts(b, off, name, inner);
                assert(items[0] == node(name, inner));
                law_dump_shows_the_tree(b, off, name, inner, depth);
                lemma_lines_step(b, parent, off, node_offsets(next, behind), depth);
            },
            _ => {
                let t = tree_lines_all(behind, depth);
                assert(tree_lines(items[0], depth) == Seq::<DumpLineView>::empty());
                assert(Seq::<DumpLineView>::empty() + t =~= t);
            },
        }
    }
}

/// Numbers written one behind the other.
pub open spec fn words(ws: Seq<u32>) -> Seq<u8>
    decreases ws.len(),
{
    if ws.len() == 0 {
        Seq::empty()
    } else {
        word(ws[0]) + words(ws.drop_first())
    }
}

proof fn lemma_words(b: Seq<u8>, off: int, ws: Seq<u32>, i: int)
    requires
        stands_at(b, off, words(ws)),
        0 <= i < ws.len(),
    ensures
        stands_at(b, off + 4 * i, word(ws[i])),
    decreases ws.len(),
{
    lemma_split(b, off, word(ws[0]), words(ws.drop_first()));
    if i > 0 {
        lemma_words(b, off + 4, ws.drop_first(), i - 1);
    }
}

proof fn lemma_words_len(ws: Seq<u32>)
    ensures
        words(ws).len() == 4 * ws.len(),
    decreases ws.len(),
{
    if ws.len() > 0 {
        lemma_words_len(ws.drop_first());
    }
}

proof fn lemma_word_of(b: Seq<u8>, w: Seq<u32>, i: int)
    requires
        stands_at(b, 0, words(w)),
        0 <= i < w.len(),
    ensures
        crate::arch::aarch64::fdt::be32(b, 4 * i) == w[i],
{
    lemma_words(b, 0, w, i);
    law_numbers_are_read_back(b, 4 * i, w[i]);
}

/// The header is ten words: the magic number, the size of the blob, where the
/// structure block, the string block and the reserve map start, two versions,
/// the boot CPU, and the sizes of the string and the structure block. A blob is
/// accepted exactly if they are consistent.
pub proof fn law_headers_are_read_back(b: Seq<u8>, w: Seq<u32>)
    requires
        w.len() == 10,
        stands_at(b, 0, words(w)),
    ensures
        crate::arch::aarch64::fdt::totalsize(b) == w[1],
        crate::arch::aarch64::fdt::off_dt_struct(b) == w[2],
        crate::arch::aarch64::fdt::off_dt_strings(b) == w[3],
        crate::arch::aarch64::fdt::off_mem_rsvmap(b) == w[4],
        crate::arch::aarch64::fdt::boot_cpuid_phys(b) == w[7],
        crate::arch::aarch64::fdt::strings_end(b) == w[3] + w[8],
        crate::arch::aarch64::fdt::struct_end(b) == w[2] + w[9],
        crate::arch::aarch64::fdt::valid_header(b) <==> {
            &&& w[0] == 0xd00d_feed
            &&& 40 <= w[1] <= b.len()
            &&& 40 <= w[2]
            &&& w[2] + w[9] <= w[1]
            &&& w[3] + w[8] <= w[1]
        },
{
    lemma_words_len(w);
    lemma_word_of(b, w, 0);
    lemma_word_of(b, w, 1);
    lemma_word_of(b, w, 2);
    lemma_word_of(b, w, 3);
    lemma_word_of(b, w, 4);
    lemma_word_of(b, w, 7);
    lemma_word_of(b, w, 8);
    lemma_word_of(b, w, 9);
}

/// The cells of a property are the numbers that were written.
pub proof fn law_cells_are_read_back(ws: Seq<u32>)
    ensures
        crate::arch::aarch64::fdt::cells(words(ws)) == ws,
{
    let b = words(ws);
    lemma_words_len(ws);
    assert(b.subrange(0, b.len() as int) =~= b);
    assert forall|i: int| 0 <= i < ws.len() implies crate::arch::aarch64::fdt::cells(b)[i]
        == ws[i] by {
        lemma_words(b, 0, ws, i);
        law_numbers_are_read_back(b, 4 * i, ws[i]);
    }
    assert(crate::arch::aarch64::fdt::cells(b) =~= ws);
}

/// Reservations as they are written: two 64-bit numbers each.
pub open spec fn reserved(entries: Seq<ReserveEntry>) -> Seq<u8>
    decreases entries.len(),
{
    if entries.len() == 0 {
        Seq::empty()
    } else {
        dword(entries[0].address) + dword(entries[0].size) + reserved(entries.drop_first())
    }
}

/// The reservations are read back up to the entry that is all zero.
pub proof fn law_reservations_are_read_back(b: Seq<u8>, off: int, entries: Seq<ReserveEntry>)
    requires
        stands_at(b, off, reserved(entries) + dword(0) + dword(0)),
        off + reserved(entries).len() + 16 <= crate::arch::aarch64::fdt::totalsize(b),
        forall|i: int|
            0 <= i < entries.len() ==> (#[trigger] entries[i]).address != 0 || entries[i].size != 0,
    ensures
        crate::arch::aarch64::fdt::reserves_from(b, off) == entries,
    decreases entries.len(),
{
    if entries.len() == 0 {
        assert(reserved(entries) + dword(0) + dword(0) =~= dword(0) + dword(0));
        lemma_split(b, off, dword(0), dword(0));
        law_long_numbers_are_read_back(b, off, 0);
        law_long_numbers_are_read_back(b, off + 8, 0);
        assert(crate::arch::aarch64::fdt::reserves_from(b, off) =~= entries);
    } else {
        let e = entries[0];
        let more = entries.drop_first();
        let tail = reserved(more) + dword(0) + dword(0);
        assert(reserved(entries) + dword(0) + dword(0) =~= dword(e.address) + (dword(e.size) + tail));
        lemma_split(b, off, dword(e.address), dword(e.size) + tail);
        lemma_split(b, off + 8, dword(e.size), tail);
        law_long_numbers_are_read_back(b, off, e.address);
        law_long_numbers_are_read_back(b, off + 8, e.size);
        assert forall|i: int| 0 <= i < more.len() implies (#[trigger] more[i]).address != 0
            || more[i].size != 0 by {
            assert(more[i] == entries[i + 1]);
        }
        law_reservations_are_read_back(b, off + 16, more);
        assert(seq![e] + more =~= entries);
    }
}

/// `s` is text of printable ASCII characters.
pub open spec fn is_plain(s: Seq<u8>) -> bool {
    s.len() > 0 && forall|i: int| 0 <= i < s.len() ==> 32 <= #[trigger] s[i] <= 126
}

/// The dump shows what a value was made from: text as that text, whole numbers
/// as those numbers, and anything else byte by byte. Text is what is printable
/// and ends in the one NUL.
pub proof fn law_values_are_shown(s: Seq<u8>, ws: Seq<u32>, data: Seq<u8>)
    ensures
        crate::arch::aarch64::fdt::value_of(Seq::empty()) == PropValueView::Empty,
        is_plain(s) && vstd::utf8::valid_utf8(s) ==> crate::arch::aarch64::fdt::value_of(s.push(0))
            == PropValueView::Text(vstd::utf8::decode_utf8(s)),
        ws.len() > 0 && !(words(ws).last() == 0 && is_plain(words(ws).drop_last()))
            ==> crate::arch::aarch64::fdt::value_of(words(ws)) == PropValueView::Cells(ws),
        data.len() % 4 != 0 && !(data.last() == 0 && is_plain(data.drop_last()))
            ==> crate::arch::aarch64::fdt::value_of(data) == PropValueView::Bytes(data),
{
    lemma_words_len(ws);
    law_cells_are_read_back(ws);
    assert(s.push(0).drop_last() =~= s);
    assert forall|t: Seq<u8>| #[trigger] crate::arch::aarch64::fdt::printable(t)
        == is_plain(t) by {
        if crate::arch::aarch64::fdt::printable(t) {
            assert forall|i: int| 0 <= i < t.len() implies 32 <= #[trigger] t[i] <= 126 by {}
        }
        if is_plain(t) {
            assert forall|i: int| 0 <= i < t.len() implies 0x20 <= #[trigger] t[i] < 0x7f by {}
        }
    }
    assert(crate::arch::aarch64::fdt::printable(s) == is_plain(s));
    assert(crate::arch::aarch64::fdt::printable(words(ws).drop_last()) == is_plain(
        words(ws).drop_last(),
    ));
    assert(crate::arch::aarch64::fdt::printable(data.drop_last()) == is_plain(data.drop_last()));
}

/// A text property is read back up to its terminator, or to its end if it has
/// none.
pub proof fn law_strings_are_read_back(
    b: Seq<u8>,
    off: int,
    name: Seq<u8>,
    items: Seq<Item>,
    key: Seq<u8>,
    text: Seq<u8>,
    more: Seq<u8>,
)
    requires
        written(b, off, encoded(node(name, items))),
        fits(b, node(name, items)),
        is_name(text),
        prop_in(items, key) == Some(text + seq![0u8] + more) || prop_in(items, key) == Some(text),
    ensures
        crate::arch::aarch64::fdt::prop_text(b, off, key) == Some(vstd::utf8::decode_utf8(text)),
{
    law_props_are_read_back(b, off, name, items, key);
    let data = prop_in(items, key)->Some_0;
    assert forall|j: int| 0 <= j < text.len() implies data[j] != 0 by {
        assert(data[j] == text[j]);
        assert(text.contains(text[j]));
    }
    crate::text::lemma_byte_position(data, 0, text.len());
    assert(crate::arch::aarch64::fdt::before_nul(data) =~= text);
}

/// A node's name without its unit address is what stands before the at sign.
pub proof fn law_bare_names(base: Seq<u8>, unit: Seq<u8>)
    requires
        !base.contains(0x40),
    ensures
        crate::arch::aarch64::fdt::bare_name(base + seq![0x40u8] + unit) == base,
        crate::arch::aarch64::fdt::bare_name(base) == base,
{
    let full = base + seq![0x40u8] + unit;
    assert forall|j: int| 0 <= j < base.len() implies full[j] != 0x40 && base[j] != 0x40 by {
        assert(base.contains(base[j]));
    }
    assert(full[base.len() as int] == 0x40);
    crate::text::lemma_byte_position(full, 0x40, base.len());
    crate::text::lemma_byte_position(base, 0x40, base.len());
    assert(full.take(base.len() as int) =~= base);
    assert(base.take(base.len() as int) =~= base);
}

/// A slash at the start of a path, or one too many, adds nothing to it.
pub proof fn law_slashes_add_nothing(path: Seq<u8>)
    ensures
        crate::arch::aarch64::fdt::components(seq![0x2fu8] + path)
            == crate::arch::aarch64::fdt::components(path),
{
    let s = seq![0x2fu8] + path;
    assert(s[0] == 0x2f);
    assert(s.skip(1) =~= path);
    crate::text::lemma_byte_position(s, 0x2f, 0);
}

/// A search by `compatible` finds the first node of the tree, in the order it was
/// written, that matches.
pub proof fn law_search_finds_the_first(
    b: Seq<u8>,
    off: int,
    name: Seq<u8>,
    items: Seq<Item>,
    key: Seq<u8>,
    i: int,
)
    requires
        written(b, off, encoded(node(name, items))),
        fits(b, node(name, items)),
        0 <= i < offsets(off, node(name, items)).len(),
        crate::arch::aarch64::fdt::is_compatible(b, offsets(off, node(name, items))[i], key),
        forall|j: int|
            0 <= j < i ==> !crate::arch::aarch64::fdt::is_compatible(
                b,
                #[trigger] offsets(off, node(name, items))[j],
                key,
            ),
    ensures
        crate::arch::aarch64::fdt::search(b, off, key) == Some(
            offsets(off, node(name, items))[i],
        ),
{
    let nodes = offsets(off, node(name, items));
    law_every_node_is_visited(b, off, name, items);
    crate::arch::aarch64::fdt::law_search_is_preorder(b, off, key);
    match crate::arch::aarch64::fdt::search(b, off, key) {
        Some(o) => {
            let h = choose|h: int|
                0 <= h < nodes.len() && #[trigger] nodes[h] == o
                    && crate::arch::aarch64::fdt::is_compatible(b, o, key) && forall|j: int|
                    0 <= j < h ==> !crate::arch::aarch64::fdt::is_compatible(
                        b,
                        #[trigger] nodes[j],
                        key,
                    );
            if h < i {
                assert(!crate::arch::aarch64::fdt::is_compatible(b, nodes[h], key));
            }
            if i < h {
                assert(!crate::arch::aarch64::fdt::is_compatible(b, nodes[i], key));
            }
        },
        None => {
            assert(!crate::arch::aarch64::fdt::is_compatible(b, nodes[i], key));
        },
    }
}

/// A search finds nothing exactly if no node of the tree matches.
pub proof fn law_search_finds_nothing(
    b: Seq<u8>,
    off: int,
    name: Seq<u8>,
    items: Seq<Item>,
    key: Seq<u8>,
)
    requires
        written(b, off, encoded(node(name, items))),
        fits(b, node(name, items)),
    ensures
        crate::arch::aarch64::fdt::search(b, off, key) is None <==> forall|j: int|
            0 <= j < offsets(off, node(name, items)).len()
                ==> !crate::arch::aarch64::fdt::is_compatible(
                b,
                #[trigger] offsets(off, node(name, items))[j],
                key,
            ),
{
    law_every_node_is_visited(b, off, name, items);
    crate::arch::aarch64::fdt::law_search_is_preorder(b, off, key);
}

/// The node that is written at the start of the structure block is the root.
pub proof fn law_root_is_found(b: Seq<u8>, name: Seq<u8>, items: Seq<Item>)
    requires
        written(
            b,
            crate::arch::aarch64::fdt::off_dt_struct(b),
            encoded(node(name, items)),
        ),
    ensures
        crate::arch::aarch64::fdt::root(b) == Some(crate::arch::aarch64::fdt::off_dt_struct(b)),
{
    let off = crate::arch::aarch64::fdt::off_dt_struct(b);
    let behind = filled(name.push(0)) + encoded_all(items) + word(2);
    assert(encoded(node(name, items)) =~= word(1) + behind);
    lemma_split(b, off, word(1), behind);
    law_numbers_are_read_back(b, off, 1);
}

} // verus!
