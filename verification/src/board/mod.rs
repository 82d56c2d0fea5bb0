//! Boards: which machine this is and where its devices lie.

pub mod apple;
pub mod virt;

use crate::arch::aarch64::fdt::Fdtr;
use crate::text::{contains, starts_with};
use vstd::prelude::*;

verus! {

/// The boards the kernel knows.
#[derive(Clone, Copy, PartialEq, Eq, Structural, Debug)]
pub enum BoardKind {
    /// QEMU's `virt` machine.
    Virt,
    /// Apple Silicon.
    Apple,
}

/// The board whose devicetree root is compatible with `compat`: one that
/// mentions `qemu` is the virt machine, one that otherwise starts with `apple,`
/// is Apple Silicon, and the virt machine is the fallback.
pub open spec fn kind_of(compat: Seq<u8>) -> BoardKind {
    if crate::text::occurs(compat, vstd::utf8::encode_utf8("qemu"@)) {
        BoardKind::Virt
    } else if crate::text::occurs_at(compat, vstd::utf8::encode_utf8("apple,"@), 0) {
        BoardKind::Apple
    } else {
        BoardKind::Virt
    }
}

/// The board that devicetree `b` describes.
pub open spec fn board_of(b: Seq<u8>) -> BoardKind {
    match crate::arch::aarch64::fdt::root(b) {
        None => BoardKind::Virt,
        Some(off) => kind_of(
            vstd::utf8::encode_utf8(crate::arch::aarch64::fdt::compatible_text(b, off)),
        ),
    }
}

/// Decide which board this is from the devicetree root's `compatible`. No
/// devicetree, no root and no `compatible` all mean the virt machine.
pub fn which(fdt: Option<&Fdtr>) -> (k: BoardKind)
    ensures
        k == (match fdt {
            None => BoardKind::Virt,
            Some(f) => board_of(f@),
        }),
{
    match fdt {
        None => BoardKind::Virt,
        Some(fdt) => match fdt.root() {
            None => BoardKind::Virt,
            Some(root) => {
                let compat: &[u8] = fdt.compatible(&root).as_bytes();
                if contains(compat, "qemu".as_bytes()) {
                    return BoardKind::Virt;
                }
                if starts_with(compat, "apple,".as_bytes()) {
                    return BoardKind::Apple;
                }
                BoardKind::Virt
            },
        },
    }
}

/// The board is told by the root's first `compatible` string: `qemu` anywhere in
/// it means the virt machine, else `apple,` at its start means Apple Silicon, and
/// anything else means the virt machine too.
pub proof fn law_boards_are_told_apart(x: Seq<u8>, y: Seq<u8>, other: Seq<u8>)
    ensures
        kind_of(x + vstd::utf8::encode_utf8("qemu"@) + y) == BoardKind::Virt,
        !crate::text::occurs(
            vstd::utf8::encode_utf8("apple,"@) + y,
            vstd::utf8::encode_utf8("qemu"@),
        ) ==> kind_of(vstd::utf8::encode_utf8("apple,"@) + y) == BoardKind::Apple,
        (forall|z: Seq<u8>| other != #[trigger] (vstd::utf8::encode_utf8("apple,"@) + z)) ==> kind_of(
            other,
        ) == BoardKind::Virt,
{
    let qemu = vstd::utf8::encode_utf8("qemu"@);
    let apple = vstd::utf8::encode_utf8("apple,"@);
    crate::text::law_occurs(x + qemu + y, qemu);
    crate::text::law_occurs(apple + y, apple);
    crate::text::law_occurs(other, apple);
}

} // verus!
