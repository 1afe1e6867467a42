//! Layout detection on definitions and a shape test on type nodes.
//!
//! A tagged union can only be encoded layout-stably when its definition
//! carries the C-layout marker, `repr(C)`. The probe here reports exactly
//! that; every other `repr` option is ignored, with no error.

use vstd::prelude::*;

use crate::ast::Attr;
use crate::ast::AttrV;
use crate::ast::Meta;
use crate::ast::MetaV;
use crate::ast::TypeShape;
use crate::ast::attrs_view;
use crate::ast::metas_view;
use crate::scan::attr_items_for;
use crate::scan::lemma_scan_elem_dst;
use crate::scan::lemma_scan_elem_src;
use crate::scan::scan_spec;

verus! {

/// Whether a scanned item is the bare word `C`.
pub open spec fn is_c_word(m: MetaV) -> bool {
    m matches MetaV::WordV(name) && name == "C"@
}

/// Whether a definition's annotations carry the C-layout marker: some
/// annotation whose leading path is `repr` has the bare word `C` among its
/// list items.
pub open spec fn has_c_layout_spec(attrs: Seq<AttrV>) -> bool {
    exists|i: int, j: int|
        0 <= i < attrs.len() && 0 <= j < attr_items_for("repr"@, attrs[i]).len() && is_c_word(
            attr_items_for("repr"@, attrs[i])[j],
        )
}

/// Reports whether a definition has the `repr(C)` annotation set.
pub fn has_c_layout(attributes: &[Attr]) -> (r: bool)
    ensures
        r == has_c_layout_spec(attrs_view(attributes@)),
{
    let ghost av = attrs_view(attributes@);
    let metas = crate::scan::scan_attributes("repr", attributes);
    let ghost mv = metas_view(metas@);
    let c: String = "C".to_owned();
    let mut k: usize = 0;
    while k < metas.len()
        invariant
            k <= metas@.len(),
            c@ == "C"@,
            mv == metas_view(metas@),
            mv == scan_spec("repr"@, av),
            av == attrs_view(attributes@),
            forall|t: int| 0 <= t < k ==> !is_c_word(#[trigger] mv[t]),
        decreases metas@.len() - k,
    {
        if let Meta::Word { name } = &metas[k] {
            if *name == c {
                proof {
                    assert(is_c_word(mv[k as int]));
                    lemma_scan_elem_src("repr"@, av, k as int);
                }
                return true;
            }
        }
        proof {
            assert(!is_c_word(mv[k as int]));
        }
        k += 1;
    }
    proof {
        if has_c_layout_spec(av) {
            let (i, j): (int, int) = choose|i: int, j: int|
                0 <= i < av.len() && 0 <= j < attr_items_for("repr"@, av[i]).len() && is_c_word(
                    attr_items_for("repr"@, av[i])[j],
                );
            lemma_scan_elem_dst("repr"@, av, i, j);
        }
    }
    false
}

/// Reports whether a type node denotes a fixed-size array.
pub fn is_array(ty: &TypeShape) -> (r: bool)
    ensures
        r == (*ty is Array),
{
    match ty {
        TypeShape::Array => true,
        _ => false,
    }
}

} // verus!
