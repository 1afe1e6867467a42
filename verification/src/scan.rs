//! Scanning annotations for one marker name.
//!
//! The scanner walks the annotations of a definition or a field in source
//! order, keeps exactly those whose leading path is the marker, and
//! flattens the items of their list forms into one sequence, again in
//! source order. An annotation under the marker that is not a list, or
//! whose path is not a single identifier, contributes nothing.

use vstd::prelude::*;

use crate::ast::Attr;
use crate::ast::AttrMeta;
use crate::ast::AttrV;
use crate::ast::MetaV;
use crate::ast::Meta;
use crate::ast::attrs_view;
use crate::ast::metas_view;

verus! {

/// The items one annotation contributes to a scan for `marker`: the items
/// of its list form when its leading path is exactly the marker, nothing
/// otherwise.
pub open spec fn attr_items_for(marker: Seq<char>, a: AttrV) -> Seq<MetaV> {
    if a.path == Some(marker) {
        match a.items {
            Some(items) => items,
            None => Seq::empty(),
        }
    } else {
        Seq::empty()
    }
}

/// What scanning an annotation list for `marker` yields: the concatenation,
/// in source order, of what each annotation contributes.
pub open spec fn scan_spec(marker: Seq<char>, attrs: Seq<AttrV>) -> Seq<MetaV>
    decreases attrs.len(),
{
    if attrs.len() == 0 {
        Seq::empty()
    } else {
        scan_spec(marker, attrs.drop_last()) + attr_items_for(marker, attrs.last())
    }
}

/// Scanning distributes over concatenation of annotation lists.
pub proof fn lemma_scan_concat(marker: Seq<char>, s1: Seq<AttrV>, s2: Seq<AttrV>)
    ensures
        scan_spec(marker, s1 + s2) == scan_spec(marker, s1) + scan_spec(marker, s2),
    decreases s2.len(),
{
    if s2.len() == 0 {
        assert(s1 + s2 =~= s1);
        assert(scan_spec(marker, s1) + scan_spec(marker, s2) =~= scan_spec(marker, s1));
    } else {
        lemma_scan_concat(marker, s1, s2.drop_last());
        assert((s1 + s2).drop_last() =~= s1 + s2.drop_last());
        assert((s1 + s2).last() == s2.last());
        assert(scan_spec(marker, s1 + s2) =~= scan_spec(marker, s1) + scan_spec(marker, s2));
    }
}

/// Every scanned item comes from the items of some annotation whose leading
/// path is the marker.
pub proof fn lemma_scan_elem_src(marker: Seq<char>, attrs: Seq<AttrV>, k: int)
    requires
        0 <= k < scan_spec(marker, attrs).len(),
    ensures
        exists|i: int, j: int|
            0 <= i < attrs.len() && 0 <= j < attr_items_for(marker, attrs[i]).len()
                && scan_spec(marker, attrs)[k] == attr_items_for(marker, attrs[i])[j],
    decreases attrs.len(),
{
    let pre = scan_spec(marker, attrs.drop_last());
    if k < pre.len() {
        lemma_scan_elem_src(marker, attrs.drop_last(), k);
        let (i, j): (int, int) = choose|i: int, j: int|
            0 <= i < attrs.drop_last().len() && 0 <= j < attr_items_for(
                marker,
                attrs.drop_last()[i],
            ).len() && pre[k] == attr_items_for(marker, attrs.drop_last()[i])[j];
        assert(attrs.drop_last()[i] == attrs[i]);
        assert(scan_spec(marker, attrs)[k] == attr_items_for(marker, attrs[i])[j]);
    } else {
        let i = attrs.len() - 1;
        let j = k - pre.len();
        assert(attrs.last() == attrs[i]);
        assert(scan_spec(marker, attrs)[k] == attr_items_for(marker, attrs[i])[j]);
    }
}

/// Every item of an annotation whose leading path is the marker appears in
/// the scan.
pub proof fn lemma_scan_elem_dst(marker: Seq<char>, attrs: Seq<AttrV>, i: int, j: int)
    requires
        0 <= i < attrs.len(),
        0 <= j < attr_items_for(marker, attrs[i]).len(),
    ensures
        exists|k: int|
            0 <= k < scan_spec(marker, attrs).len() && scan_spec(marker, attrs)[k]
                == attr_items_for(marker, attrs[i])[j],
    decreases attrs.len(),
{
    let pre = scan_spec(marker, attrs.drop_last());
    if i < attrs.len() - 1 {
        assert(attrs.drop_last()[i] == attrs[i]);
        lemma_scan_elem_dst(marker, attrs.drop_last(), i, j);
        let k: int = choose|k: int|
            0 <= k < pre.len() && pre[k] == attr_items_for(marker, attrs.drop_last()[i])[j];
        assert(scan_spec(marker, attrs)[k] == attr_items_for(marker, attrs[i])[j]);
    } else {
        let k = pre.len() + j;
        assert(attrs.last() == attrs[i]);
        assert(scan_spec(marker, attrs)[k] == attr_items_for(marker, attrs[i])[j]);
    }
}

/// Keeps the annotations whose leading path is exactly `attribute_name` and
/// flattens their list items into one vector, in source order.
pub fn scan_attributes(attribute_name: &str, attributes: &[Attr]) -> (r: Vec<Meta>)
    ensures
        metas_view(r@) == scan_spec(attribute_name@, attrs_view(attributes@)),
{
    let marker: String = attribute_name.to_owned();
    let mut out: Vec<Meta> = Vec::new();
    let mut i: usize = 0;
    while i < attributes.len()
        invariant
            i <= attributes@.len(),
            marker@ == attribute_name@,
            metas_view(out@) == scan_spec(
                attribute_name@,
                attrs_view(attributes@).subrange(0, i as int),
            ),
        decreases attributes@.len() - i,
    {
        let ghost pre = scan_spec(attribute_name@, attrs_view(attributes@).subrange(0, i as int));
        let ghost av = attrs_view(attributes@)[i as int];
        proof {
            assert(attrs_view(attributes@).subrange(0, i as int + 1).drop_last() =~= attrs_view(
                attributes@,
            ).subrange(0, i as int));
            assert(attrs_view(attributes@).subrange(0, i as int + 1).last() == av);
        }
        let attr = &attributes[i];
        let mut selected = false;
        if let Some(p) = &attr.path {
            if *p == marker {
                selected = true;
                if let AttrMeta::List { items } = &attr.meta {
                    let mut k: usize = 0;
                    while k < items.len()
                        invariant
                            k <= items@.len(),
                            av.items == Some(metas_view(items@)),
                            metas_view(out@) == pre + metas_view(items@).subrange(0, k as int),
                        decreases items@.len() - k,
                    {
                        let ghost out_pre = out@;
                        let m = items[k].clone();
                        out.push(m);
                        proof {
                            assert(metas_view(out@) =~= metas_view(out_pre).push(items@[k as int]@));
                            assert(metas_view(items@).subrange(0, k as int + 1) =~= metas_view(
                                items@,
                            ).subrange(0, k as int).push(items@[k as int]@));
                            assert(metas_view(out@) =~= pre + metas_view(items@).subrange(
                                0,
                                k as int + 1,
                            ));
                        }
                        k += 1;
                    }
                    proof {
                        assert(metas_view(items@).subrange(0, items@.len() as int) =~= metas_view(
                            items@,
                        ));
                        assert(attr_items_for(attribute_name@, av) == metas_view(items@));
                    }
                } else {
                    proof {
                        assert(attr_items_for(attribute_name@, av) =~= Seq::<MetaV>::empty());
                        assert(metas_view(out@) =~= pre + attr_items_for(attribute_name@, av));
                    }
                }
            }
        }
        proof {
            if !selected {
                assert(av.path != Some(attribute_name@));
                assert(attr_items_for(attribute_name@, av) =~= Seq::<MetaV>::empty());
                assert(metas_view(out@) =~= pre + attr_items_for(attribute_name@, av));
            }
            assert(metas_view(out@) == scan_spec(
                attribute_name@,
                attrs_view(attributes@).subrange(0, i as int + 1),
            ));
        }
        i += 1;
    }
    proof {
        assert(attrs_view(attributes@).subrange(0, attributes@.len() as int) =~= attrs_view(
            attributes@,
        ));
    }
    out
}

} // verus!
