//! The definition-wide version of a type.
//!
//! Every field exposes the version window in which it is present; the
//! encoder writes records at the definition's current version, the maximum
//! endpoint over all windows. An empty field list yields version 0.

use vstd::prelude::*;

verus! {

/// The capability of exposing a version window. Field descriptors built by
/// the generator implement it; the aggregator is polymorphic over it.
pub trait Exists {
    /// The first version in which the field is present.
    spec fn start_spec(&self) -> u16;

    /// The last version in which the field is present.
    spec fn end_spec(&self) -> u16;

    /// Returns the first version in which the field is present.
    fn start_version(&self) -> (r: u16)
        ensures
            r == self.start_spec(),
    ;

    /// Returns the last version in which the field is present.
    fn end_version(&self) -> (r: u16)
        ensures
            r == self.end_spec(),
    ;
}

/// A plain version window: the interval of wire versions in which a field
/// is present.
#[derive(Debug, Clone, Copy, PartialEq, Eq)]
pub struct VersionWindow {
    /// The first version in which the field is present.
    pub start: u16,
    /// The last version in which the field is present.
    pub end: u16,
}

impl Exists for VersionWindow {
    open spec fn start_spec(&self) -> u16 {
        self.start
    }

    open spec fn end_spec(&self) -> u16 {
        self.end
    }

    fn start_version(&self) -> (r: u16) {
        self.start
    }

    fn end_version(&self) -> (r: u16) {
        self.end
    }
}

/// The larger of two version numbers.
pub open spec fn max_u16(a: u16, b: u16) -> u16 {
    if a >= b {
        a
    } else {
        b
    }
}

/// The maximum over all window endpoints of a field list; 0 when the list
/// is empty.
pub open spec fn version_spec<T: Exists>(fields: Seq<T>) -> u16
    decreases fields.len(),
{
    if fields.len() == 0 {
        0
    } else {
        max_u16(
            version_spec(fields.drop_last()),
            max_u16(fields.last().start_spec(), fields.last().end_spec()),
        )
    }
}

/// Computes the current version of a definition: the latest version in
/// which any of its fields changed.
pub fn compute_version<T: Exists>(fields: &[T]) -> (r: u16)
    ensures
        r == version_spec(fields@),
{
    let mut version: u16 = 0;
    let mut i: usize = 0;
    while i < fields.len()
        invariant
            i <= fields@.len(),
            version == version_spec(fields@.subrange(0, i as int)),
        decreases fields@.len() - i,
    {
        proof {
            assert(fields@.subrange(0, i as int + 1).drop_last() =~= fields@.subrange(0, i as int));
            assert(fields@.subrange(0, i as int + 1).last() == fields@[i as int]);
        }
        let start = fields[i].start_version();
        let end = fields[i].end_version();
        let mut next = version;
        if start > next {
            next = start;
        }
        if end > next {
            next = end;
        }
        version = next;
        i += 1;
    }
    proof {
        assert(fields@.subrange(0, fields@.len() as int) =~= fields@);
    }
    version
}

/// The computed version bounds every field's window: it is at least every
/// start and every end version, it is 0 on an empty field list, and on a
/// nonempty list it is attained at some field's window endpoint.
pub proof fn lemma_compute_version_bounds<T: Exists>(fields: Seq<T>)
    ensures
        forall|i: int|
            0 <= i < fields.len() ==> version_spec(fields) >= (#[trigger] fields[i]).start_spec()
                && version_spec(fields) >= fields[i].end_spec(),
        fields.len() == 0 ==> version_spec(fields) == 0,
        fields.len() > 0 ==> exists|i: int|
            0 <= i < fields.len() && (version_spec(fields) == (#[trigger] fields[i]).start_spec()
                || version_spec(fields) == fields[i].end_spec()),
    decreases fields.len(),
{
    if fields.len() > 0 {
        lemma_compute_version_bounds(fields.drop_last());
        assert(fields.last() == fields[fields.len() - 1]);
        assert(forall|i: int| 0 <= i < fields.len() - 1 ==> fields.drop_last()[i] == fields[i]);
        let v = version_spec(fields);
        let pre = version_spec(fields.drop_last());
        if v == pre && fields.len() > 1 {
            let d = fields.drop_last();
            let w: int = choose|i: int|
                0 <= i < d.len() && (pre == (#[trigger] d[i]).start_spec()
                    || pre == d[i].end_spec());
            assert(d[w] == fields[w]);
            assert(0 <= w < fields.len() && (v == fields[w].start_spec()
                || v == fields[w].end_spec()));
        }
    }
}

} // verus!
