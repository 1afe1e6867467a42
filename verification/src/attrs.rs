//! The field-annotation map and its typed accessors.
//!
//! Options written under the facility's marker name, `version`, are
//! flattened into a name-to-literal map; a name written twice keeps its
//! later value. Scanning and parsing never fail: unrecognized or malformed
//! items simply contribute nothing. Value-kind checking is strict but
//! deferred to the typed accessors, so an option a generator never asks
//! for is never rejected.

use vstd::prelude::*;

use crate::ast::Attr;
use crate::ast::AttrV;
use crate::ast::Ident;
use crate::ast::Lit;
use crate::ast::LitV;
use crate::ast::Meta;
use crate::ast::MetaV;
use crate::ast::attrs_view;
use crate::ast::metas_view;
use crate::decimal::dec_value;
use crate::decimal::is_digits;
use crate::decimal::u16_from_digits;
use crate::decimal::u16_of_digits;
use crate::scan::attr_items_for;
use crate::scan::lemma_scan_concat;
use crate::scan::lemma_scan_elem_src;
use crate::scan::scan_attributes;
use crate::scan::scan_spec;

verus! {

/// The marker name under which this facility owns annotations.
pub open spec fn marker_name() -> Seq<char> {
    "version"@
}

/// The option naming the first version in which a field is present.
pub open spec fn start_version_key() -> Seq<char> {
    "start_version"@
}

/// The option naming the last version in which a field is present.
pub open spec fn end_version_key() -> Seq<char> {
    "end_version"@
}

/// A value-kind error raised by a typed accessor.
#[derive(Debug, Clone, Copy, PartialEq, Eq)]
pub enum AttrError {
    /// A version option carried something other than an integer that fits
    /// an unsigned 16-bit range.
    IntegerExpected,
    /// An identifier option carried something other than a string.
    StringExpected,
}

impl AttrError {
    /// The fixed diagnostic the generator reports for this error.
    pub fn message(&self) -> (r: String)
        ensures
            *self is IntegerExpected ==> r@ == "Field start/end version number must be an integer"@,
            *self is StringExpected ==> r@ == "default_fn must be the function name as a String."@,
    {
        match self {
            AttrError::IntegerExpected => "Field start/end version number must be an integer".to_owned(),
            AttrError::StringExpected => "default_fn must be the function name as a String.".to_owned(),
        }
    }
}

/// One entry of an [`AttrMap`].
#[derive(Debug, PartialEq, Eq)]
pub struct AttrEntry {
    pub name: String,
    pub value: Lit,
}

/// The map built from insertions in order: a later entry for a name
/// replaces an earlier one.
pub open spec fn entries_map(s: Seq<AttrEntry>) -> Map<Seq<char>, LitV>
    decreases s.len(),
{
    if s.len() == 0 {
        Map::empty()
    } else {
        entries_map(s.drop_last()).insert(s.last().name@, s.last().value@)
    }
}

/// An unordered mapping from option name to literal value, as parsed from
/// one field's annotations.
#[derive(Debug, PartialEq, Eq)]
pub struct AttrMap {
    entries: Vec<AttrEntry>,
}

impl View for AttrMap {
    type V = Map<Seq<char>, LitV>;

    closed spec fn view(&self) -> Map<Seq<char>, LitV> {
        entries_map(self.entries@)
    }
}

/// When nothing after position `i` binds the same name, the map holds
/// entry `i`'s value for that name.
proof fn lemma_entries_map_at(s: Seq<AttrEntry>, i: int)
    requires
        0 <= i < s.len(),
        forall|k: int| i < k < s.len() ==> (#[trigger] s[k]).name@ != s[i].name@,
    ensures
        entries_map(s).contains_key(s[i].name@),
        entries_map(s)[s[i].name@] == s[i].value@,
    decreases s.len(),
{
    if i == s.len() - 1 {
        assert(s.last() == s[i]);
    } else {
        assert(s.drop_last()[i] == s[i]);
        assert(forall|k: int|
            i < k < s.drop_last().len() ==> (#[trigger] s.drop_last()[k]).name@
                != s.drop_last()[i].name@);
        lemma_entries_map_at(s.drop_last(), i);
        assert(s.last() == s[s.len() - 1]);
        assert(s.last().name@ != s[i].name@);
        assert(s.drop_last()[i] == s[i]);
    }
}

/// A name bound by no entry is absent from the map.
proof fn lemma_entries_map_absent(s: Seq<AttrEntry>, key: Seq<char>)
    requires
        forall|k: int| 0 <= k < s.len() ==> (#[trigger] s[k]).name@ != key,
    ensures
        !entries_map(s).contains_key(key),
    decreases s.len(),
{
    if s.len() > 0 {
        lemma_entries_map_absent(s.drop_last(), key);
        assert(s.last() == s[s.len() - 1]);
    }
}

impl AttrMap {
    /// Looks an option name up; the returned literal is the one the map
    /// holds for it.
    pub fn get(&self, name: &str) -> (r: Option<&Lit>)
        ensures
            match r {
                Some(l) => self@.contains_key(name@) && l@ == self@[name@],
                None => !self@.contains_key(name@),
            },
    {
        let key: String = name.to_owned();
        let n = self.entries.len();
        let mut i: usize = n;
        while i > 0
            invariant
                i <= n,
                n == self.entries@.len(),
                key@ == name@,
                forall|k: int| i <= k < n ==> (#[trigger] self.entries@[k]).name@ != name@,
            decreases i,
        {
            i -= 1;
            if self.entries[i].name == key {
                proof {
                    lemma_entries_map_at(self.entries@, i as int);
                }
                return Some(&self.entries[i].value);
            }
        }
        proof {
            lemma_entries_map_absent(self.entries@, name@);
        }
        None
    }
}

/// The map the name/value items of a scanned sequence build up, later
/// occurrences of a name replacing earlier ones; every other item shape is
/// skipped.
pub open spec fn map_of_metas(metas: Seq<MetaV>) -> Map<Seq<char>, LitV>
    decreases metas.len(),
{
    if metas.len() == 0 {
        Map::empty()
    } else {
        match metas.last() {
            MetaV::NameValueV(name, value) => map_of_metas(metas.drop_last()).insert(name, value),
            _ => map_of_metas(metas.drop_last()),
        }
    }
}

/// What parsing a field's annotations yields: the map built from the
/// name/value items found under the marker name.
pub open spec fn parse_spec(attrs: Seq<AttrV>) -> Map<Seq<char>, LitV> {
    map_of_metas(scan_spec(marker_name(), attrs))
}

/// Builds the attribute map of one field from its annotations.
pub fn parse_field_attributes(attributes: &[Attr]) -> (r: AttrMap)
    ensures
        r@ == parse_spec(attrs_view(attributes@)),
{
    let metas = scan_attributes("version", attributes);
    let ghost mv = metas_view(metas@);
    let mut entries: Vec<AttrEntry> = Vec::new();
    let mut j: usize = 0;
    while j < metas.len()
        invariant
            j <= metas@.len(),
            mv == metas_view(metas@),
            entries_map(entries@) == map_of_metas(mv.subrange(0, j as int)),
        decreases metas@.len() - j,
    {
        proof {
            assert(mv.subrange(0, j as int + 1).drop_last() =~= mv.subrange(0, j as int));
            assert(mv.subrange(0, j as int + 1).last() == mv[j as int]);
            assert(mv[j as int] == metas@[j as int]@);
        }
        let ghost entries_pre = entries@;
        match &metas[j] {
            Meta::NameValue { name, value } => {
                entries.push(AttrEntry { name: name.clone(), value: value.clone() });
                proof {
                    assert(entries@.drop_last() =~= entries_pre);
                }
            },
            _ => {},
        }
        j += 1;
    }
    proof {
        assert(mv.subrange(0, metas@.len() as int) =~= mv);
    }
    AttrMap { entries }
}

/// What a typed version accessor yields on a map: no value when the option
/// is absent, its 16-bit value when it is an integer in range, the
/// integer-expected error otherwise.
pub open spec fn version_value_of(m: Map<Seq<char>, LitV>, key: Seq<char>) -> Result<
    Option<u16>,
    AttrError,
> {
    if !m.contains_key(key) {
        Ok(None)
    } else {
        match m[key] {
            LitV::IntLit(digits) => match u16_of_digits(digits) {
                Some(v) => Ok(Some(v)),
                None => Err(AttrError::IntegerExpected),
            },
            _ => Err(AttrError::IntegerExpected),
        }
    }
}

/// Extracts the `start_version` option of a field.
pub fn get_start_version(attrs: &AttrMap) -> (r: Result<Option<u16>, AttrError>)
    ensures
        r == version_value_of(attrs@, start_version_key()),
{
    get_version_attr(attrs, "start_version")
}

/// Extracts the `end_version` option of a field.
pub fn get_end_version(attrs: &AttrMap) -> (r: Result<Option<u16>, AttrError>)
    ensures
        r == version_value_of(attrs@, end_version_key()),
{
    get_version_attr(attrs, "end_version")
}

/// Extracts a version-valued option.
fn get_version_attr(attrs: &AttrMap, attr_name: &str) -> (r: Result<Option<u16>, AttrError>)
    ensures
        r == version_value_of(attrs@, attr_name@),
{
    match attrs.get(attr_name) {
        None => Ok(None),
        Some(lit) => match lit {
            Lit::Integer { digits } => match u16_from_digits(digits) {
                Some(v) => Ok(Some(v)),
                None => Err(AttrError::IntegerExpected),
            },
            _ => Err(AttrError::IntegerExpected),
        },
    }
}

/// Extracts a string-valued option as an identifier: no value when the
/// option is absent, an identifier spelled as the string's content when it
/// is a string, the string-expected error otherwise.
pub fn get_ident_attr(attrs: &AttrMap, attr_name: &str) -> (r: Result<Option<Ident>, AttrError>)
    ensures
        !attrs@.contains_key(attr_name@) ==> r == Ok::<Option<Ident>, AttrError>(None),
        attrs@.contains_key(attr_name@) ==> match attrs@[attr_name@] {
            LitV::StrLit(text) => r matches Ok(o) && o matches Some(id) && id@ == text,
            _ => r == Err::<Option<Ident>, AttrError>(AttrError::StringExpected),
        },
{
    match attrs.get(attr_name) {
        None => Ok(None),
        Some(lit) => match lit {
            Lit::Str { value } => Ok(Some(Ident { text: value.clone() })),
            _ => Err(AttrError::StringExpected),
        },
    }
}

/// A version option written under the marker comes back out: a field
/// annotated `#[version(start_version = N)]` parses to a map from which
/// the accessor extracts exactly N, for every N in the unsigned 16-bit
/// range, whatever base-10 digits spell it.
pub proof fn lemma_version_extraction(a: AttrV, digits: Seq<u8>, n: u16)
    requires
        a.path == Some(marker_name()),
        a.items == Some(seq![MetaV::NameValueV(start_version_key(), LitV::IntLit(digits))]),
        is_digits(digits),
        dec_value(digits) == n,
    ensures
        version_value_of(parse_spec(seq![a]), start_version_key()) == Ok::<
            Option<u16>,
            AttrError,
        >(Some(n)),
{
    let s = seq![a];
    assert(s.drop_last() =~= Seq::<AttrV>::empty());
    assert(s.last() == a);
    let items = attr_items_for(marker_name(), a);
    let scanned = scan_spec(marker_name(), s);
    assert(scan_spec(marker_name(), Seq::<AttrV>::empty()) == Seq::<MetaV>::empty());
    assert(scanned == scan_spec(marker_name(), s.drop_last()) + attr_items_for(
        marker_name(),
        s.last(),
    ));
    assert(scanned =~= items);
    assert(scanned.drop_last() =~= Seq::<MetaV>::empty());
    assert(scanned.last() == MetaV::NameValueV(start_version_key(), LitV::IntLit(digits)));
    let m = parse_spec(s);
    assert(m.contains_key(start_version_key()));
    assert(m[start_version_key()] == LitV::IntLit(digits));
    assert(u16_of_digits(digits) == Some(n));
}

/// A name that no name/value item binds is absent from a built map.
proof fn lemma_map_of_metas_absent(metas: Seq<MetaV>, key: Seq<char>)
    requires
        forall|k: int|
            0 <= k < metas.len() ==> !((#[trigger] metas[k]) matches MetaV::NameValueV(name, _)
                && name == key),
    ensures
        !map_of_metas(metas).contains_key(key),
    decreases metas.len(),
{
    if metas.len() > 0 {
        assert(metas.last() == metas[metas.len() - 1]);
        assert(forall|k: int| 0 <= k < metas.drop_last().len() ==> metas.drop_last()[k] == metas[k]);
        lemma_map_of_metas_absent(metas.drop_last(), key);
    }
}

/// An absent option yields no value: when no item under the marker binds a
/// name, the parsed map has no entry for it, and the typed version
/// accessors return no value on it.
pub proof fn lemma_absent_option(attrs: Seq<AttrV>, key: Seq<char>)
    requires
        forall|i: int, j: int|
            0 <= i < attrs.len() && 0 <= j < attr_items_for(marker_name(), attrs[i]).len() ==> !((
            #[trigger] attr_items_for(marker_name(), attrs[i])[j]) matches MetaV::NameValueV(
                name,
                _,
            ) && name == key),
    ensures
        !parse_spec(attrs).contains_key(key),
        version_value_of(parse_spec(attrs), key) == Ok::<Option<u16>, AttrError>(None),
{
    let scanned = scan_spec(marker_name(), attrs);
    assert forall|k: int|
        0 <= k < scanned.len() implies !((#[trigger] scanned[k]) matches MetaV::NameValueV(
        name,
        _,
    ) && name == key) by {
        lemma_scan_elem_src(marker_name(), attrs, k);
        let (i, j): (int, int) = choose|i: int, j: int|
            0 <= i < attrs.len() && 0 <= j < attr_items_for(marker_name(), attrs[i]).len()
                && scanned[k] == attr_items_for(marker_name(), attrs[i])[j];
    }
    lemma_map_of_metas_absent(scanned, key);
}

/// Annotations whose leading path is not the marker contribute nothing to
/// the parsed attribute map, wherever in the list they stand.
pub proof fn lemma_marker_isolation(before: Seq<AttrV>, a: AttrV, after: Seq<AttrV>)
    requires
        a.path != Some(marker_name()),
    ensures
        parse_spec(before + seq![a] + after) == parse_spec(before + after),
{
    lemma_scan_concat(marker_name(), before + seq![a], after);
    lemma_scan_concat(marker_name(), before, seq![a]);
    lemma_scan_concat(marker_name(), before, after);
    assert(seq![a].drop_last() =~= Seq::<AttrV>::empty());
    assert(seq![a].last() == a);
    assert(attr_items_for(marker_name(), a) =~= Seq::<MetaV>::empty());
    assert(scan_spec(marker_name(), Seq::<AttrV>::empty()) == Seq::<MetaV>::empty());
    assert(scan_spec(marker_name(), seq![a]) == scan_spec(marker_name(), seq![a].drop_last())
        + attr_items_for(marker_name(), seq![a].last()));
    assert(scan_spec(marker_name(), seq![a]) =~= Seq::<MetaV>::empty());
    assert(scan_spec(marker_name(), before + seq![a]) =~= scan_spec(marker_name(), before));
    assert(scan_spec(marker_name(), before + seq![a] + after) =~= scan_spec(
        marker_name(),
        before + after,
    ));
}

/// Parsing is a function of the annotation list alone: the same list
/// parsed twice yields equal maps.
pub proof fn lemma_parse_idempotent(first: Seq<AttrV>, second: Seq<AttrV>)
    requires
        first == second,
    ensures
        parse_spec(first) == parse_spec(second),
{
}

} // verus!
