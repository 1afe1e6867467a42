//! The shapes of annotations as the helpers read them.
//!
//! A host-language syntax tree carries far more than these helpers consume.
//! The types here keep exactly what the logic reads: an annotation's leading
//! path when it is a single identifier, the items of its parenthesised list
//! form, bare-path and name/value items inside such a list, and integer and
//! string literal values. Every other shape collapses into an `Other`
//! variant, which every consumer skips.

use vstd::prelude::*;

verus! {

/// A literal value attached to an annotation option.
#[derive(Debug, PartialEq, Eq)]
pub enum Lit {
    /// An integer literal, kept as its base-10 digits.
    Integer { digits: Vec<u8> },
    /// A string literal, kept as its content.
    Str { value: String },
    /// Any other literal kind. It is retained so that the typed accessors
    /// can reject it, but never consumed.
    Other,
}

/// The mathematical value of a [`Lit`].
pub enum LitV {
    IntLit(Seq<u8>),
    StrLit(Seq<char>),
    OtherLit,
}

impl View for Lit {
    type V = LitV;

    open spec fn view(&self) -> LitV {
        match self {
            Lit::Integer { digits } => LitV::IntLit(digits@),
            Lit::Str { value } => LitV::StrLit(value@),
            Lit::Other => LitV::OtherLit,
        }
    }
}

impl Clone for Lit {
    fn clone(&self) -> (r: Self)
        ensures
            r@ == self@,
    {
        match self {
            Lit::Integer { digits } => {
                let d = digits.clone();
                proof {
                    assert(d@ =~= digits@);
                }
                Lit::Integer { digits: d }
            },
            Lit::Str { value } => Lit::Str { value: value.clone() },
            Lit::Other => Lit::Other,
        }
    }
}

/// One item inside the parenthesised list of an annotation.
#[derive(Debug, PartialEq, Eq)]
pub enum Meta {
    /// A bare path that is a single identifier, such as `C` in `repr(C)`.
    Word { name: String },
    /// A name/value pair, such as `start_version = 2`.
    NameValue { name: String, value: Lit },
    /// Any other nested shape (a sublist, a bare literal, a longer path).
    /// Every consumer skips it.
    Other,
}

/// The mathematical value of a [`Meta`].
pub enum MetaV {
    WordV(Seq<char>),
    NameValueV(Seq<char>, LitV),
    OtherMetaV,
}

impl View for Meta {
    type V = MetaV;

    open spec fn view(&self) -> MetaV {
        match self {
            Meta::Word { name } => MetaV::WordV(name@),
            Meta::NameValue { name, value } => MetaV::NameValueV(name@, value@),
            Meta::Other => MetaV::OtherMetaV,
        }
    }
}

impl Clone for Meta {
    fn clone(&self) -> (r: Self)
        ensures
            r@ == self@,
    {
        match self {
            Meta::Word { name } => Meta::Word { name: name.clone() },
            Meta::NameValue { name, value } => Meta::NameValue {
                name: name.clone(),
                value: value.clone(),
            },
            Meta::Other => Meta::Other,
        }
    }
}

/// The value of a sequence of [`Meta`] items.
pub open spec fn metas_view(s: Seq<Meta>) -> Seq<MetaV> {
    s.map_values(|m: Meta| m@)
}

/// The inner shape of a whole annotation.
#[derive(Debug, PartialEq, Eq)]
pub enum AttrMeta {
    /// The parenthesised list form `#[name(item, ...)]`.
    List { items: Vec<Meta> },
    /// Any other form: a bare marker, a name/value pair at the annotation
    /// level, or tokens that do not parse as one of those. Such an
    /// annotation contributes nothing anywhere.
    Other,
}

/// One annotation on a definition or a field.
#[derive(Debug, PartialEq, Eq)]
pub struct Attr {
    /// The leading path, when it is a single identifier.
    pub path: Option<String>,
    /// The parsed inner shape.
    pub meta: AttrMeta,
}

/// The mathematical value of an [`Attr`]: its leading identifier and, when
/// it has the list form, the values of its items.
pub struct AttrV {
    pub path: Option<Seq<char>>,
    pub items: Option<Seq<MetaV>>,
}

impl View for Attr {
    type V = AttrV;

    open spec fn view(&self) -> AttrV {
        AttrV {
            path: match self.path {
                Some(p) => Some(p@),
                None => None,
            },
            items: match self.meta {
                AttrMeta::List { items } => Some(metas_view(items@)),
                AttrMeta::Other => None,
            },
        }
    }
}

/// The value of a sequence of annotations.
pub open spec fn attrs_view(s: Seq<Attr>) -> Seq<AttrV> {
    s.map_values(|a: Attr| a@)
}

/// An identifier produced from a string annotation value; the downstream
/// generator turns it into a real token.
#[derive(Debug, PartialEq, Eq)]
pub struct Ident {
    /// The identifier's spelling.
    pub text: String,
}

impl View for Ident {
    type V = Seq<char>;

    open spec fn view(&self) -> Seq<char> {
        self.text@
    }
}

/// The outermost shape of a type node, as much of it as the helpers read.
#[derive(Debug, Clone, Copy, PartialEq, Eq)]
pub enum TypeShape {
    /// A fixed-size array type.
    Array,
    /// A slice type.
    Slice,
    /// A reference type.
    Reference,
    /// A named (path) type.
    Named,
    /// A tuple type.
    Tuple,
    /// Any other shape.
    Other,
}

} // verus!
