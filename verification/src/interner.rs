//! The process-wide string interner.
//!
//! All string storage in the metric column and in every tag key and tag value
//! goes through [`intern`]. Two interned handles compare equal exactly when
//! the underlying strings are byte-equal, and comparing or cloning a handle
//! never copies string bytes.

use vstd::prelude::*;

use internment::ArcIntern;

verus! {

#[verifier::external_type_specification]
#[verifier::external_body]
#[verifier::reject_recursive_types(T)]
pub struct ExArcIntern<T: ?Sized + Eq + std::hash::Hash + Send + Sync + 'static>(ArcIntern<T>);

/// The string an interned handle stands for, as a sequence of characters.
pub uninterp spec fn interned_str(h: ArcIntern<String>) -> Seq<char>;

/// The strings a sequence of interned handles stands for.
pub open spec fn interned_strs(hs: Seq<ArcIntern<String>>) -> Seq<Seq<char>> {
    hs.map_values(|h: ArcIntern<String>| interned_str(h))
}

/// Relies on `internment::ArcIntern::new`: the returned handle is the
/// canonical one for this string's content.
#[verifier::external_body]
pub fn intern(s: &str) -> (r: ArcIntern<String>)
    ensures
        interned_str(r) == s@,
{
    ArcIntern::new(s.to_string())
}

/// Relies on `internment::ArcIntern`'s `PartialEq`: handles are pointers into
/// a container keyed by string content, so pointer equality holds exactly when
/// the contents are byte-equal.
#[verifier::external_body]
pub fn interned_eq(a: &ArcIntern<String>, b: &ArcIntern<String>) -> (r: bool)
    ensures
        r == (interned_str(*a) == interned_str(*b)),
{
    a == b
}

/// Relies on `internment::ArcIntern::clone`: cloning only bumps a reference
/// count and returns a handle to the same interned string.
#[verifier::external_body]
pub fn interned_clone(a: &ArcIntern<String>) -> (r: ArcIntern<String>)
    ensures
        interned_str(r) == interned_str(*a),
{
    a.clone()
}

/// Interning agrees with byte equality: for any two strings, the handles
/// returned by [`intern`] compare equal exactly when the strings are equal.
pub fn intern_agrees(s1: &str, s2: &str) -> (r: bool)
    ensures
        r == (s1@ == s2@),
{
    let a = intern(s1);
    let b = intern(s2);
    interned_eq(&a, &b)
}

} // verus!
