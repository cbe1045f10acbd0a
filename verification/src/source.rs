use vstd::prelude::*;
use crate::strings::str_eq;

verus! {

/// Capability a caller-defined source type must provide: a deterministic,
/// canonical string form usable both for storage and for equality filtering.
///
/// `canon` is the mathematical canonical form; `serialize_source` must produce
/// exactly it, `deserialize_source` must accept exactly the canonical forms,
/// and two values with the same canonical form must be the same value. Those
/// obligations make the round-trip and determinism laws below hold for every
/// implementation.
pub trait Source: Sized {
    /// The canonical string form of this value.
    spec fn canon(&self) -> Seq<char>;

    /// Canonical serialization is injective: equal canonical forms mean equal
    /// values.
    proof fn lemma_canon_injective(v1: &Self, v2: &Self)
        requires
            v1.canon() == v2.canon(),
        ensures
            v1 == v2,
    ;

    /// Serialize this value to its canonical string form.
    fn serialize_source(&self) -> (r: String)
        ensures
            r@ == self.canon(),
    ;

    /// Parse a canonical string form back into a value; `None` when `s` is
    /// not the canonical form of any value.
    fn deserialize_source(s: &str) -> (r: Option<Self>)
        ensures
            r matches Some(v) ==> v.canon() == s@,
            forall|v: Self| #[trigger] v.canon() == s@ ==> r is Some,
    ;
}

/// There is a value whose canonical form is `s`.
pub open spec fn source_parses<S: Source>(s: Seq<char>) -> bool {
    exists|v: S| #[trigger] v.canon() == s
}

/// Round-trip law: deserializing a serialized source yields the original
/// value, for every value of every source type.
pub fn source_round_trip<S: Source>(v: &S) -> (r: Option<S>)
    ensures
        r matches Some(w) && w == *v,
{
    let s = v.serialize_source();
    let r = S::deserialize_source(s.as_str());
    proof {
        assert(r is Some);
        S::lemma_canon_injective(&r->0, v);
    }
    r
}

/// Determinism law: logically equal source values serialize to identical
/// strings, so filtering by serialized equality is filtering by value.
pub fn source_serialize_deterministic<S: Source>(v1: &S, v2: &S) -> (r: (String, String))
    requires
        v1 == v2,
    ensures
        r.0@ == r.1@,
{
    (v1.serialize_source(), v2.serialize_source())
}

/// A sample application-defined source tag.
#[derive(Clone, Copy, Debug, PartialEq, Eq, Structural)]
pub enum SubSource {
    Toaster,
    Cat,
    Thermometer,
}

/// The canonical token of each `SubSource` value.
pub open spec fn sub_source_token(v: SubSource) -> Seq<char> {
    match v {
        SubSource::Toaster => "Toaster"@,
        SubSource::Cat => "Cat"@,
        SubSource::Thermometer => "Thermometer"@,
    }
}

impl Source for SubSource {
    open spec fn canon(&self) -> Seq<char> {
        sub_source_token(*self)
    }

    proof fn lemma_canon_injective(v1: &Self, v2: &Self) {
        reveal_strlit("Toaster");
        reveal_strlit("Cat");
        reveal_strlit("Thermometer");
        assert("Toaster"@.len() == 7);
        assert("Cat"@.len() == 3);
        assert("Thermometer"@.len() == 11);
    }

    fn serialize_source(&self) -> (r: String) {
        match self {
            SubSource::Toaster => "Toaster".to_owned(),
            SubSource::Cat => "Cat".to_owned(),
            SubSource::Thermometer => "Thermometer".to_owned(),
        }
    }

    fn deserialize_source(s: &str) -> (r: Option<Self>) {
        let r: Option<SubSource> = if str_eq(s, "Toaster") {
            Some(SubSource::Toaster)
        } else if str_eq(s, "Cat") {
            Some(SubSource::Cat)
        } else if str_eq(s, "Thermometer") {
            Some(SubSource::Thermometer)
        } else {
            None
        };
        proof {
            if r is None {
                assert forall|v: SubSource| #[trigger] v.canon() != s@ by {
                    match v {
                        SubSource::Toaster => {},
                        SubSource::Cat => {},
                        SubSource::Thermometer => {},
                    }
                }
            }
        }
        r
    }
}

} // verus!
