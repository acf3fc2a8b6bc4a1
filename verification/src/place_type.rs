use vstd::prelude::*;
use crate::text::str_eq;

verus! {

/// The kinds of place a query can be restricted to.
#[derive(Clone, Copy, Debug, PartialEq, Eq, Structural)]
pub enum Type {
    City,
    House,
    Poi,
    StopArea,
    Street,
}

impl Type {
    /// The fixed wire name of each kind.
    pub open spec fn name(self) -> Seq<char> {
        match self {
            Type::City => "city"@,
            Type::House => "house"@,
            Type::Poi => "poi"@,
            Type::StopArea => "public_transport:stop_area"@,
            Type::Street => "street"@,
        }
    }

    pub fn as_str(&self) -> (r: &'static str)
        ensures
            r@ == self.name(),
    {
        match self {
            Type::City => "city",
            Type::House => "house",
            Type::Poi => "poi",
            Type::StopArea => "public_transport:stop_area",
            Type::Street => "street",
        }
    }

    /// The kind that a wire name denotes, if any.
    pub fn from_name(s: &str) -> (r: Option<Type>)
        ensures
            match r {
                Some(t) => t.name() == s@,
                None => forall|t: Type| t.name() != s@,
            },
    {
        proof {
            reveal_strlit("city");
            reveal_strlit("house");
            reveal_strlit("poi");
            reveal_strlit("public_transport:stop_area");
            reveal_strlit("street");
        }
        if str_eq(s, "city") {
            Some(Type::City)
        } else if str_eq(s, "house") {
            Some(Type::House)
        } else if str_eq(s, "poi") {
            Some(Type::Poi)
        } else if str_eq(s, "public_transport:stop_area") {
            Some(Type::StopArea)
        } else if str_eq(s, "street") {
            Some(Type::Street)
        } else {
            None
        }
    }
}

/// Different kinds have different wire names.
pub proof fn lemma_names_distinct(a: Type, b: Type)
    requires
        a.name() == b.name(),
    ensures
        a == b,
{
    reveal_strlit("city");
    reveal_strlit("house");
    reveal_strlit("poi");
    reveal_strlit("public_transport:stop_area");
    reveal_strlit("street");
    assert(Type::City.name().len() == 4);
    assert(Type::House.name().len() == 5);
    assert(Type::Poi.name().len() == 3);
    assert(Type::StopArea.name().len() == 26);
    assert(Type::Street.name().len() == 6);
}

} // verus!
