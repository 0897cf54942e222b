use vstd::prelude::*;

verus! {

/// A resource that a node generates from one charged capacity unit.
#[derive(Clone, Copy, Debug, PartialEq, Eq, Structural, Hash)]
pub enum BasicKind {
    Oxygen,
    Hydrogen,
    Carbon,
    Silicon,
}

/// A resource that a node combines out of two others.
#[derive(Clone, Copy, Debug, PartialEq, Eq, Structural, Hash)]
pub enum ComplexKind {
    Diamond,
    Water,
    Life,
    Robot,
    Dolphin,
    AIPartner,
}

/// The kind of an item that an agent can carry.
#[derive(Clone, Copy, Debug, PartialEq, Eq, Structural, Hash)]
pub enum ResourceKind {
    Basic(BasicKind),
    Complex(ComplexKind),
}

/// The two prerequisite items of each combination, in the order the node takes them.
pub open spec fn recipe_inputs(k: ComplexKind) -> (ResourceKind, ResourceKind) {
    match k {
        ComplexKind::Diamond => (
            ResourceKind::Basic(BasicKind::Carbon),
            ResourceKind::Basic(BasicKind::Carbon),
        ),
        ComplexKind::Water => (
            ResourceKind::Basic(BasicKind::Hydrogen),
            ResourceKind::Basic(BasicKind::Oxygen),
        ),
        ComplexKind::Life => (
            ResourceKind::Complex(ComplexKind::Water),
            ResourceKind::Basic(BasicKind::Carbon),
        ),
        ComplexKind::Robot => (
            ResourceKind::Basic(BasicKind::Silicon),
            ResourceKind::Complex(ComplexKind::Life),
        ),
        ComplexKind::Dolphin => (
            ResourceKind::Complex(ComplexKind::Water),
            ResourceKind::Complex(ComplexKind::Life),
        ),
        ComplexKind::AIPartner => (
            ResourceKind::Complex(ComplexKind::Robot),
            ResourceKind::Complex(ComplexKind::Diamond),
        ),
    }
}

/// Returns the two prerequisites of the combination `k`.
pub fn recipe(k: ComplexKind) -> (r: (ResourceKind, ResourceKind))
    ensures
        r == recipe_inputs(k),
{
    match k {
        ComplexKind::Diamond => (
            ResourceKind::Basic(BasicKind::Carbon),
            ResourceKind::Basic(BasicKind::Carbon),
        ),
        ComplexKind::Water => (
            ResourceKind::Basic(BasicKind::Hydrogen),
            ResourceKind::Basic(BasicKind::Oxygen),
        ),
        ComplexKind::Life => (
            ResourceKind::Complex(ComplexKind::Water),
            ResourceKind::Basic(BasicKind::Carbon),
        ),
        ComplexKind::Robot => (
            ResourceKind::Basic(BasicKind::Silicon),
            ResourceKind::Complex(ComplexKind::Life),
        ),
        ComplexKind::Dolphin => (
            ResourceKind::Complex(ComplexKind::Water),
            ResourceKind::Complex(ComplexKind::Life),
        ),
        ComplexKind::AIPartner => (
            ResourceKind::Complex(ComplexKind::Robot),
            ResourceKind::Complex(ComplexKind::Diamond),
        ),
    }
}

pub open spec fn basic_name(k: BasicKind) -> Seq<char> {
    match k {
        BasicKind::Carbon => "carbon"@,
        BasicKind::Hydrogen => "hydrogen"@,
        BasicKind::Oxygen => "oxygen"@,
        BasicKind::Silicon => "silicon"@,
    }
}

pub open spec fn complex_name(k: ComplexKind) -> Seq<char> {
    match k {
        ComplexKind::AIPartner => "AIPartner"@,
        ComplexKind::Diamond => "Diamond"@,
        ComplexKind::Life => "Life"@,
        ComplexKind::Robot => "Robot"@,
        ComplexKind::Water => "Water"@,
        ComplexKind::Dolphin => "Dolphin"@,
    }
}

/// A printable name for a resource kind.
pub trait ResToString {
    spec fn name_spec(&self) -> Seq<char>;

    fn res_to_string(&self) -> (r: String)
        ensures
            r@ == self.name_spec(),
    ;
}

impl ResToString for BasicKind {
    open spec fn name_spec(&self) -> Seq<char> {
        basic_name(*self)
    }

    fn res_to_string(&self) -> (r: String) {
        match self {
            BasicKind::Carbon => String::from_str("carbon"),
            BasicKind::Hydrogen => String::from_str("hydrogen"),
            BasicKind::Oxygen => String::from_str("oxygen"),
            BasicKind::Silicon => String::from_str("silicon"),
        }
    }
}

impl ResToString for ComplexKind {
    open spec fn name_spec(&self) -> Seq<char> {
        complex_name(*self)
    }

    fn res_to_string(&self) -> (r: String) {
        match self {
            ComplexKind::AIPartner => String::from_str("AIPartner"),
            ComplexKind::Diamond => String::from_str("Diamond"),
            ComplexKind::Life => String::from_str("Life"),
            ComplexKind::Robot => String::from_str("Robot"),
            ComplexKind::Water => String::from_str("Water"),
            ComplexKind::Dolphin => String::from_str("Dolphin"),
        }
    }
}

} // verus!
