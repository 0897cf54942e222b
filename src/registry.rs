use vstd::prelude::*;

verus! {

/// The node strategies that the registry can build, one per node-type tag.
#[derive(Clone, Copy, Debug, PartialEq, Eq, Structural, Hash)]
pub enum PlanetType {
    BlackAdidasShoe,
    Ciuc,
    HoustonWeHaveABorrow,
    ImmutableCosmicBorrow,
    OneMillionCrabs,
    Rustrelli,
    RustyCrab,
}

/// Number of node-type tags.
pub const N_PLANET_TYPES: usize = 7;

/// The tag with type code `code`, in declaration order.
pub open spec fn type_of_code(code: int) -> Option<PlanetType> {
    if code == 0 {
        Some(PlanetType::BlackAdidasShoe)
    } else if code == 1 {
        Some(PlanetType::Ciuc)
    } else if code == 2 {
        Some(PlanetType::HoustonWeHaveABorrow)
    } else if code == 3 {
        Some(PlanetType::ImmutableCosmicBorrow)
    } else if code == 4 {
        Some(PlanetType::OneMillionCrabs)
    } else if code == 5 {
        Some(PlanetType::Rustrelli)
    } else if code == 6 {
        Some(PlanetType::RustyCrab)
    } else {
        None
    }
}

/// Relies on rand's `Rng::random_range` over the thread-local generator
/// (`rand::rng()`): on a non-empty range `0..n` it returns a value inside it.
#[verifier::external_body]
fn random_below(n: usize) -> (r: usize)
    requires
        n > 0,
    ensures
        r < n,
{
    rand::Rng::random_range(&mut rand::rng(), 0..n)
}

impl PlanetType {
    /// The type code of a tag.
    pub open spec fn code_spec(self) -> int {
        match self {
            PlanetType::BlackAdidasShoe => 0,
            PlanetType::Ciuc => 1,
            PlanetType::HoustonWeHaveABorrow => 2,
            PlanetType::ImmutableCosmicBorrow => 3,
            PlanetType::OneMillionCrabs => 4,
            PlanetType::Rustrelli => 5,
            PlanetType::RustyCrab => 6,
        }
    }

    /// The tag of a type code; `None` for a code that names no tag.
    pub fn from_code(code: u32) -> (r: Option<PlanetType>)
        ensures
            r == type_of_code(code as int),
    {
        match code {
            0 => Some(PlanetType::BlackAdidasShoe),
            1 => Some(PlanetType::Ciuc),
            2 => Some(PlanetType::HoustonWeHaveABorrow),
            3 => Some(PlanetType::ImmutableCosmicBorrow),
            4 => Some(PlanetType::OneMillionCrabs),
            5 => Some(PlanetType::Rustrelli),
            6 => Some(PlanetType::RustyCrab),
            _ => None,
        }
    }

    /// The recognised tag, or else the tag whose code is `drawn`.
    pub fn or_fallback(parsed: Option<PlanetType>, drawn: usize) -> (r: PlanetType)
        requires
            drawn < N_PLANET_TYPES,
        ensures
            parsed is Some ==> r == parsed->Some_0,
            parsed is None ==> Some(r) == type_of_code(drawn as int),
    {
        match parsed {
            Some(t) => t,
            None => match PlanetType::from_code(drawn as u32) {
                Some(t) => t,
                None => PlanetType::BlackAdidasShoe,
            },
        }
    }

    /// A tag drawn at random.
    pub fn random() -> (r: PlanetType)
        ensures
            exists|c: int| 0 <= c < N_PLANET_TYPES && type_of_code(c) == Some(r),
    {
        let drawn = random_below(N_PLANET_TYPES);
        PlanetType::or_fallback(None, drawn)
    }

    /// The recognised tag, or else one drawn at random.
    pub fn resolve(parsed: Option<PlanetType>) -> (r: PlanetType)
        ensures
            parsed is Some ==> r == parsed->Some_0,
            exists|c: int| 0 <= c < N_PLANET_TYPES && type_of_code(c) == Some(r),
    {
        match parsed {
            Some(t) => {
                assert(type_of_code(PlanetType::code_spec(t)) == Some(t));
                t
            },
            None => PlanetType::random(),
        }
    }
}

} // verus!
