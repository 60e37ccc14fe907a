//! User-preference data shapes of the preferences collaborator service.
use vstd::prelude::*;

verus! {

/// A principal's role, as the preferences service names it.
#[derive(Clone, Copy, PartialEq, Eq, Structural, Debug)]
#[allow(non_camel_case_types)]
pub enum UserRole {
    CLIENT,
    ADMIN,
}

/// The unit a user wants energy reported in.
#[derive(Clone, Copy, PartialEq, Eq, Structural, Debug)]
#[allow(non_camel_case_types)]
pub enum UnitEnergy {
    KWH,
    WH,
}

impl UnitEnergy {
    pub open spec fn spec_tag(self) -> Seq<char> {
        match self {
            UnitEnergy::KWH => "KWH"@,
            UnitEnergy::WH => "WH"@,
        }
    }

    /// The uppercase wire tag of the unit.
    pub fn as_str(&self) -> (r: &'static str)
        ensures
            r@ == self.spec_tag(),
    {
        match self {
            UnitEnergy::KWH => "KWH",
            UnitEnergy::WH => "WH",
        }
    }
}

/// The kind of home a user monitors.
#[derive(Clone, Copy, PartialEq, Eq, Structural, Debug)]
#[allow(non_camel_case_types)]
pub enum HomeType {
    APARTMENT,
    HOUSE,
    OFFICE,
    INDUSTRIAL,
}

impl HomeType {
    pub open spec fn spec_tag(self) -> Seq<char> {
        match self {
            HomeType::APARTMENT => "APARTMENT"@,
            HomeType::HOUSE => "HOUSE"@,
            HomeType::OFFICE => "OFFICE"@,
            HomeType::INDUSTRIAL => "INDUSTRIAL"@,
        }
    }

    /// The uppercase wire tag of the home type.
    pub fn as_str(&self) -> (r: &'static str)
        ensures
            r@ == self.spec_tag(),
    {
        match self {
            HomeType::APARTMENT => "APARTMENT",
            HomeType::HOUSE => "HOUSE",
            HomeType::OFFICE => "OFFICE",
            HomeType::INDUSTRIAL => "INDUSTRIAL",
        }
    }
}

} // verus!
