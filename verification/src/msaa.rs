use vstd::prelude::*;

verus! {

/// Multisample anti-aliasing level: the number of samples per pixel.
#[derive(Default, Debug, Clone, Copy, PartialEq, Eq, Structural)]
pub enum Msaa {
    Off,
    Sample2,
    #[default]
    Sample4,
    Sample8,
}

impl Msaa {
    /// The number of samples per pixel that the level stands for.
    pub open spec fn samples(self) -> u32 {
        match self {
            Msaa::Off => 1,
            Msaa::Sample2 => 2,
            Msaa::Sample4 => 4,
            Msaa::Sample8 => 8,
        }
    }
}

impl From<Msaa> for u32 {
    fn from(msaa: Msaa) -> (n: u32) {
        match msaa {
            Msaa::Off => 1,
            Msaa::Sample2 => 2,
            Msaa::Sample4 => 4,
            Msaa::Sample8 => 8,
        }
    }
}

impl vstd::std_specs::convert::FromSpecImpl<Msaa> for u32 {
    open spec fn obeys_from_spec() -> bool {
        true
    }

    open spec fn from_spec(msaa: Msaa) -> u32 {
        msaa.samples()
    }
}

/// Distinct levels stand for distinct sample counts, each a power of two.
pub proof fn law_msaa_samples(a: Msaa, b: Msaa)
    ensures
        a != b ==> a.samples() != b.samples(),
        a.samples() == 1 || a.samples() == 2 || a.samples() == 4 || a.samples() == 8,
{
}

} // verus!
