use vstd::prelude::*;

verus! {

/// Kernel number of the capability that bypasses file permission checks.
pub const CAP_DAC_OVERRIDE: u8 = 1;
/// Kernel number of the capability that allows raw I/O.
pub const CAP_SYS_RAWIO: u8 = 17;

/// The two capabilities the drive tool needs, and no others.
#[derive(Debug, Clone, Copy, PartialEq, Eq, Structural)]
pub enum Capability {
    DacOverride,
    SysRawio,
}

/// A capability set of the process.
#[derive(Debug, Clone, Copy, PartialEq, Eq, Structural)]
pub enum CapabilitySet {
    Effective,
    Inheritable,
    Permitted,
}

/// One step of raising the process's privileges.
#[derive(Debug, Clone, Copy, PartialEq, Eq, Structural)]
pub enum ElevationStep {
    /// Read the process's current capability state.
    Initialize,
    /// Add the required capabilities to a set of that state.
    Update(CapabilitySet),
    /// Apply the updated state to the process.
    Apply,
    /// Raise one capability in the ambient set, so that child processes inherit it.
    RaiseAmbient(Capability),
    /// Every step succeeded.
    Done,
}

/// The step of raising privileges that failed; the whole elevation fails with it.
#[derive(Debug, Clone, Copy, PartialEq, Eq, Structural)]
pub struct ElevationError {
    pub failed: ElevationStep,
}

pub open spec fn capability_number(c: Capability) -> u8 {
    match c {
        Capability::DacOverride => CAP_DAC_OVERRIDE,
        Capability::SysRawio => CAP_SYS_RAWIO,
    }
}

/// The steps of an elevation, in the order they are performed.
pub open spec fn elevation_steps() -> Seq<ElevationStep> {
    seq![
        ElevationStep::Initialize,
        ElevationStep::Update(CapabilitySet::Effective),
        ElevationStep::Update(CapabilitySet::Inheritable),
        ElevationStep::Update(CapabilitySet::Permitted),
        ElevationStep::Apply,
        ElevationStep::RaiseAmbient(Capability::DacOverride),
        ElevationStep::RaiseAmbient(Capability::SysRawio),
        ElevationStep::Done,
    ]
}

/// The capabilities added to each set and raised in the ambient set.
pub fn required_capabilities() -> (r: Vec<Capability>)
    ensures
        r@ == seq![Capability::DacOverride, Capability::SysRawio],
{
    let r = vec![Capability::DacOverride, Capability::SysRawio];
    assert(r@ =~= seq![Capability::DacOverride, Capability::SysRawio]);
    r
}

impl Capability {
    /// The kernel's number for this capability.
    pub fn number(self) -> (r: u8)
        ensures
            r == capability_number(self),
    {
        match self {
            Capability::DacOverride => CAP_DAC_OVERRIDE,
            Capability::SysRawio => CAP_SYS_RAWIO,
        }
    }
}

/// The step an elevation starts with.
pub fn first_step() -> (r: ElevationStep)
    ensures
        r == elevation_steps()[0],
{
    ElevationStep::Initialize
}

/// The step after `step`, given whether `step` succeeded. Any failure ends the
/// elevation with an error naming the step: a partial elevation is no elevation.
pub fn next_step(step: ElevationStep, succeeded: bool) -> (r: Result<ElevationStep, ElevationError>)
    requires
        step != ElevationStep::Done,
    ensures
        !succeeded ==> r == Err::<ElevationStep, ElevationError>(ElevationError { failed: step }),
        succeeded ==> forall|i: int|
            0 <= i < elevation_steps().len() && #[trigger] elevation_steps()[i] == step ==> r
                == Ok::<ElevationStep, ElevationError>(elevation_steps()[i + 1]),
{
    if !succeeded {
        return Err(ElevationError { failed: step });
    }
    let next = match step {
        ElevationStep::Initialize => ElevationStep::Update(CapabilitySet::Effective),
        ElevationStep::Update(CapabilitySet::Effective) => ElevationStep::Update(CapabilitySet::Inheritable),
        ElevationStep::Update(CapabilitySet::Inheritable) => ElevationStep::Update(CapabilitySet::Permitted),
        ElevationStep::Update(CapabilitySet::Permitted) => ElevationStep::Apply,
        ElevationStep::Apply => ElevationStep::RaiseAmbient(Capability::DacOverride),
        ElevationStep::RaiseAmbient(Capability::DacOverride) => ElevationStep::RaiseAmbient(Capability::SysRawio),
        _ => ElevationStep::Done,
    };
    Ok(next)
}

} // verus!
