use vstd::prelude::*;

verus! {

/// Identifier of a digital input line.
pub type LineId = u16;

/// Lookup key of a clip in a patch: a configured input line, or the fixed
/// power-on clip that is played once at start-up.
#[derive(Clone, Copy, Debug, Hash, PartialEq, Eq, PartialOrd, Ord, Structural)]
pub enum SoundKey {
    Gpio(LineId),
    PowerOn,
}

} // verus!
