use vstd::prelude::*;

verus! {

/// Operating mode of a logged signal.
#[derive(Debug, Clone, Copy, PartialEq, Eq, Structural)]
pub enum SignalMode {
    FM,
    AM,
    USB,
    LSB,
    CW,
}

impl SignalMode {
    /// Canonical upper-case name of the mode.
    pub fn to_str(&self) -> (r: &'static str)
        ensures
            *self is FM ==> r@ == "FM"@,
            *self is AM ==> r@ == "AM"@,
            *self is USB ==> r@ == "USB"@,
            *self is LSB ==> r@ == "LSB"@,
            *self is CW ==> r@ == "CW"@,
    {
        match self {
            SignalMode::FM => "FM",
            SignalMode::AM => "AM",
            SignalMode::USB => "USB",
            SignalMode::LSB => "LSB",
            SignalMode::CW => "CW",
        }
    }
}

} // verus!
