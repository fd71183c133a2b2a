use vstd::prelude::*;

verus! {

/// Abstract colour role of a particle, resolved against the owning
/// firework's palette only when a frame is rendered.
#[derive(Clone, Copy, PartialEq, Eq, Structural, Debug)]
pub enum ColorType {
    Primary,
    Secondary,
    Tertiary,
}

/// A concrete palette colour. The renderer maps each handle to a real
/// terminal colour; the simulation never needs more than the handle.
#[derive(Clone, Copy, PartialEq, Eq, Structural, Debug)]
pub enum PaletteColor {
    Red,
    Green,
    Blue,
    Yellow,
    Magenta,
    Cyan,
    White,
}

/// Read-only simulation configuration, fixed at startup.
pub struct Config {
    pub width: u16,
    pub height: u16,
    pub max_fireworks: u16,
    pub min_firework_size: u16,
    pub max_firework_size: u16,
}

impl Config {
    /// Bounds under which every spawn-position computation stays in range
    /// and free of overflow.
    pub open spec fn wf(self) -> bool {
        &&& self.width >= 1
        &&& self.height >= 2
        &&& 1 <= self.min_firework_size
        &&& self.min_firework_size <= self.max_firework_size
        &&& self.max_firework_size <= 1000
    }

    pub fn new() -> (c: Config)
        ensures
            c.width == 160,
            c.height == 60,
            c.max_fireworks == 7,
            c.min_firework_size == 5,
            c.max_firework_size == 15,
            c.wf(),
    {
        Config {
            width: 160,
            height: 60,
            max_fireworks: 7,
            min_firework_size: 5,
            max_firework_size: 15,
        }
    }
}

} // verus!
