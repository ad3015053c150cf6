//! Display timing: the four scan phases, their dot budgets and the scanline
//! counter.

use vstd::prelude::*;

verus! {

/// Dots spent searching sprite memory on each visible line.
pub const OAM_DOTS: u64 = 80;

/// Dots spent transferring pixels on each visible line.
pub const VRAM_DOTS: u64 = 172;

/// Dots of horizontal blanking on each visible line.
pub const HBLANK_DOTS: u64 = 204;

/// Dots of one line of vertical blanking.
pub const VBLANK_LINE_DOTS: u64 = 456;

/// The scanline on which vertical blanking begins.
pub const VBLANK_FIRST_LINE: u8 = 143;

/// The last scanline of a frame; a frame has 154 scanlines.
pub const LAST_LINE: u8 = 153;

/// The scan phase the display is in.
#[derive(Clone, Copy, Debug, PartialEq, Eq, Structural)]
pub enum GpuMode {
    HBLANK,
    VBLANK,
    OAM,
    VRAM,
}

/// Display state: scan phase, dots spent in it, scanline and the byte
/// registers that the bus exposes.
#[derive(Clone, Copy, Debug)]
pub struct Ppu {
    pub mode: GpuMode,
    pub tick: u64,
    pub scanline: u8,
    pub control: u8,
    pub scroll_x: u8,
    pub scroll_y: u8,
    pub ly_compare: u8,
}

/// The number of dots after which `mode` ends.
pub open spec fn spec_budget(mode: GpuMode) -> u64 {
    match mode {
        GpuMode::OAM => OAM_DOTS,
        GpuMode::VRAM => VRAM_DOTS,
        GpuMode::HBLANK => HBLANK_DOTS,
        GpuMode::VBLANK => VBLANK_LINE_DOTS,
    }
}

/// The number of dots after which `mode` ends.
pub fn budget(mode: GpuMode) -> (dots: u64)
    ensures
        dots == spec_budget(mode),
{
    match mode {
        GpuMode::OAM => OAM_DOTS,
        GpuMode::VRAM => VRAM_DOTS,
        GpuMode::HBLANK => HBLANK_DOTS,
        GpuMode::VBLANK => VBLANK_LINE_DOTS,
    }
}

impl Ppu {
    /// The scanline is one of the frame's 154, and outside vertical blanking
    /// it is a visible one.
    pub open spec fn wf(self) -> bool {
        &&& self.scanline <= LAST_LINE
        &&& self.mode != GpuMode::VBLANK ==> self.scanline < VBLANK_FIRST_LINE
    }

    /// The dot counter is below the budget of the current phase.
    pub open spec fn settled(self) -> bool {
        self.tick < spec_budget(self.mode)
    }

    /// Whether leaving the current phase enters vertical blanking.
    pub open spec fn spec_enters_vblank(self) -> bool {
        self.mode == GpuMode::HBLANK && self.scanline + 1 == VBLANK_FIRST_LINE
    }

    /// The state after the current phase has ended: its budget is taken off
    /// the dot counter and the next phase begins.
    pub open spec fn spec_next_phase(self) -> Ppu {
        let tick = (self.tick - spec_budget(self.mode)) as u64;
        match self.mode {
            GpuMode::OAM => Ppu { mode: GpuMode::VRAM, tick, ..self },
            GpuMode::VRAM => Ppu { mode: GpuMode::HBLANK, tick, ..self },
            GpuMode::HBLANK => Ppu {
                mode: if self.spec_enters_vblank() {
                    GpuMode::VBLANK
                } else {
                    GpuMode::OAM
                },
                tick,
                scanline: (self.scanline + 1) as u8,
                ..self
            },
            GpuMode::VBLANK => if self.scanline == LAST_LINE {
                Ppu { mode: GpuMode::OAM, tick, scanline: 0, ..self }
            } else {
                Ppu { tick, scanline: (self.scanline + 1) as u8, ..self }
            },
        }
    }

    /// The display at power-on: horizontal blanking of line 0, every
    /// register zero.
    pub open spec fn spec_new() -> Ppu {
        Ppu {
            mode: GpuMode::HBLANK,
            tick: 0,
            scanline: 0,
            control: 0,
            scroll_x: 0,
            scroll_y: 0,
            ly_compare: 0,
        }
    }

    /// The display at power-on.
    pub fn new() -> (ppu: Ppu)
        ensures
            ppu == Self::spec_new(),
            ppu.wf(),
            ppu.settled(),
    {
        Ppu {
            mode: GpuMode::HBLANK,
            tick: 0,
            scanline: 0,
            control: 0,
            scroll_x: 0,
            scroll_y: 0,
            ly_compare: 0,
        }
    }
}

} // verus!
