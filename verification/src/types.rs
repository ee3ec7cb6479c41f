//! Filler types that stand for the game structures' unidentified bytes.

use vstd::prelude::*;

verus! {

/// `N` bytes whose meaning is not known yet.
#[derive(Debug, Copy, Clone, PartialEq, Eq)]
pub struct Q<const N: usize>([u8; N]);

/// An unidentified byte.
pub struct Q1(pub u8);

/// Two unidentified bytes, 2-byte aligned.
pub struct Q2(pub u16);

/// Four unidentified bytes, 4-byte aligned.
pub struct Q4(pub u32);

/// Eight unidentified bytes, 8-byte aligned.
pub struct Q8(pub u64);

/// Two unidentified bytes without alignment.
pub struct Q2U(pub [u8; 2]);

/// Four unidentified bytes without alignment.
pub struct Q4U(pub [u8; 4]);

/// Eight unidentified bytes without alignment.
pub struct Q8U(pub [u8; 8]);

/// The player sub-structure a katamari points to; its contents are not mapped.
pub struct PlayerSubStruct {}

/// The prince's action flags, as laid out in the game's prince structure
/// (0x1b bytes; `swimming` at 0xa, `x1a` at 0x1a).
pub struct OujiState {
    pub dash_pending: bool,
    pub dash_base_requirement_met: bool,
    pub dash_spinning: bool,
    pub dash_stationary_spin: bool,
    pub flip_pending: u8,
    pub _x5: Q1,
    pub climbing: bool,
    pub _x7: Q1,
    pub animation_mode: u8,
    pub dash_active: bool,
    pub swimming: bool,
    pub xb: bool,
    pub xc: u8,
    pub xd: Q<9>,
    pub x16: u8,
    pub x17: bool,
    pub x18: Q1,
    pub x19: u8,
    pub x1a: Q1,
}

impl OujiState {
    /// What the end of a multiplayer race clears: the pending, charged and
    /// spinning dash flags, and the counters `x16` and `x19` and the flag `x17`.
    /// Every other field keeps its value.
    pub fn clear_dash(&mut self)
        ensures
            !final(self).dash_pending,
            !final(self).dash_base_requirement_met,
            !final(self).dash_spinning,
            !final(self).dash_stationary_spin,
            final(self).x16 == 0,
            !final(self).x17,
            final(self).x19 == 0,
            final(self).flip_pending == old(self).flip_pending,
            final(self)._x5 == old(self)._x5,
            final(self).climbing == old(self).climbing,
            final(self)._x7 == old(self)._x7,
            final(self).animation_mode == old(self).animation_mode,
            final(self).dash_active == old(self).dash_active,
            final(self).swimming == old(self).swimming,
            final(self).xb == old(self).xb,
            final(self).xc == old(self).xc,
            final(self).xd == old(self).xd,
            final(self).x18 == old(self).x18,
            final(self).x1a == old(self).x1a,
    {
        self.x19 = 0;
        self.dash_pending = false;
        self.dash_base_requirement_met = false;
        self.dash_spinning = false;
        self.dash_stationary_spin = false;
        self.x16 = 0;
        self.x17 = false;
    }
}

} // verus!
