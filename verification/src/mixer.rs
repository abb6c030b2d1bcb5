//! Mixer levels shared with the audio thread, and the visualization switch.
//!
//! Levels are stored as the bit patterns of 32-bit floats in atomic cells so
//! that another thread can read them without locking; the float view of the
//! bits is taken by the callers.

use vstd::prelude::*;
use std::sync::atomic::AtomicBool;
use std::sync::atomic::AtomicU32;
use std::sync::atomic::Ordering;

verus! {

/// The bit pattern of the 32-bit float 1.0.
pub const UNITY_GAIN_BITS: u32 = 0x3F80_0000;

/// A 32-bit float held as its bit pattern in an atomic cell.
pub struct AtomicF32 {
    bits: AtomicU32,
    created_with: Ghost<u32>,
}

impl AtomicF32 {
    /// The bit pattern the cell held when it was created. Later stores,
    /// from any thread, change what the cell holds but not this.
    pub closed spec fn initial_bits(&self) -> u32 {
        self.created_with@
    }

    /// A cell holding the float whose bit pattern is `bits`.
    pub fn from_bits(bits: u32) -> (r: AtomicF32)
        ensures
            r.initial_bits() == bits,
    {
        AtomicF32 { bits: AtomicU32::new(bits), created_with: Ghost(bits) }
    }

    /// The bit pattern currently stored.
    pub fn load_bits(&self, order: Ordering) -> u32 {
        self.bits.load(order)
    }

    /// Stores a new bit pattern.
    pub fn store_bits(&self, bits: u32, order: Ordering) {
        self.bits.store(bits, order);
    }
}

/// Shared mixer state, readable from the audio thread via atomics.
pub struct MixerState {
    pub master_volume: AtomicF32,
    pub deck_a_gain: AtomicF32,
    pub deck_b_gain: AtomicF32,
}

impl MixerState {
    /// Master volume and both deck gains at unity (1.0).
    pub fn new() -> (r: MixerState)
        ensures
            r.master_volume.initial_bits() == UNITY_GAIN_BITS,
            r.deck_a_gain.initial_bits() == UNITY_GAIN_BITS,
            r.deck_b_gain.initial_bits() == UNITY_GAIN_BITS,
    {
        MixerState {
            master_volume: AtomicF32::from_bits(UNITY_GAIN_BITS),
            deck_a_gain: AtomicF32::from_bits(UNITY_GAIN_BITS),
            deck_b_gain: AtomicF32::from_bits(UNITY_GAIN_BITS),
        }
    }
}

impl Default for MixerState {
    /// The same as `MixerState::new`: every level at unity.
    fn default() -> (r: MixerState)
        ensures
            r.master_volume.initial_bits() == UNITY_GAIN_BITS,
            r.deck_a_gain.initial_bits() == UNITY_GAIN_BITS,
            r.deck_b_gain.initial_bits() == UNITY_GAIN_BITS,
    {
        MixerState::new()
    }
}

/// Turns the shared visualization flag on or off for the audio thread.
pub fn set_visualization_active(flag: &AtomicBool, active: bool) {
    flag.store(active, Ordering::Relaxed);
}

} // verus!
