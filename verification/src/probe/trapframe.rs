//! The registers that a trap saves, as far as the probe engine reads and
//! writes them.

use vstd::prelude::*;
use vstd::array::spec_array_update;

verus! {

/// The saved state of the hart that trapped.
#[derive(Clone, Copy, Debug)]
pub struct TrapFrame {
    /// The general registers `x0` to `x31`. The entry of `x0` is not used.
    pub general: [usize; 32],
    /// The supervisor status register.
    pub sstatus: usize,
    /// The program counter of the instruction that trapped.
    pub sepc: usize,
}

/// The value of register `reg`; `x0` reads as zero.
pub open spec fn spec_get_reg(tf: TrapFrame, reg: u32) -> usize
    recommends
        reg < 32,
{
    if reg == 0 {
        0
    } else {
        tf.general@[reg as int]
    }
}

/// The frame with register `reg` set; writes to `x0` are dropped.
pub open spec fn spec_set_reg(tf: TrapFrame, reg: u32, val: usize) -> TrapFrame
    recommends
        reg < 32,
{
    if reg == 0 {
        tf
    } else {
        TrapFrame { general: spec_array_update(tf.general, reg as int, val), ..tf }
    }
}

/// The program counter of the instruction that trapped.
pub fn get_trapframe_pc(tf: &TrapFrame) -> (pc: usize)
    ensures
        pc == tf.sepc,
{
    tf.sepc
}

/// Sets the program counter at which execution resumes.
pub fn set_trapframe_pc(tf: &mut TrapFrame, pc: usize)
    ensures
        *final(tf) == (TrapFrame { sepc: pc, ..*old(tf) }),
{
    tf.sepc = pc;
}

/// The return address register.
pub fn get_trapframe_ra(tf: &TrapFrame) -> (ra: usize)
    ensures
        ra == spec_get_reg(*tf, 1),
{
    tf.general[1]
}

/// Sets the return address register.
pub fn set_trapframe_ra(tf: &mut TrapFrame, ra: usize)
    ensures
        *final(tf) == spec_set_reg(*old(tf), 1, ra),
{
    tf.general[1] = ra;
}

/// The value of a general register.
pub fn get_reg(tf: &TrapFrame, reg: u32) -> (val: usize)
    requires
        reg < 32,
    ensures
        val == spec_get_reg(*tf, reg),
{
    let index: usize = reg as usize;
    if index != 0 {
        tf.general[index]
    } else {
        0
    }
}

/// Sets a general register.
pub fn set_reg(tf: &mut TrapFrame, reg: u32, val: usize)
    requires
        reg < 32,
    ensures
        *final(tf) == spec_set_reg(*old(tf), reg, val),
{
    let index: usize = reg as usize;
    if index != 0 {
        tf.general[index] = val;
    }
}

} // verus!
