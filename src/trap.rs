//! The trap protocol: how a trap from user mode saves every general-purpose
//! register into a frame on the kernel stack, and how the return restores them.
//! The scratch register holds the kernel's stack top while user code runs; the
//! entry swaps it with the stack pointer, so that no other state is needed to
//! tell the two stacks apart.

use vstd::prelude::*;

verus! {

/// The 31 general-purpose registers of a trapped context, in the order of their
/// slots in the frame; the last slot holds the stack pointer of the trapped code.
#[derive(Debug, Clone, Copy, PartialEq, Eq, Structural)]
pub struct TrapFrame {
    pub ra: u32,
    pub gp: u32,
    pub tp: u32,
    pub t0: u32,
    pub t1: u32,
    pub t2: u32,
    pub t3: u32,
    pub t4: u32,
    pub t5: u32,
    pub t6: u32,
    pub a0: u32,
    pub a1: u32,
    pub a2: u32,
    pub a3: u32,
    pub a4: u32,
    pub a5: u32,
    pub a6: u32,
    pub a7: u32,
    pub s0: u32,
    pub s1: u32,
    pub s2: u32,
    pub s3: u32,
    pub s4: u32,
    pub s5: u32,
    pub s6: u32,
    pub s7: u32,
    pub s8: u32,
    pub s9: u32,
    pub s10: u32,
    pub s11: u32,
    pub sp: u32,
}

/// Bytes a frame takes on the kernel stack: 31 slots of 4 bytes.
pub const TRAP_FRAME_SIZE: u32 = 124;

/// Trap cause of an environment call from user mode.
pub const SCAUSE_ECALL: u32 = 8;

/// Width of the instruction that made the call.
pub const INSTRUCTION_WIDTH: u32 = 4;

/// What the trap protocol sees of the hart: its general-purpose registers and
/// the scratch control register.
#[derive(Debug, Clone, Copy, PartialEq, Eq, Structural)]
pub struct Hart {
    pub regs: TrapFrame,
    pub sscratch: u32,
}

impl Hart {
    /// User code runs: the scratch register holds a kernel stack top with room for a frame.
    pub open spec fn ready_for_trap(self) -> bool {
        self.sscratch >= TRAP_FRAME_SIZE
    }
}

/// The hart after trap entry, and the frame that entry saved.
pub open spec fn spec_trap_entry(h: Hart) -> (Hart, TrapFrame) {
    let frame_addr = (h.sscratch - TRAP_FRAME_SIZE) as u32;
    (Hart { regs: TrapFrame { sp: frame_addr, a0: frame_addr, ..h.regs }, sscratch: h.sscratch }, h.regs)
}

/// The hart after trap return from `frame`.
pub open spec fn spec_trap_return(h: Hart, frame: TrapFrame) -> Hart {
    Hart { regs: frame, sscratch: h.sscratch }
}

/// Trap entry: swaps the stack pointer with the scratch register, makes room
/// for a frame, saves every register into it with the trapped stack pointer in
/// the last slot, writes the frame's end back into the scratch register and
/// points the first argument register at the frame. Returns the saved frame.
pub fn trap_entry(hart: &mut Hart) -> (frame: TrapFrame)
    requires
        old(hart).ready_for_trap(),
    ensures
        (*final(hart), frame) == spec_trap_entry(*old(hart)),
        final(hart).ready_for_trap(),
{
    let user_sp = hart.regs.sp;
    hart.regs.sp = hart.sscratch;
    hart.sscratch = user_sp;
    hart.regs.sp = hart.regs.sp - TRAP_FRAME_SIZE;
    let mut frame = hart.regs;
    frame.sp = hart.sscratch;
    hart.sscratch = hart.regs.sp + TRAP_FRAME_SIZE;
    hart.regs.a0 = hart.regs.sp;
    frame
}

/// Trap return: restores every register from the frame, the stack pointer last,
/// and leaves the scratch register holding the kernel stack top.
pub fn trap_return(hart: &mut Hart, frame: &TrapFrame)
    ensures
        *final(hart) == spec_trap_return(*old(hart), *frame),
{
    hart.regs = *frame;
}

/// A trap whose handler leaves the frame as saved resumes the trapped code with
/// every register as it was, and the scratch register again holds the kernel
/// stack top; a handler that changes the frame changes exactly those registers.
pub proof fn lemma_trap_round_trip(h: Hart, changed: TrapFrame)
    requires
        h.ready_for_trap(),
    ensures
        ({
            let (entered, frame) = spec_trap_entry(h);
            &&& spec_trap_return(entered, frame) == h
            &&& spec_trap_return(entered, changed) == (Hart { regs: changed, ..h })
            &&& spec_trap_return(entered, changed).ready_for_trap()
        }),
{
}

/// Where the trapped code resumes: after the calling instruction for an
/// environment call; `None` for any other cause, which is fatal.
pub fn handle_trap(scause: u32, sepc: u32) -> (r: Option<u32>)
    ensures
        scause == SCAUSE_ECALL ==> r == Some(((sepc + INSTRUCTION_WIDTH) % 0x1_0000_0000) as u32),
        scause != SCAUSE_ECALL ==> r is None,
{
    if scause != SCAUSE_ECALL {
        return None;
    }
    if sepc <= u32::MAX - INSTRUCTION_WIDTH {
        Some(sepc + INSTRUCTION_WIDTH)
    } else {
        Some(sepc - (u32::MAX - INSTRUCTION_WIDTH + 1))
    }
}

} // verus!
