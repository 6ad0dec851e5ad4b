use rvkernel::trap::{handle_trap, trap_entry, trap_return, Hart, TrapFrame, SCAUSE_ECALL};

fn regs() -> TrapFrame {
    TrapFrame {
        ra: 1, gp: 2, tp: 3, t0: 4, t1: 5, t2: 6, t3: 7, t4: 8, t5: 9, t6: 10,
        a0: 11, a1: 12, a2: 13, a3: 14, a4: 15, a5: 16, a6: 17, a7: 18,
        s0: 19, s1: 20, s2: 21, s3: 22, s4: 23, s5: 24, s6: 25, s7: 26, s8: 27, s9: 28,
        s10: 29, s11: 30, sp: 0x0100_0ff0,
    }
}

#[test]
fn ecall_resumes_after_the_call() {
    assert_eq!(handle_trap(SCAUSE_ECALL, 0x0100_0040), Some(0x0100_0044));
    assert_eq!(handle_trap(8, 0xFFFF_FFFC), Some(0));
}

#[test]
fn other_traps_are_fatal() {
    assert_eq!(handle_trap(2, 0x1000), None);
    assert_eq!(handle_trap(13, 0x1000), None);
}

#[test]
fn entry_saves_every_register() {
    let mut hart = Hart { regs: regs(), sscratch: 0x8020_0000 };
    let frame = trap_entry(&mut hart);
    assert_eq!(frame, regs());
    assert_eq!(hart.regs.sp, 0x8020_0000 - 124);
    assert_eq!(hart.regs.a0, 0x8020_0000 - 124);
    assert_eq!(hart.sscratch, 0x8020_0000);
    assert_eq!(hart.regs.s11, 30);
}

#[test]
fn trap_round_trip_restores_the_hart() {
    let start = Hart { regs: regs(), sscratch: 0x8020_0000 };
    let mut hart = start;
    let mut frame = trap_entry(&mut hart);
    trap_return(&mut hart, &frame);
    assert_eq!(hart, start);
    let mut h2 = start;
    frame = trap_entry(&mut h2);
    frame.a0 = 99;
    trap_return(&mut h2, &frame);
    assert_eq!(h2.regs.a0, 99);
    assert_eq!(h2.regs.sp, 0x0100_0ff0);
    assert_eq!(h2.sscratch, 0x8020_0000);
}
