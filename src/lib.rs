//! Privileged core of a small RISC-V kernel: the trap and syscall boundary, and a
//! minimal IPv4/ICMP stack that runs over a loopback device.

pub mod net;
pub mod syscall;

pub mod trap;
pub mod user;
