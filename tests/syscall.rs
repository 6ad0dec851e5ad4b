use rvkernel::net::icmp::IcmpEvent;
use rvkernel::net::ip::{init, IpV4Addr};
use rvkernel::net::NetError;
use rvkernel::syscall::{
    decode_syscall, file_result_code, getchar_step, sys_ping, sys_readfile, sys_writefile,
    FileRecord, FileSystem, Syscall, FILE_NOT_FOUND, PING_FAILED, SYS_EXIT, SYS_GETCHAR,
    SYS_PING, SYS_PUTCHAR, SYS_READFILE, SYS_WRITEFILE,
};
use rvkernel::trap::TrapFrame;

fn frame(a0: u32, a1: u32, a2: u32, a3: u32) -> TrapFrame {
    TrapFrame {
        ra: 0, gp: 0, tp: 0, t0: 0, t1: 0, t2: 0, t3: 0, t4: 0, t5: 0, t6: 0,
        a0, a1, a2, a3, a4: 0, a5: 0, a6: 0, a7: 0,
        s0: 0, s1: 0, s2: 0, s3: 0, s4: 0, s5: 0, s6: 0, s7: 0, s8: 0, s9: 0, s10: 0, s11: 0,
        sp: 0x8000,
    }
}

fn table() -> FileSystem {
    FileSystem {
        files: vec![
            FileRecord { name: b"./hello.txt".to_vec(), data: b"hi there\0\0\0\0".to_vec(), size: 8 },
            FileRecord { name: b"./lorem.txt".to_vec(), data: b"Lorem ipsum dolor".to_vec(), size: 17 },
        ],
    }
}

#[test]
fn decodes_each_syscall() {
    assert_eq!(decode_syscall(&frame(0x141, 0, 0, SYS_PUTCHAR)), Some(Syscall::Putchar { ch: 0x41 }));
    assert_eq!(decode_syscall(&frame(0, 0, 0, SYS_GETCHAR)), Some(Syscall::Getchar));
    assert_eq!(decode_syscall(&frame(0, 0, 0, SYS_EXIT)), Some(Syscall::Exit));
    assert_eq!(
        decode_syscall(&frame(10, 20, 30, SYS_READFILE)),
        Some(Syscall::ReadFile { filename: 10, buf: 20, len: 30 })
    );
    assert_eq!(
        decode_syscall(&frame(10, 20, 30, SYS_WRITEFILE)),
        Some(Syscall::WriteFile { filename: 10, buf: 20, len: 30 })
    );
    assert_eq!(
        decode_syscall(&frame(0x7f00_0001, 0x1_0003, 0, SYS_PING)),
        Some(Syscall::Ping { dst: 0x7f00_0001, seq: 3 })
    );
    assert_eq!(decode_syscall(&frame(0, 0, 0, 99)), None);
}

#[test]
fn getchar_step_waits_for_a_byte() {
    let mut f = frame(5, 0, 0, SYS_GETCHAR);
    assert!(!getchar_step(&mut f, -1));
    assert_eq!(f, frame(5, 0, 0, SYS_GETCHAR));
    assert!(getchar_step(&mut f, 0x61));
    assert_eq!(f, frame(0x61, 0, 0, SYS_GETCHAR));
}

#[test]
fn getchar_yields_once_per_empty_poll() {
    let polls = [-1, -1, -1, b'x' as i32, b'y' as i32];
    let mut f = frame(0, 0, 0, SYS_GETCHAR);
    let mut yields = 0;
    let mut i = 0;
    while !getchar_step(&mut f, polls[i]) {
        yields += 1;
        i += 1;
    }
    assert_eq!(yields, 3);
    assert_eq!(f.a0, b'x' as u32);
}

#[test]
fn readfile_of_missing_name() {
    let fs = table();
    let mut dest = vec![0xeeu8; 16];
    let r = sys_readfile(&fs, b"./nothing.txt", &mut dest, 16);
    assert_eq!(r, None);
    assert_eq!(file_result_code(r), 0xFFFF_FFFE);
    assert_eq!(dest, vec![0xeeu8; 16]);
}

#[test]
fn readfile_copies_at_most_the_file_size() {
    let fs = table();
    let mut dest = vec![0xeeu8; 12];
    let r = sys_readfile(&fs, b"./hello.txt", &mut dest, 12);
    assert_eq!(r, Some(8));
    assert_eq!(file_result_code(r), 8);
    assert_eq!(&dest[..8], b"hi there");
    assert_eq!(&dest[8..], &[0xee; 4]);
    let mut short = vec![0u8; 5];
    assert_eq!(sys_readfile(&fs, b"./lorem.txt", &mut short, 5), Some(5));
    assert_eq!(&short, b"Lorem");
}

#[test]
fn writefile_of_missing_name() {
    let mut fs = table();
    let r = sys_writefile(&mut fs, b"./nothing.txt", b"data", 4);
    assert_eq!(r, None);
    assert_eq!(file_result_code(r), FILE_NOT_FOUND);
    assert_eq!(fs.files[0].data, b"hi there\0\0\0\0".to_vec());
    assert_eq!(fs.files[1].data, b"Lorem ipsum dolor".to_vec());
    assert_eq!((fs.files[0].size, fs.files[1].size), (8, 17));
}

#[test]
fn writefile_overwrites_and_sets_size() {
    let mut fs = table();
    assert_eq!(sys_writefile(&mut fs, b"./lorem.txt", b"Hello", 5), Some(5));
    assert_eq!(fs.files[1].data, b"Hello ipsum dolor".to_vec());
    assert_eq!(&fs.files[1].data[..5], b"Hello");
    assert_eq!(fs.files[1].size, 5);
    assert_eq!(fs.files[1].name, b"./lorem.txt".to_vec());
    assert_eq!(fs.files[0].size, 8);
    let long = [b'z'; 20];
    assert_eq!(sys_writefile(&mut fs, b"./hello.txt", &long, 20), Some(8));
    assert_eq!(fs.files[0].data, b"zzzzzzzz\0\0\0\0".to_vec());
}

#[test]
fn lookup_finds_first_match() {
    let mut fs = table();
    fs.files.push(FileRecord { name: b"./hello.txt".to_vec(), data: vec![1], size: 1 });
    assert_eq!(fs.lookup(b"./hello.txt"), Some(0));
    assert_eq!(fs.lookup(b"./lorem.txt"), Some(1));
    assert_eq!(fs.lookup(b"./hello"), None);
}

#[test]
fn ping_loopback_succeeds() {
    let mut lo = init();
    let mut f = frame(0x7f00_0001, 2, 0, SYS_PING);
    let events = sys_ping(&mut lo, &mut f).unwrap();
    assert_eq!(f.a0, 0);
    assert_eq!(f.a1, 2);
    let lb = IpV4Addr::loopback();
    assert_eq!(
        events,
        vec![
            IcmpEvent::EchoRequest { src: lb, id: 0x1234, seq: 2, reply: Ok(()) },
            IcmpEvent::EchoReply { src: lb, id: 0x1234, seq: 2 },
        ]
    );
    assert!(lo.is_empty());
}

#[test]
fn ping_elsewhere_fails() {
    let mut lo = init();
    let mut f = frame(0x0a00_0001, 0, 0, SYS_PING);
    assert_eq!(sys_ping(&mut lo, &mut f), Err(NetError::NoRoute));
    assert_eq!(f.a0, PING_FAILED);
    assert_eq!(f.a0, 0xFFFF_FFFF);
    assert!(lo.is_empty());
}
