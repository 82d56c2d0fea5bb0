//! The embedded user programs, as machine code.

use vstd::prelude::*;

verus! {

/// Writes "hello, EL0!", yields, writes "back from yield", exits.
pub const USER_PROGRAM_BYTES: [u8; 128] = [
    0x28, 0x00, 0x80, 0xd2, 0x20, 0x00, 0x80, 0xd2, 0x81, 0x01, 0x00, 0x10, 0xa2, 0x01, 0x80, 0xd2,
    0x01, 0x00, 0x00, 0xd4, 0x68, 0x00, 0x80, 0xd2, 0x01, 0x00, 0x00, 0xd4, 0x28, 0x00, 0x80, 0xd2,
    0x20, 0x00, 0x80, 0xd2, 0x21, 0x01, 0x00, 0x10, 0x22, 0x02, 0x80, 0xd2, 0x01, 0x00, 0x00, 0xd4,
    0x48, 0x00, 0x80, 0xd2, 0x01, 0x00, 0x00, 0xd4, 0x68, 0x65, 0x6c, 0x6c, 0x6f, 0x2c, 0x20, 0x45,
    0x4c, 0x30, 0x21, 0x0a, 0x0d, 0x00, 0x00, 0x00, 0x62, 0x61, 0x63, 0x6b, 0x20, 0x66, 0x72, 0x6f,
    0x6d, 0x20, 0x79, 0x69, 0x65, 0x6c, 0x64, 0x0a, 0x0d, 0x00, 0x00, 0x00, 0x00, 0x00, 0x00, 0x00,
    0x00, 0x00, 0x00, 0x00, 0x00, 0x00, 0x00, 0x00, 0x00, 0x00, 0x00, 0x00, 0x00, 0x00, 0x00, 0x00,
    0x00, 0x00, 0x00, 0x00, 0x00, 0x00, 0x00, 0x00, 0x00, 0x00, 0x00, 0x00, 0x00, 0x00, 0x00, 0x00,
];

/// Stores to address 0, which no task has mapped.
pub const USER_FAULT_PROGRAM_BYTES: [u8; 16] = [
    0x00, 0x00, 0x80, 0xd2, 0x01, 0x00, 0x00, 0xf9, 0x00, 0x00, 0x00, 0x00, 0x00, 0x00, 0x00, 0x00,
];

/// Writes "task B!", yields, writes "B done!", exits.
pub const TASK_B_PROGRAM_BYTES: [u8; 128] = [
    0x28, 0x00, 0x80, 0xd2, 0x20, 0x00, 0x80, 0xd2, 0x81, 0x01, 0x00, 0x10, 0x02, 0x01, 0x80, 0xd2,
    0x01, 0x00, 0x00, 0xd4, 0x68, 0x00, 0x80, 0xd2, 0x01, 0x00, 0x00, 0xd4, 0x28, 0x00, 0x80, 0xd2,
    0x20, 0x00, 0x80, 0xd2, 0x21, 0x01, 0x00, 0x10, 0x02, 0x01, 0x80, 0xd2, 0x01, 0x00, 0x00, 0xd4,
    0x48, 0x00, 0x80, 0xd2, 0x01, 0x00, 0x00, 0xd4, 0x74, 0x61, 0x73, 0x6b, 0x20, 0x42, 0x21, 0x0a,
    0x0d, 0x00, 0x00, 0x00, 0x00, 0x00, 0x00, 0x00, 0x42, 0x20, 0x64, 0x6f, 0x6e, 0x65, 0x21, 0x0a,
    0x0d, 0x00, 0x00, 0x00, 0x00, 0x00, 0x00, 0x00, 0x00, 0x00, 0x00, 0x00, 0x00, 0x00, 0x00, 0x00,
    0x00, 0x00, 0x00, 0x00, 0x00, 0x00, 0x00, 0x00, 0x00, 0x00, 0x00, 0x00, 0x00, 0x00, 0x00, 0x00,
    0x00, 0x00, 0x00, 0x00, 0x00, 0x00, 0x00, 0x00, 0x00, 0x00, 0x00, 0x00, 0x00, 0x00, 0x00, 0x00,
];

/// Writes "A" and spins: only the timer can take the CPU away.
pub const TASK_PREEMPT_A_BYTES: [u8; 32] = [
    0x28, 0x00, 0x80, 0xd2, 0x20, 0x00, 0x80, 0xd2, 0xa1, 0x00, 0x00, 0x10, 0x42, 0x00, 0x80, 0xd2,
    0x01, 0x00, 0x00, 0xd4, 0x00, 0x00, 0x00, 0x14, 0x00, 0x00, 0x00, 0x00, 0x41, 0x0a, 0x00, 0x00,
];

/// Writes "B" and spins.
pub const TASK_PREEMPT_B_BYTES: [u8; 32] = [
    0x28, 0x00, 0x80, 0xd2, 0x20, 0x00, 0x80, 0xd2, 0xa1, 0x00, 0x00, 0x10, 0x42, 0x00, 0x80, 0xd2,
    0x01, 0x00, 0x00, 0xd4, 0x00, 0x00, 0x00, 0x14, 0x00, 0x00, 0x00, 0x00, 0x42, 0x0a, 0x00, 0x00,
];

/// Writes "A: sending", sends "hello B!" to task 2, yields, writes "A: sent",
/// exits.
pub const TASK_IPC_SENDER_BYTES: [u8; 128] = [
    0x28, 0x00, 0x80, 0xd2, 0x20, 0x00, 0x80, 0xd2, 0x21, 0x02, 0x00, 0x10, 0x82, 0x01, 0x80, 0xd2,
    0x01, 0x00, 0x00, 0xd4, 0x88, 0x00, 0x80, 0xd2, 0x40, 0x00, 0x80, 0xd2, 0x41, 0x02, 0x00, 0x10,
    0x02, 0x01, 0x80, 0xd2, 0x01, 0x00, 0x00, 0xd4, 0x68, 0x00, 0x80, 0xd2, 0x01, 0x00, 0x00, 0xd4,
    0x28, 0x00, 0x80, 0xd2, 0x20, 0x00, 0x80, 0xd2, 0xa1, 0x01, 0x00, 0x10, 0x02, 0x01, 0x80, 0xd2,
    0x01, 0x00, 0x00, 0xd4, 0x48, 0x00, 0x80, 0xd2, 0x01, 0x00, 0x00, 0xd4, 0x41, 0x3a, 0x20, 0x73,
    0x65, 0x6e, 0x64, 0x69, 0x6e, 0x67, 0x0a, 0x0d, 0x00, 0x00, 0x00, 0x00, 0x00, 0x00, 0x00, 0x00,
    0x00, 0x00, 0x00, 0x00, 0x68, 0x65, 0x6c, 0x6c, 0x6f, 0x20, 0x42, 0x21, 0x41, 0x3a, 0x20, 0x73,
    0x65, 0x6e, 0x74, 0x0a, 0x0d, 0x00, 0x00, 0x00, 0x00, 0x00, 0x00, 0x00, 0x00, 0x00, 0x00, 0x00,
];

/// Writes "B: waiting", yields, receives up to 32 bytes at 0x200100, writes
/// "B: got msg!", exits.
pub const TASK_IPC_RECEIVER_BYTES: [u8; 128] = [
    0x28, 0x00, 0x80, 0xd2, 0x20, 0x00, 0x80, 0xd2, 0x21, 0x02, 0x00, 0x10, 0x82, 0x01, 0x80, 0xd2,
    0x01, 0x00, 0x00, 0xd4, 0x68, 0x00, 0x80, 0xd2, 0x01, 0x00, 0x00, 0xd4, 0xa8, 0x00, 0x80, 0xd2,
    0x00, 0x20, 0x80, 0xd2, 0x00, 0x04, 0xa0, 0xf2, 0x01, 0x04, 0x80, 0xd2, 0x01, 0x00, 0x00, 0xd4,
    0x28, 0x00, 0x80, 0xd2, 0x20, 0x00, 0x80, 0xd2, 0x61, 0x01, 0x00, 0x10, 0xa2, 0x01, 0x80, 0xd2,
    0x01, 0x00, 0x00, 0xd4, 0x48, 0x00, 0x80, 0xd2, 0x01, 0x00, 0x00, 0xd4, 0x42, 0x3a, 0x20, 0x77,
    0x61, 0x69, 0x74, 0x69, 0x6e, 0x67, 0x0a, 0x0d, 0x00, 0x00, 0x00, 0x00, 0x00, 0x00, 0x00, 0x00,
    0x00, 0x00, 0x00, 0x00, 0x42, 0x3a, 0x20, 0x67, 0x6f, 0x74, 0x20, 0x6d, 0x73, 0x67, 0x21, 0x0a,
    0x0d, 0x00, 0x00, 0x00, 0x00, 0x00, 0x00, 0x00, 0x00, 0x00, 0x00, 0x00, 0x00, 0x00, 0x00, 0x00,
];

/// Writes "A: send", yields, sends "wake!" to task 2, writes "A: done", exits.
pub const TASK_BLKIPC_SENDER_BYTES: [u8; 128] = [
    0x28, 0x00, 0x80, 0xd2, 0x20, 0x00, 0x80, 0xd2, 0x21, 0x02, 0x00, 0x10, 0x22, 0x01, 0x80, 0xd2,
    0x01, 0x00, 0x00, 0xd4, 0x68, 0x00, 0x80, 0xd2, 0x01, 0x00, 0x00, 0xd4, 0x88, 0x00, 0x80, 0xd2,
    0x40, 0x00, 0x80, 0xd2, 0xc1, 0x01, 0x00, 0x10, 0xa2, 0x00, 0x80, 0xd2, 0x01, 0x00, 0x00, 0xd4,
    0x28, 0x00, 0x80, 0xd2, 0x20, 0x00, 0x80, 0xd2, 0xa1, 0x01, 0x00, 0x10, 0x22, 0x01, 0x80, 0xd2,
    0x01, 0x00, 0x00, 0xd4, 0x48, 0x00, 0x80, 0xd2, 0x01, 0x00, 0x00, 0xd4, 0x41, 0x3a, 0x20, 0x73,
    0x65, 0x6e, 0x64, 0x0a, 0x0d, 0x00, 0x00, 0x00, 0x00, 0x00, 0x00, 0x00, 0x77, 0x61, 0x6b, 0x65,
    0x21, 0x00, 0x00, 0x00, 0x00, 0x00, 0x00, 0x00, 0x00, 0x00, 0x00, 0x00, 0x41, 0x3a, 0x20, 0x64,
    0x6f, 0x6e, 0x65, 0x0a, 0x0d, 0x00, 0x00, 0x00, 0x00, 0x00, 0x00, 0x00, 0x00, 0x00, 0x00, 0x00,
];

/// Writes "B: block", receives with `recvblk`, writes "B: woke!", exits.
pub const TASK_BLKIPC_RECEIVER_BYTES: [u8; 128] = [
    0x28, 0x00, 0x80, 0xd2, 0x20, 0x00, 0x80, 0xd2, 0xe1, 0x01, 0x00, 0x10, 0x42, 0x01, 0x80, 0xd2,
    0x01, 0x00, 0x00, 0xd4, 0xc8, 0x00, 0x80, 0xd2, 0x00, 0x20, 0x80, 0xd2, 0x00, 0x04, 0xa0, 0xf2,
    0x01, 0x04, 0x80, 0xd2, 0x01, 0x00, 0x00, 0xd4, 0x28, 0x00, 0x80, 0xd2, 0x20, 0x00, 0x80, 0xd2,
    0xa1, 0x01, 0x00, 0x10, 0x42, 0x01, 0x80, 0xd2, 0x01, 0x00, 0x00, 0xd4, 0x48, 0x00, 0x80, 0xd2,
    0x01, 0x00, 0x00, 0xd4, 0x42, 0x3a, 0x20, 0x62, 0x6c, 0x6f, 0x63, 0x6b, 0x0a, 0x0d, 0x00, 0x00,
    0x00, 0x00, 0x00, 0x00, 0x00, 0x00, 0x00, 0x00, 0x00, 0x00, 0x00, 0x00, 0x00, 0x00, 0x00, 0x00,
    0x00, 0x00, 0x00, 0x00, 0x42, 0x3a, 0x20, 0x77, 0x6f, 0x6b, 0x65, 0x21, 0x0a, 0x0d, 0x00, 0x00,
    0x00, 0x00, 0x00, 0x00, 0x00, 0x00, 0x00, 0x00, 0x00, 0x00, 0x00, 0x00, 0x00, 0x00, 0x00, 0x00,
];

/// Writes "A: send2", sends "first" and "second" to task 2 with `sendblk`,
/// writes "A: sent2", exits.
pub const TASK_SENDBLK_SENDER_BYTES: [u8; 128] = [
    0x28, 0x00, 0x80, 0xd2, 0x20, 0x00, 0x80, 0xd2, 0x81, 0x02, 0x00, 0x10, 0x42, 0x01, 0x80, 0xd2,
    0x01, 0x00, 0x00, 0xd4, 0xe8, 0x00, 0x80, 0xd2, 0x40, 0x00, 0x80, 0xd2, 0x41, 0x02, 0x00, 0x10,
    0xa2, 0x00, 0x80, 0xd2, 0x01, 0x00, 0x00, 0xd4, 0xe8, 0x00, 0x80, 0xd2, 0x40, 0x00, 0x80, 0xd2,
    0xe1, 0x01, 0x00, 0x10, 0xc2, 0x00, 0x80, 0xd2, 0x01, 0x00, 0x00, 0xd4, 0x28, 0x00, 0x80, 0xd2,
    0x20, 0x00, 0x80, 0xd2, 0x81, 0x01, 0x00, 0x10, 0x42, 0x01, 0x80, 0xd2, 0x01, 0x00, 0x00, 0xd4,
    0x48, 0x00, 0x80, 0xd2, 0x01, 0x00, 0x00, 0xd4, 0x41, 0x3a, 0x20, 0x73, 0x65, 0x6e, 0x64, 0x32,
    0x0a, 0x0d, 0x00, 0x00, 0x66, 0x69, 0x72, 0x73, 0x74, 0x00, 0x00, 0x00, 0x73, 0x65, 0x63, 0x6f,
    0x6e, 0x64, 0x00, 0x00, 0x41, 0x3a, 0x20, 0x73, 0x65, 0x6e, 0x74, 0x32, 0x0a, 0x0d, 0x00, 0x00,
];

/// Writes "B: recv2", receives, yields, receives again, writes "B: got2", exits.
pub const TASK_SENDBLK_RECEIVER_BYTES: [u8; 128] = [
    0x28, 0x00, 0x80, 0xd2, 0x20, 0x00, 0x80, 0xd2, 0xc1, 0x02, 0x00, 0x10, 0x42, 0x01, 0x80, 0xd2,
    0x01, 0x00, 0x00, 0xd4, 0xa8, 0x00, 0x80, 0xd2, 0x00, 0x20, 0x80, 0xd2, 0x00, 0x04, 0xa0, 0xf2,
    0x01, 0x04, 0x80, 0xd2, 0x01, 0x00, 0x00, 0xd4, 0x68, 0x00, 0x80, 0xd2, 0x01, 0x00, 0x00, 0xd4,
    0xa8, 0x00, 0x80, 0xd2, 0x00, 0x20, 0x80, 0xd2, 0x00, 0x04, 0xa0, 0xf2, 0x01, 0x04, 0x80, 0xd2,
    0x01, 0x00, 0x00, 0xd4, 0x28, 0x00, 0x80, 0xd2, 0x20, 0x00, 0x80, 0xd2, 0x21, 0x01, 0x00, 0x10,
    0x22, 0x01, 0x80, 0xd2, 0x01, 0x00, 0x00, 0xd4, 0x48, 0x00, 0x80, 0xd2, 0x01, 0x00, 0x00, 0xd4,
    0x42, 0x3a, 0x20, 0x72, 0x65, 0x63, 0x76, 0x32, 0x0a, 0x0d, 0x00, 0x00, 0x00, 0x00, 0x00, 0x00,
    0x42, 0x3a, 0x20, 0x67, 0x6f, 0x74, 0x32, 0x0a, 0x0d, 0x00, 0x00, 0x00, 0x00, 0x00, 0x00, 0x00,
];

} // verus!
