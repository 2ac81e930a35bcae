use advantic::cpu::flags;
use advantic::cpu::instruction::{
    DataProcessingCpsr, DataProcessingOpcode, HalfwordDataTransferMode, Indexing, Instruction, Offset,
    OffsetShift, RegisterList,
};
use advantic::cpu::mode::{register_index, spsr_index, CpuMode};
use advantic::cpu::step::Obstacle;
use advantic::cpu::Cpu;
use advantic::memory::MemoryBus;
use advantic::system::System;
use std::cell::RefCell;
use std::collections::VecDeque;

#[derive(Debug)]
enum Transaction {
    Read { address: u32, value: u32 },
    Write { address: u32, value: u32, size: u8 },
}

use Transaction::{Read, Write};

struct TestMemoryBus {
    transactions: RefCell<VecDeque<Transaction>>,
}

impl MemoryBus for TestMemoryBus {
    type State = ();

    fn state(&self) {}

    fn valid(_: ()) -> bool {
        true
    }

    fn readable(_: (), _: u32) -> bool {
        true
    }

    fn writable(_: (), _: u32, _: u8) -> bool {
        true
    }

    fn word_at(_: (), _: u32) -> u32 {
        0
    }

    fn written(_: (), _: u32, _: u32, _: u8) {}

    fn write_keeps_access(_: (), _: u32, _: u32, _: u8, _: u32, _: u8) {}

    fn can_read(&self, _: u32) -> bool {
        true
    }

    fn can_write(&self, _: u32, _: u8) -> bool {
        true
    }

    fn read(&self, address: u32) -> u32 {
        let transaction = self.transactions.borrow_mut().pop_front().unwrap();
        if let Read { address: a, value } = transaction {
            assert_eq!(address, a, "read address");
            value
        } else {
            panic!("expected read {address:08x}")
        }
    }

    fn write(&mut self, address: u32, value: u32, size: u8) {
        let transaction = self.transactions.borrow_mut().pop_front().unwrap();
        if let Write { address: a, value: v, size: s } = transaction {
            assert_eq!(address, a, "write address");
            assert_eq!(value, v, "write value {address:08x}");
            assert_eq!(size, s, "write size {address:08x}");
        } else {
            panic!("expected write {address:08x}")
        }
    }
}

const START: u32 = 0x0300_0000;

/// A processor in the system mode at `START`, in word or half word code.
fn cpu(thumb: bool) -> Cpu {
    let mut cpu = Cpu::new();
    if thumb {
        cpu.cpsr |= 1 << flags::THUMB;
    }
    cpu.registers[15] = START + if thumb { 4 } else { 8 };
    cpu
}

/// Executes one instruction with the transactions after its fetch.
fn run(cpu: &mut Cpu, opcode: u32, transactions: Vec<Transaction>) {
    let thumb = cpu.cpsr & 1 << flags::THUMB != 0;
    let address = cpu.registers[15] - if thumb { 4 } else { 8 };
    let value = if thumb && address % 4 == 2 { opcode << 16 } else { opcode };
    let mut queue = VecDeque::from(transactions);
    queue.push_front(Read { address, value });
    let mut mem = TestMemoryBus { transactions: RefCell::new(queue) };
    cpu.step(&mut mem);
    assert!(mem.transactions.into_inner().is_empty());
    assert_eq!(cpu.pipeline_size, 2);
}

fn carry(cpu: &Cpu) -> bool {
    cpu.cpsr & 1 << flags::CARRY != 0
}

fn overflow(cpu: &Cpu) -> bool {
    cpu.cpsr & 1 << flags::OVERFLOW != 0
}

fn zero(cpu: &Cpu) -> bool {
    cpu.cpsr & 1 << flags::ZERO != 0
}

fn negative(cpu: &Cpu) -> bool {
    cpu.cpsr & 1 << flags::NEGATIVE != 0
}

#[test]
fn a_new_processor() {
    let cpu = Cpu::new();
    assert_eq!(cpu.registers[15], 0x0800_0008);
    assert_eq!(cpu.registers[13], 0x0300_7f00);
    assert_eq!(cpu.registers[register_index(CpuMode::Irq, 13)], 0x0300_7fa0);
    assert_eq!(cpu.registers[register_index(CpuMode::Supervisor, 13)], 0x0300_7fe0);
    assert_eq!(cpu.cpsr, 0x1f);
    assert_eq!(cpu.pipeline_size, 2);
    assert_eq!(cpu.cycle, 0);
}

#[test]
fn modes_and_banks() {
    assert_eq!(CpuMode::try_from(0b1011), Ok(CpuMode::Undefined));
    assert_eq!(CpuMode::try_from(0b0100), Err(0b0100));
    assert_eq!(register_index(CpuMode::User, 14), 14);
    assert_eq!(register_index(CpuMode::System, 13), 13);
    assert_eq!(register_index(CpuMode::Fiq, 7), 7);
    assert_eq!(register_index(CpuMode::Fiq, 8), 16);
    assert_eq!(register_index(CpuMode::Fiq, 14), 22);
    assert_eq!(register_index(CpuMode::Supervisor, 13), 23);
    assert_eq!(register_index(CpuMode::Abort, 14), 26);
    assert_eq!(register_index(CpuMode::Irq, 13), 27);
    assert_eq!(register_index(CpuMode::Undefined, 14), 30);
    assert_eq!(register_index(CpuMode::Undefined, 15), 15);
    assert_eq!(spsr_index(CpuMode::User), None);
    assert_eq!(spsr_index(CpuMode::Fiq), Some(0));
    assert_eq!(spsr_index(CpuMode::Undefined), Some(4));
}

#[test]
fn adding_sets_the_flags() {
    let mut cpu = cpu(false);
    cpu.registers[1] = 0xffff_ffff;
    cpu.registers[2] = 1;
    // adds r0, r1, r2
    run(&mut cpu, 0xe091_0002, vec![]);
    assert_eq!(cpu.registers[0], 0);
    assert!(carry(&cpu) && zero(&cpu) && !negative(&cpu) && !overflow(&cpu));
    assert_eq!(cpu.registers[15], START + 12);
    assert_eq!(cpu.cycle, 1);
    // adcs r0, r2, r2
    run(&mut cpu, 0xe0b2_0002, vec![]);
    assert_eq!(cpu.registers[0], 3);
    assert!(!carry(&cpu) && !zero(&cpu));
    cpu.registers[1] = 0x7fff_ffff;
    run(&mut cpu, 0xe091_0002, vec![]);
    assert_eq!(cpu.registers[0], 0x8000_0000);
    assert!(overflow(&cpu) && negative(&cpu) && !carry(&cpu));
}

#[test]
fn subtracting_borrows() {
    let mut cpu = cpu(false);
    cpu.registers[1] = 5;
    cpu.registers[2] = 7;
    // subs r0, r1, r2
    run(&mut cpu, 0xe051_0002, vec![]);
    assert_eq!(cpu.registers[0], 0xffff_fffe);
    assert!(!carry(&cpu) && negative(&cpu));
    // rsbs r0, r1, r2
    run(&mut cpu, 0xe071_0002, vec![]);
    assert_eq!(cpu.registers[0], 2);
    assert!(carry(&cpu));
    // cmp r1, r1
    run(&mut cpu, 0xe151_0001, vec![]);
    assert_eq!(cpu.registers[0], 2);
    assert!(carry(&cpu) && zero(&cpu));
    // sbc r0, r2, r1 with the carry set, then rsc with it clear
    run(&mut cpu, 0xe0c2_0001, vec![]);
    assert_eq!(cpu.registers[0], 2);
    cpu.cpsr &= !(1 << flags::CARRY);
    run(&mut cpu, 0xe0e2_0001, vec![]);
    assert_eq!(cpu.registers[0], 0xffff_fffd);
}

#[test]
fn logical_operations() {
    let mut cpu = cpu(false);
    cpu.registers[1] = 0b1100;
    cpu.registers[2] = 0b1010;
    for (opcode, expected) in [
        (0xe001_0002, 0b1000),
        (0xe021_0002, 0b0110),
        (0xe181_0002, 0b1110),
        (0xe1a0_0002, 0b1010),
        (0xe1c1_0002, 0b0100),
        (0xe1e0_0002, !0b1010),
    ] {
        run(&mut cpu, opcode, vec![]);
        assert_eq!(cpu.registers[0], expected, "{opcode:08x}");
    }
    // tst r1, #0x10000000; teq r1, r1
    cpu.registers[0] = 7;
    run(&mut cpu, 0xe311_0201, vec![]);
    assert!(zero(&cpu));
    run(&mut cpu, 0xe131_0001, vec![]);
    assert!(zero(&cpu));
    assert_eq!(cpu.registers[0], 7);
}

#[test]
fn shifted_operands() {
    let mut cpu = cpu(false);
    cpu.registers[1] = 0x8000_0001;
    // movs r0, r1, lsl #1
    run(&mut cpu, 0xe1b0_0081, vec![]);
    assert_eq!(cpu.registers[0], 2);
    assert!(carry(&cpu));
    // movs r0, r1, rrx
    run(&mut cpu, 0xe1b0_0061, vec![]);
    assert_eq!(cpu.registers[0], 0xc000_0000);
    assert!(carry(&cpu));
    // movs r0, r1, lsr #32
    run(&mut cpu, 0xe1b0_0021, vec![]);
    assert_eq!(cpu.registers[0], 0);
    assert!(carry(&cpu) && zero(&cpu));
    // movs r0, r1, asr #32
    run(&mut cpu, 0xe1b0_0041, vec![]);
    assert_eq!(cpu.registers[0], 0xffff_ffff);
    // movs r0, r1, ror #4
    run(&mut cpu, 0xe1b0_0261, vec![]);
    assert_eq!(cpu.registers[0], 0x1800_0000);
    assert!(!carry(&cpu));
    // movs r0, #0xff000000
    run(&mut cpu, 0xe3b0_04ff, vec![]);
    assert_eq!(cpu.registers[0], 0xff00_0000);
    assert!(carry(&cpu));
}

#[test]
fn shifting_by_a_register_takes_a_cycle() {
    let mut cpu = cpu(false);
    cpu.registers[1] = 1;
    cpu.registers[2] = 0x104;
    // mov r0, r1, lsl r2
    run(&mut cpu, 0xe1a0_0211, vec![]);
    assert_eq!(cpu.registers[0], 16);
    assert_eq!(cpu.cycle, 2);
    // add r0, r15, r1, lsl r2 sees the program counter one word further
    let pc = cpu.registers[15];
    run(&mut cpu, 0xe08f_0211, vec![]);
    assert_eq!(cpu.registers[0], pc + 4 + 16);
    // movs r0, r1, lsr r2 with a distance of zero keeps the carry
    cpu.registers[2] = 0x100;
    cpu.cpsr |= 1 << flags::CARRY;
    run(&mut cpu, 0xe1b0_0231, vec![]);
    assert_eq!(cpu.registers[0], 1);
    assert!(carry(&cpu));
    // movs r0, r1, lsl r2 by 32 and by 33
    cpu.registers[2] = 32;
    run(&mut cpu, 0xe1b0_0211, vec![]);
    assert_eq!(cpu.registers[0], 0);
    assert!(carry(&cpu));
    cpu.registers[2] = 33;
    run(&mut cpu, 0xe1b0_0211, vec![]);
    assert!(!carry(&cpu));
}

#[test]
fn conditions() {
    let all = [
        (0b0000u32, [false, true, false, true, false, true, false, true, false, true, true, false, true, false, true, false]),
        (0b0100, [true, false, false, true, false, true, false, true, false, true, true, false, false, true, true, false]),
        (0b0010, [false, true, true, false, false, true, false, true, true, false, true, false, true, false, true, false]),
        (0b1000, [false, true, false, true, true, false, false, true, false, true, false, true, false, true, true, false]),
        (0b1001, [false, true, false, true, true, false, true, false, false, true, true, false, true, false, true, false]),
    ];
    for (status, expected) in all {
        for cond in 0..16u32 {
            let mut cpu = cpu(false);
            cpu.cpsr |= status << 28;
            // mov r0, #1
            run(&mut cpu, cond << 28 | 0x03a0_0001, vec![]);
            assert_eq!(cpu.registers[0] == 1, expected[cond as usize], "{status:04b} {cond}");
            assert_eq!(cpu.registers[15], START + 12);
            assert_eq!(cpu.cycle, 1);
        }
    }
}

#[test]
fn branches() {
    let mut cpu = cpu(false);
    // bl +16
    run(&mut cpu, 0xeb00_0002, vec![]);
    assert_eq!(cpu.registers[14], START + 4);
    assert_eq!(cpu.registers[15], START + 16 + 8);
    assert_eq!(cpu.cycle, 2);
    // b -8
    run(&mut cpu, 0xeaff_fffc, vec![]);
    assert_eq!(cpu.registers[15], START + 16 + 8 - 16 + 8);
    // bx r0 to half word code
    cpu.registers[0] = START + 0x101;
    run(&mut cpu, 0xe12f_ff10, vec![]);
    assert!(cpu.cpsr & 1 << flags::THUMB != 0);
    assert_eq!(cpu.registers[15], START + 0x104);
    // bx r1 back
    cpu.registers[1] = START + 0x200;
    run(&mut cpu, 0x4708, vec![]);
    assert!(cpu.cpsr & 1 << flags::THUMB == 0);
    assert_eq!(cpu.registers[15], START + 0x208);
}

#[test]
fn a_software_interrupt_and_the_return() {
    let mut cpu = cpu(false);
    cpu.cpsr |= 1 << flags::CARRY;
    let status = cpu.cpsr;
    run(&mut cpu, 0xef00_0005, vec![]);
    assert_eq!(cpu.cpsr, status & !0b1111 | 0b0011 | 1 << flags::DISABLE_IRQ);
    assert_eq!(cpu.spsr[1], status);
    assert_eq!(cpu.registers[24], START + 4);
    assert_eq!(cpu.registers[14], 0);
    assert_eq!(cpu.registers[15], 0x08 + 8);
    // movs pc, lr
    run(&mut cpu, 0xe1b0_f00e, vec![]);
    assert_eq!(cpu.cpsr, status);
    assert_eq!(cpu.registers[15], START + 4 + 8);
}

#[test]
fn status_registers() {
    let mut cpu = cpu(false);
    // mrs r0, cpsr
    run(&mut cpu, 0xe10f_0000, vec![]);
    assert_eq!(cpu.registers[0], 0x1f);
    // msr cpsr_f, #0xf0000000
    run(&mut cpu, 0xe328_f20f, vec![]);
    assert_eq!(cpu.cpsr, 0xf000_001f);
    // msr cpsr_c, r1 to the interrupt mode
    cpu.registers[1] = 0x0000_0012;
    run(&mut cpu, 0xe121_f001, vec![]);
    assert_eq!(cpu.cpsr, 0xf000_0012);
    // msr spsr_cxsf, r2; mrs r3, spsr
    cpu.registers[2] = 0x1234_5678;
    run(&mut cpu, 0xe16f_f002, vec![]);
    assert_eq!(cpu.spsr[3], 0x1234_5678);
    run(&mut cpu, 0xe14f_3000, vec![]);
    assert_eq!(cpu.registers[3], 0x1234_5678);
    // In the user mode the control bits cannot be written.
    cpu.cpsr = 0x10;
    cpu.registers[1] = 0x8000_001f;
    run(&mut cpu, 0xe129_f001, vec![]);
    assert_eq!(cpu.cpsr, 0x8000_0010);
}

#[test]
fn word_and_byte_transfers() {
    let mut cpu = cpu(false);
    cpu.registers[1] = 0x0200_0000;
    // ldr r0, [r1, #4]!
    run(&mut cpu, 0xe5b1_0004, vec![Read { address: 0x0200_0004, value: 0x1122_3344 }]);
    assert_eq!(cpu.registers[0], 0x1122_3344);
    assert_eq!(cpu.registers[1], 0x0200_0004);
    assert_eq!(cpu.cycle, 2);
    // ldr r0, [r1], #-3
    run(&mut cpu, 0xe411_0003, vec![Read { address: 0x0200_0004, value: 5 }]);
    assert_eq!(cpu.registers[1], 0x0200_0001);
    // ldr r0, [r1] is rotated
    run(&mut cpu, 0xe591_0000, vec![Read { address: 0x0200_0001, value: 0x1122_3344 }]);
    assert_eq!(cpu.registers[0], 0x4411_2233);
    // ldrb r0, [r1]
    run(&mut cpu, 0xe5d1_0000, vec![Read { address: 0x0200_0001, value: 0x1122_3344 }]);
    assert_eq!(cpu.registers[0], 0x44);
    // str r15, [r1]
    let pc = cpu.registers[15];
    run(&mut cpu, 0xe581_f000, vec![Write { address: 0x0200_0001, value: pc + 4, size: 4 }]);
    // strb r0, [r1, r2, lsl #2]
    cpu.registers[2] = 3;
    run(&mut cpu, 0xe7c1_0102, vec![Write { address: 0x0200_000d, value: 0x44, size: 1 }]);
    // ldr r15, [r1]
    run(&mut cpu, 0xe591_f000, vec![Read { address: 0x0200_0001, value: 0x1000_0007 }]);
    assert_eq!(cpu.registers[15], (0x1000_0007u32.rotate_right(8) & !3).wrapping_add(8));
}

#[test]
fn half_word_transfers() {
    let mut cpu = cpu(false);
    cpu.registers[1] = 0x0200_0000;
    // ldrh, ldrsb, ldrsh r0, [r1]
    let read = |value| vec![Read { address: 0x0200_0000, value }];
    run(&mut cpu, 0xe1d1_00b0, read(0x1234_fedc));
    assert_eq!(cpu.registers[0], 0xfedc);
    run(&mut cpu, 0xe1d1_00d0, read(0x1234_fedc));
    assert_eq!(cpu.registers[0], 0xffff_ffdc);
    run(&mut cpu, 0xe1d1_00f0, read(0x1234_fedc));
    assert_eq!(cpu.registers[0], 0xffff_fedc);
    run(&mut cpu, 0xe1d1_00f0, read(0x1234_7edc));
    assert_eq!(cpu.registers[0], 0x7edc);
    // strh r0, [r1, #0x12]
    run(&mut cpu, 0xe1c1_01b2, vec![Write { address: 0x0200_0012, value: 0x7edc, size: 2 }]);
    assert!(!cpu.skip_test);
    // ldrh r0, [r1, -r2]
    cpu.registers[2] = 1;
    run(&mut cpu, 0xe111_00b2, vec![Read { address: 0x01ff_ffff, value: 1 }]);
    assert!(cpu.skip_test);
}

#[test]
fn block_transfers() {
    let mut cpu = cpu(false);
    cpu.registers[13] = 0x0200_0100;
    cpu.registers[0] = 10;
    cpu.registers[4] = 14;
    // stmdb r13!, {r0, r4, r14}
    cpu.registers[14] = 24;
    run(
        &mut cpu,
        0xe92d_4011,
        vec![
            Write { address: 0x0200_00f4, value: 10, size: 4 },
            Write { address: 0x0200_00f8, value: 14, size: 4 },
            Write { address: 0x0200_00fc, value: 24, size: 4 },
        ],
    );
    assert_eq!(cpu.registers[13], 0x0200_00f4);
    // ldmia r13!, {r1, r2, r15}
    run(
        &mut cpu,
        0xe8bd_8006,
        vec![
            Read { address: 0x0200_00f4, value: 10 },
            Read { address: 0x0200_00f8, value: 14 },
            Read { address: 0x0200_00fc, value: 0x0300_0102 },
        ],
    );
    assert_eq!(cpu.registers[1], 10);
    assert_eq!(cpu.registers[2], 14);
    assert_eq!(cpu.registers[13], 0x0200_0100);
    assert_eq!(cpu.registers[15], 0x0300_0108);
    // ldmib r13, {r3}; stmda r13, {r3}
    run(&mut cpu, 0xe99d_0008, vec![Read { address: 0x0200_0104, value: 33 }]);
    assert_eq!(cpu.registers[3], 33);
    run(&mut cpu, 0xe80d_0008, vec![Write { address: 0x0200_0100, value: 33, size: 4 }]);
}

#[test]
fn block_transfers_of_other_banks() {
    let mut cpu = cpu(false);
    cpu.cpsr = 0x12;
    cpu.spsr[3] = 0x8000_001f;
    cpu.registers[1] = 0x0200_0000;
    cpu.registers[13] = 0xaaaa;
    cpu.registers[27] = 0xbbbb;
    // stmia r1, {r13}^
    run(&mut cpu, 0xe8c1_2000, vec![Write { address: 0x0200_0000, value: 0xaaaa, size: 4 }]);
    // ldmia r1!, {r13, r15}^
    run(
        &mut cpu,
        0xe8f1_a000,
        vec![
            Read { address: 0x0200_0000, value: 0xcccc },
            Read { address: 0x0200_0004, value: 0x0300_0040 },
        ],
    );
    assert_eq!(cpu.registers[27], 0xcccc);
    assert_eq!(cpu.registers[13], 0xaaaa);
    assert_eq!(cpu.cpsr, 0x8000_001f);
    assert_eq!(cpu.registers[1], 0x0200_0008);
    assert_eq!(cpu.registers[15], 0x0300_0048);
}

#[test]
fn exchanging_with_memory() {
    let mut cpu = cpu(false);
    cpu.registers[1] = 0x0200_0002;
    cpu.registers[2] = 0x55;
    // swp r0, r2, [r1]; swpb r0, r2, [r1]
    run(
        &mut cpu,
        0xe101_0092,
        vec![
            Read { address: 0x0200_0002, value: 0x1122_3344 },
            Write { address: 0x0200_0002, value: 0x55, size: 4 },
        ],
    );
    assert_eq!(cpu.registers[0], 0x3344_1122);
    run(
        &mut cpu,
        0xe141_0092,
        vec![
            Read { address: 0x0200_0002, value: 0x1122_3344 },
            Write { address: 0x0200_0002, value: 0x55, size: 1 },
        ],
    );
    assert_eq!(cpu.registers[0], 0x44);
}

#[test]
fn multiplications() {
    let mut cpu = cpu(false);
    cpu.registers[1] = 0xffff_ffff;
    cpu.registers[2] = 3;
    cpu.registers[3] = 5;
    // muls r0, r1, r2; mla r0, r1, r2, r3
    run(&mut cpu, 0xe010_0291, vec![]);
    assert_eq!(cpu.registers[0], 0xffff_fffd);
    assert!(negative(&cpu) && !zero(&cpu));
    run(&mut cpu, 0xe020_3291, vec![]);
    assert_eq!(cpu.registers[0], 2);
    // umull r4, r5, r1, r2; smull r4, r5, r1, r2
    run(&mut cpu, 0xe085_4291, vec![]);
    assert_eq!((cpu.registers[5], cpu.registers[4]), (2, 0xffff_fffd));
    run(&mut cpu, 0xe0c5_4291, vec![]);
    assert_eq!((cpu.registers[5], cpu.registers[4]), (0xffff_ffff, 0xffff_fffd));
    // smlals r4, r5, r2, r3 reaches 12
    run(&mut cpu, 0xe0f5_4392, vec![]);
    assert_eq!((cpu.registers[5], cpu.registers[4]), (0, 12));
    assert!(!negative(&cpu) && !zero(&cpu));
    // umlals r4, r5, r6, r6 with nothing to add
    cpu.registers[4] = 0;
    run(&mut cpu, 0xe0b5_4696, vec![]);
    assert!(zero(&cpu));
}

#[test]
fn half_word_code() {
    let mut cpu = cpu(true);
    // mov r0, #200; lsl r1, r0, #4; add r2, r1, r0; sub r2, r2, #7
    run(&mut cpu, 0x20c8, vec![]);
    assert_eq!(cpu.registers[0], 200);
    assert_eq!(cpu.registers[15], START + 6);
    run(&mut cpu, 0x0101, vec![]);
    assert_eq!(cpu.registers[1], 3200);
    run(&mut cpu, 0x180a, vec![]);
    assert_eq!(cpu.registers[2], 3400);
    run(&mut cpu, 0x1fd2, vec![]);
    assert_eq!(cpu.registers[2], 3393);
    // neg r3, r0; mul r3, r0; mvn r3, r3; ror r3, r0
    run(&mut cpu, 0x4243, vec![]);
    assert_eq!(cpu.registers[3], 0u32.wrapping_sub(200));
    run(&mut cpu, 0x4343, vec![]);
    assert_eq!(cpu.registers[3], 0u32.wrapping_sub(40000));
    run(&mut cpu, 0x43db, vec![]);
    assert_eq!(cpu.registers[3], 39999);
    run(&mut cpu, 0x41c3, vec![]);
    assert_eq!(cpu.registers[3], 39999u32.rotate_right(8));
    // cmp r0, #200; add r8, r0; mov r0, r8
    run(&mut cpu, 0x28c8, vec![]);
    assert!(zero(&cpu) && carry(&cpu));
    run(&mut cpu, 0x4480, vec![]);
    assert_eq!(cpu.registers[8], 200);
    assert!(zero(&cpu));
    run(&mut cpu, 0x4640, vec![]);
    assert_eq!(cpu.registers[0], 200);
}

#[test]
fn half_word_code_addresses() {
    let mut cpu = cpu(true);
    // ldr r0, [pc, #8] at both alignments
    run(&mut cpu, 0x4802, vec![Read { address: START + 4 + 8, value: 77 }]);
    assert_eq!(cpu.registers[0], 77);
    run(&mut cpu, 0x4802, vec![Read { address: START + 4 + 8, value: 78 }]);
    assert_eq!(cpu.registers[0], 78);
    // add r1, pc, #4; add r1, sp, #4
    run(&mut cpu, 0xa101, vec![]);
    assert_eq!(cpu.registers[1], START + 8 + 4);
    cpu.registers[13] = 0x0200_0100;
    run(&mut cpu, 0xa901, vec![]);
    assert_eq!(cpu.registers[1], 0x0200_0104);
    // sub sp, #8; str r0, [sp, #4]; ldr r2, [sp, #4]
    run(&mut cpu, 0xb082, vec![]);
    assert_eq!(cpu.registers[13], 0x0200_00f8);
    run(&mut cpu, 0x9001, vec![Write { address: 0x0200_00fc, value: 78, size: 4 }]);
    run(&mut cpu, 0x9a01, vec![Read { address: 0x0200_00fc, value: 79 }]);
    assert_eq!(cpu.registers[2], 79);
    // strb r0, [r1, #3]; ldrh r0, [r1, #6]; ldrsh r0, [r1, r3]; strb r0, [r1, r3]
    run(&mut cpu, 0x70c8, vec![Write { address: 0x0200_0107, value: 78, size: 1 }]);
    run(&mut cpu, 0x88c8, vec![Read { address: 0x0200_010a, value: 0xffff_8001 }]);
    assert_eq!(cpu.registers[0], 0x8001);
    cpu.registers[3] = 2;
    run(&mut cpu, 0x5ec8, vec![Read { address: 0x0200_0106, value: 0x8001 }]);
    assert_eq!(cpu.registers[0], 0xffff_8001);
    run(&mut cpu, 0x54c8, vec![Write { address: 0x0200_0106, value: 0xffff_8001, size: 1 }]);
}

#[test]
fn half_word_code_blocks_and_branches() {
    let mut cpu = cpu(true);
    cpu.registers[13] = 0x0200_0100;
    cpu.registers[0] = 1;
    cpu.registers[14] = 2;
    // push {r0, lr}; pop {r1, pc}
    run(
        &mut cpu,
        0xb501,
        vec![
            Write { address: 0x0200_00f8, value: 1, size: 4 },
            Write { address: 0x0200_00fc, value: 2, size: 4 },
        ],
    );
    run(
        &mut cpu,
        0xbd02,
        vec![
            Read { address: 0x0200_00f8, value: 1 },
            Read { address: 0x0200_00fc, value: START + 0x101 },
        ],
    );
    assert_eq!(cpu.registers[1], 1);
    assert_eq!(cpu.registers[13], 0x0200_0100);
    assert_eq!(cpu.registers[15], START + 0x104);
    // beq is not taken, bne -4 is
    run(&mut cpu, 0xd0fe, vec![]);
    assert_eq!(cpu.registers[15], START + 0x106);
    run(&mut cpu, 0xd1fc, vec![]);
    assert_eq!(cpu.registers[15], START + 0x102);
    // b +6; bl -0x1000
    run(&mut cpu, 0xe001, vec![]);
    assert_eq!(cpu.registers[15], START + 0x102 + 2 + 4);
    let next = cpu.registers[15];
    run(&mut cpu, 0xf7ff, vec![]);
    assert_eq!(cpu.registers[14], next - 0x1000);
    run(&mut cpu, 0xf802, vec![]);
    assert_eq!(cpu.registers[15], (next - 0x1000 + 4 & !1) + 4);
    assert_eq!(cpu.registers[14], next + 1);
    // ldmia r1!, {r1, r2} does not write the base back
    cpu.registers[1] = 0x0200_0000;
    run(
        &mut cpu,
        0xc906,
        vec![Read { address: 0x0200_0000, value: 5 }, Read { address: 0x0200_0004, value: 6 }],
    );
    assert_eq!((cpu.registers[1], cpu.registers[2]), (5, 6));
    // swi
    run(&mut cpu, 0xdf00, vec![]);
    assert_eq!(cpu.cpsr & 0x3f, 0x13);
    assert_eq!(cpu.registers[15], 0x10);
}

#[test]
fn words_that_are_not_instructions() {
    for (opcode, mode) in [
        (0xe610_0010, CpuMode::System),
        (0xec00_0000, CpuMode::System),
        (0xee00_0000, CpuMode::System),
        (0xe100_00d0, CpuMode::System),
        (0xe1b0_f00e, CpuMode::System),
        (0xe14f_0000, CpuMode::User),
        (0xe8bd_0000, CpuMode::Irq),
        (0xe100_0000, CpuMode::Irq),
    ] {
        assert!(Instruction::parse(opcode, mode).is_err(), "{opcode:08x}");
    }
    for half in [0xde00, 0xe800, 0xb100, 0xb400, 0xc000] {
        assert!(Instruction::parse_thumb(half, CpuMode::System, 0).is_err(), "{half:04x}");
    }
}

#[test]
fn decoded_instructions_name_banked_registers() {
    let (cond, instruction) = Instruction::parse(0x0791_d102, CpuMode::Fiq).unwrap();
    assert_eq!(cond, 0);
    assert!(matches!(
        instruction,
        Instruction::SingleDataTransfer {
            load: true,
            index: Indexing { base: 1, modify_first: true, subtract: false, write_back: false },
            target: 21,
            offset: Offset::ShiftedRegister {
                register: 2,
                shift_type: 0,
                shift: OffsetShift::Immediate(2)
            },
            byte: false
        }
    ));
    let (_, instruction) = Instruction::parse(0xe098_a00b, CpuMode::Fiq).unwrap();
    assert!(matches!(
        instruction,
        Instruction::DataProcessing {
            cpsr: DataProcessingCpsr::SetFlags,
            opcode: DataProcessingOpcode::Add,
            operand1: 16,
            operand2: Offset::ShiftedRegister { register: 19, .. },
            target: 18
        }
    ));
    let (_, instruction) = Instruction::parse(0xe1d1_00d0, CpuMode::User).unwrap();
    assert!(matches!(
        instruction,
        Instruction::HalfwordDataTransfer {
            mode: HalfwordDataTransferMode::LoadSignedByte,
            ..
        }
    ));
}

#[test]
fn register_lists_are_counted() {
    assert_eq!(RegisterList { bits: 0, bank: CpuMode::User }.len(), 0);
    assert_eq!(RegisterList { bits: 0x8421, bank: CpuMode::Irq }.len(), 4);
    assert_eq!(RegisterList { bits: 0xffff, bank: CpuMode::User }.len(), 16);
}

#[test]
fn steps_that_are_not_possible() {
    let bus = |opcode| TestMemoryBus {
        transactions: RefCell::new(VecDeque::from(vec![Read { address: START, value: opcode }])),
    };
    assert!(cpu(false).can_step(&bus(0xe3a0_0001)));
    assert!(!cpu(false).can_step(&bus(0xee00_0000)));
    let mut wrong_mode = cpu(false);
    wrong_mode.cpsr = 0x14;
    assert!(!wrong_mode.can_step(&bus(0xe3a0_0001)));
    // msr cpsr_c, #0x3f would change the instruction width
    assert!(!cpu(false).can_step(&bus(0xe321_f03f)));
    assert!(cpu(false).can_step(&bus(0xe321_f01f)));
}

#[test]
fn a_program_runs_from_the_cartridge() {
    // mov r0, #0x02000000; mov r1, #5; str r1, [r0], #4; subs r1, r1, #1; bne -8; b .
    let program: [u32; 6] =
        [0xe3a0_0402, 0xe3a0_1005, 0xe480_1004, 0xe251_1001, 0x1aff_fffc, 0xeaff_fffe];
    let rom = program.iter().flat_map(|word| word.to_le_bytes()).collect();
    let mut sys = System::new(vec![0; 0x4000], rom);
    let mut cpu = Cpu::new();
    for _ in 0..40 {
        assert!(cpu.can_step(&sys));
        cpu.step(&mut sys);
    }
    for i in 0..5 {
        assert_eq!(sys.read(0x0200_0000 + 4 * i), 5 - i);
    }
    assert_eq!(cpu.registers[0], 0x0200_0014);
    assert_eq!(cpu.registers[15], 0x0800_0014 + 8);
    // A store to the cartridge is not possible.
    cpu.registers[0] = 0x0800_0000;
    cpu.registers[15] = 0x0800_0010;
    assert!(!cpu.can_step(&sys));
}

#[test]
fn registers_come_back_from_the_stack() {
    let mut sys = System::new(
        vec![0; 0x4000],
        // push {r0-r3, r14}; pop {r4-r8}; str r4, [r13, #-3]; ldr r9, [r13, #-3]
        [0xe92d_400fu32, 0xe8bd_01f0, 0xe50d_4003, 0xe51d_9003]
            .iter()
            .flat_map(|word| word.to_le_bytes())
            .collect(),
    );
    let mut cpu = Cpu::new();
    for i in 0..4 {
        cpu.registers[i] = 0x1111_1111 * (i as u32 + 1);
    }
    cpu.registers[14] = 0x1234_5678;
    let stack = cpu.registers[13];
    for _ in 0..2 {
        assert!(cpu.can_step(&sys));
        cpu.step(&mut sys);
    }
    assert_eq!(cpu.registers[4..8], [0x1111_1111, 0x2222_2222, 0x3333_3333, 0x4444_4444]);
    assert_eq!(cpu.registers[8], 0x1234_5678);
    assert_eq!(cpu.registers[13], stack);
    cpu.registers[4] = 0x1122_3344;
    for _ in 0..2 {
        cpu.step(&mut sys);
    }
    assert_eq!(cpu.registers[9], 0x4411_2233);
    assert_eq!(sys.read(stack - 4), 0x1122_3344);
}

#[test]
fn returning_to_half_word_code() {
    let mut cpu = cpu(true);
    let status = cpu.cpsr;
    run(&mut cpu, 0xdf00, vec![]);
    assert_eq!(cpu.registers[24], START + 2);
    run(&mut cpu, 0xe1b0_f00e, vec![]);
    assert_eq!(cpu.cpsr, status);
    assert_eq!(cpu.registers[15], START + 2 + 4);
}

#[test]
fn rotations_undo_each_other() {
    let mut cpu = cpu(false);
    cpu.registers[0] = 0x1234_5678;
    // mov r1, r0, ror #12; mov r1, r1, ror #20
    run(&mut cpu, 0xe1a0_1660, vec![]);
    assert_eq!(cpu.registers[1], 0x6781_2345);
    run(&mut cpu, 0xe1a0_1a61, vec![]);
    assert_eq!(cpu.registers[1], 0x1234_5678);
}

#[test]
fn what_keeps_an_instruction_from_being_executed() {
    let bus = |opcode: u32| System::new(vec![0; 4], opcode.to_le_bytes().to_vec());
    assert_eq!(Cpu::new().obstacle(&bus(0xe3a0_0001)), None);
    assert_eq!(Cpu::new().obstacle(&bus(0xee00_0000)), Some(Obstacle::Instruction));
    // msr cpsr_c, #0x3f
    assert_eq!(Cpu::new().obstacle(&bus(0xe321_f03f)), Some(Obstacle::Width));
    // str r0, [r15]; ldr r0, [r1]
    assert_eq!(Cpu::new().obstacle(&bus(0xe58f_0000)), Some(Obstacle::Access));
    let mut short = Cpu::new();
    short.registers[1] = 4;
    assert_eq!(short.obstacle(&bus(0xe591_0000)), Some(Obstacle::Access));
    short.registers[15] = 12;
    assert_eq!(short.obstacle(&bus(0)), Some(Obstacle::Fetch));
    let mut thumb = Cpu::new();
    thumb.cpsr |= 1 << flags::THUMB;
    thumb.registers[15] = 0x0800_0004;
    thumb.registers[14] = 0xffff_ffff;
    assert_eq!(thumb.obstacle(&bus(0xf801)), Some(Obstacle::Branch));
    let mut wrong_mode = Cpu::new();
    wrong_mode.cpsr = 0x14;
    assert_eq!(wrong_mode.obstacle(&bus(0xe3a0_0001)), Some(Obstacle::Mode));
}

#[test]
fn operands_leave_the_rest_alone() {
    let mut cpu = cpu(false);
    cpu.cpsr |= 0xd000_0000;
    cpu.spsr = [1, 2, 3, 4, 5];
    let before = cpu.registers;
    // ldr r0, [r1, r2, lsl #1] keeps the carry that its shift would give.
    cpu.registers[2] = 0x8000_0000;
    run(&mut cpu, 0xe791_0082, vec![Read { address: 0, value: 9 }]);
    assert_eq!(cpu.cpsr, 0xd000_001f);
    assert_eq!(cpu.spsr, [1, 2, 3, 4, 5]);
    assert_eq!(cpu.registers[0], 9);
    assert_eq!(cpu.registers[3..15], before[3..15]);
    assert_eq!(cpu.cycle, 2);
}

#[test]
fn the_condition_is_apart_from_the_instruction() {
    for opcode in [0x03a0_0001u32, 0x0591_0004, 0x0a00_0002, 0x08bd_8006] {
        let (_, expected) = Instruction::parse(opcode, CpuMode::Irq).unwrap();
        for cond in 0..16u32 {
            let (given, instruction) = Instruction::parse(opcode | cond << 28, CpuMode::Irq).unwrap();
            assert_eq!(u32::from(given), cond);
            assert_eq!(format!("{instruction:?}"), format!("{expected:?}"));
        }
    }
}

#[test]
fn the_program_counter_stays_aligned() {
    let mut cpu = cpu(false);
    // mov r15, r0 with the lowest bits set
    cpu.registers[0] = START + 0x103;
    run(&mut cpu, 0xe1a0_f000, vec![]);
    assert_eq!(cpu.registers[15], START + 0x100 + 8);
    // bx r0, then mov r15, r0
    run(&mut cpu, 0xe12f_ff10, vec![]);
    assert_eq!(cpu.registers[15], START + 0x102 + 4);
    run(&mut cpu, 0x4687, vec![]);
    assert_eq!(cpu.registers[15], START + 0x102 + 4);
}
