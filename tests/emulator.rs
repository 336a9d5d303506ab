use acca::alu::{add, rot, shl, shr, sub};
use acca::assembler::{
    assemble, evaluate_immediate, parse_condition, parse_integer, parse_size, Argument, resolve_labels, AsmError, BinaryOp, Expr, Item, Mnemonic, Operand,
    ParsedInstruction, Register,
};
use acca::bits::truncate_immediate;
use acca::machine::{CPUFlags, Condition, MachineRegisterID, PrivilegeLevel, Size, VMAddress, LR, SP};
use acca::schema::{decode, encode, Opcode};
use acca::vm::{Exception, ExceptionConfigurationEntry, VM};

fn reg(id: u8) -> Operand {
    Operand::Register(Register { id, size: None })
}

fn imm(v: u64) -> Operand {
    Operand::Immediate(Expr::Literal(v))
}

fn instr(mnemonic: Mnemonic, size: Option<Size>, operands: Vec<Operand>) -> Item {
    Item::Instruction(ParsedInstruction { mnemonic, condition: None, size, operands })
}

fn machine_with(code: &[u32]) -> VM {
    let mut vm = VM::new(0x10000).unwrap();
    let mut bytes = Vec::new();
    for w in code {
        bytes.extend_from_slice(&w.to_le_bytes());
    }
    vm.load_file(&bytes, VMAddress::new(0x400)).unwrap();
    vm
}

fn machine_from_source(items: Vec<Item>) -> VM {
    let mut all = vec![Item::Addr(Expr::Literal(0x400))];
    all.extend(items);
    let image = assemble(&all, 0).unwrap();
    let mut vm = VM::new(0x10000).unwrap();
    vm.load_file(&image, VMAddress::new(0)).unwrap();
    vm
}

#[test]
fn immediate_load_then_add_immediate() {
    let mut vm = machine_from_source(vec![
        instr(Mnemonic::Ldi, None, vec![reg(0), imm(5)]),
        instr(Mnemonic::Add, None, vec![reg(1), reg(0), imm(7)]),
        instr(Mnemonic::Udf, None, vec![]),
    ]);
    vm.execute_one();
    vm.execute_one();
    assert_eq!(vm.register_file.0[0], 5);
    assert_eq!(vm.register_file.0[1], 12);
    assert!(!vm.flags.carry());
    assert_eq!(vm.instruction_pointer, 0x408);
    vm.execute_one();
    assert_eq!(vm.einfo, 1);
    assert_eq!(vm.elr, 0x408);
}

#[test]
fn stack_round_trip() {
    let mut vm = machine_from_source(vec![
        instr(Mnemonic::Pushs, Some(Size::Word), vec![reg(0)]),
        instr(Mnemonic::Pops, Some(Size::Word), vec![reg(1)]),
    ]);
    vm.register_file.0[SP as usize] = 0x1000;
    vm.register_file.0[0] = 0xDEAD_BEEF;
    vm.execute_one();
    assert_eq!(vm.register_file.0[SP as usize], 0xFF8);
    assert_eq!(&vm.memory[0xFF8..0x1000], &[0xEF, 0xBE, 0xAD, 0xDE, 0, 0, 0, 0]);
    vm.execute_one();
    assert_eq!(vm.register_file.0[1], 0xDEAD_BEEF);
    assert_eq!(vm.register_file.0[SP as usize], 0x1000);
}

#[test]
fn relative_jump() {
    let w = encode(Opcode::JmprRel, &vec![15, 0x100]);
    let mut vm = machine_with(&[w]);
    vm.execute_one();
    assert_eq!(vm.instruction_pointer, 0x0404 + 0x100 * 4);
    assert_eq!(vm.instruction_pointer, 0x0804);
}

#[test]
fn signed_division_flags() {
    let w = encode(Opcode::Div, &vec![0, 0, 1, 2, 3, 1, 1]);
    let mut vm = machine_with(&[w]);
    vm.register_file.0[2] = 0xFE;
    vm.register_file.0[3] = 0x02;
    vm.execute_one();
    assert_eq!(vm.register_file.0[0], 0xFF);
    assert_eq!(vm.register_file.0[1], 0);
    assert!(!vm.flags.zero());
    assert!(vm.flags.sign());
}

#[test]
fn exception_vectoring() {
    let mut vm = machine_with(&[0]);
    vm.evtable_addr = 0x2000;
    let entry = ExceptionConfigurationEntry { flags: 1, stack_pointer: 0x3000, stack_size: 0x100 };
    vm.ectable[1] = entry;
    vm.ectable[8 + 1] = entry;
    vm.flags.set_privilege_level(PrivilegeLevel::PL1);
    vm.execute_one();
    assert_eq!(vm.elr, 0x400);
    assert_eq!(vm.eflags.privilege_level(), PrivilegeLevel::PL1);
    assert_eq!(vm.einfo, 1);
    assert_eq!(vm.register_file.0[SP as usize], 0x3100);
    assert_eq!(vm.instruction_pointer, 0x2120);
    assert_eq!(vm.flags.privilege_level(), PrivilegeLevel::PL0);
    assert!(!vm.flags.exceptions_enabled());
}

#[test]
fn label_arithmetic() {
    let items = vec![
        Item::Addr(Expr::Literal(0x100)),
        Item::Label(0),
        instr(Mnemonic::Nop, None, vec![]),
        instr(Mnemonic::Nop, None, vec![]),
        Item::Label(1),
    ];
    let labels = resolve_labels(&items, 2).unwrap();
    assert_eq!(labels[0], Some(0x100));
    assert_eq!(labels[1], Some(0x108));
    let e = Expr::Binary(BinaryOp::Sub, Box::new(Expr::Label(1)), Box::new(Expr::Label(0)));
    assert_eq!(evaluate_immediate(&e, &labels, 0), Ok(8));
}

#[test]
fn instruction_pointer_stays_aligned() {
    let items = vec![
        instr(Mnemonic::Ldi, None, vec![reg(LR as u8), imm(0x402)]),
        instr(Mnemonic::Ret, None, vec![]),
    ];
    let mut vm = machine_from_source(items);
    vm.execute_one();
    assert_eq!(vm.instruction_pointer % 4, 0);
    vm.execute_one();
    assert_eq!(vm.einfo, 4);
    assert_eq!(vm.elr, 0x404);
    assert_eq!(vm.instruction_pointer % 4, 0);
    let out = vm.run(50);
    assert!(out.is_empty());
    assert_eq!(vm.instruction_pointer % 4, 0);
}

#[test]
fn add_sub_flags_at_each_width() {
    let o = add(Size::Byte, 0x7F, 0x01, false);
    assert_eq!(o.value & 0xFF, 0x80);
    assert_eq!(o.flags.overflow, Some(true));
    assert_eq!(o.flags.sign, Some(true));
    assert_eq!(o.flags.carry, Some(false));
    let o = add(Size::Byte, 0xFFFF_FFFF_FFFF_FFFF, 0x01, false);
    assert_eq!(o.flags.carry, Some(true));
    assert_eq!(o.flags.zero, Some(true));
    assert_eq!(o.flags.overflow, Some(false));
    let o = sub(Size::DoubleByte, 0, 1, false);
    assert_eq!(o.flags.carry, Some(true));
    assert_eq!(o.flags.sign, Some(true));
    assert_eq!(o.value & 0xFFFF, 0xFFFF);
    let o = sub(Size::QuadByte, 0xFFFF_FFFF_8000_0000, 1, false);
    assert_eq!(o.flags.overflow, Some(true));
    let o = add(Size::Word, u64::MAX, 1, true);
    assert_eq!(o.value, 1);
    assert_eq!(o.flags.carry, Some(true));
}

#[test]
fn encode_then_decode_gives_operands_back() {
    let ops = vec![2, 7, 3, 0x5A5, 4, 1, 0, 1];
    let w = encode(Opcode::AddImm, &ops);
    let d = decode(w).unwrap();
    assert_eq!(d.op, Opcode::AddImm);
    assert_eq!(d.operands, ops);
    let wide = vec![0, 0x3F_FFFF + 1 + 5];
    let w = encode(Opcode::JmprRel, &wide);
    let d = decode(w).unwrap();
    assert_eq!(d.operands, vec![0, 5]);
    assert!(decode(0xFFFF_FFFF).is_none());
}

#[test]
fn assembling_twice_gives_the_same_image() {
    let build = || {
        vec![
            Item::Addr(Expr::Literal(0x400)),
            Item::Label(0),
            instr(Mnemonic::Ldi, None, vec![reg(3), imm(0x1234)]),
            instr(Mnemonic::Add, Some(Size::QuadByte), vec![reg(4), reg(3), reg(3)]),
            Item::Instruction(ParsedInstruction {
                mnemonic: Mnemonic::Jmpr,
                condition: Some(Condition::NZ),
                size: None,
                operands: vec![Operand::Immediate(Expr::Label(0))],
            }),
            Item::Write(Size::DoubleByte, vec![Expr::Literal(0xBEEF), Expr::Current]),
        ]
    };
    let a = assemble(&build(), 1).unwrap();
    let b = assemble(&build(), 1).unwrap();
    assert_eq!(a, b);
    assert_eq!(a.len(), 0x410);
    assert_eq!(&a[0x40C..0x410], &[0xEF, 0xBE, 0x0C, 0x04]);
}

#[test]
fn shift_by_zero_keeps_value_and_carry() {
    let o = shl(Size::Byte, 0x81, 0);
    assert_eq!(o.value, 0x81);
    assert_eq!(o.flags.carry, None);
    let o = shr(Size::Byte, 0x81, 0, true);
    assert_eq!(o.value & 0xFF, 0x81);
    assert_eq!(o.flags.carry, None);
    let w = encode(Opcode::ShlImm, &vec![0, 1, 1, 0, 1]);
    let mut vm = machine_with(&[w]);
    vm.register_file.0[1] = 0x1234_5681;
    vm.flags.set_carry(true);
    vm.execute_one();
    assert_eq!(vm.register_file.0[1], 0x1234_5681);
    assert!(vm.flags.carry());
}

#[test]
fn rotation_by_the_width_is_a_no_op() {
    assert_eq!(rot(Size::Byte, 0x81, 8).value, 0x81);
    assert_eq!(rot(Size::Byte, 0x81, 1).value, 0xC0);
    assert_eq!(rot(Size::DoubleByte, 0x1234, 32).value, 0x1234);
    assert_eq!(rot(Size::Word, 0x1, 1).value, 0x8000_0000_0000_0000);
}

#[test]
fn shifts_past_the_width() {
    assert_eq!(shl(Size::Byte, 0xFF, 9).value, 0);
    assert_eq!(shr(Size::Byte, 0x80, 8, true).value, u64::MAX);
    assert_eq!(shr(Size::Byte, 0x80, 8, false).value, 0);
    assert_eq!(shr(Size::Byte, 0x80, 1, true).value & 0xFF, 0xC0);
    assert_eq!(shl(Size::Byte, 0x81, 1).flags.carry, Some(true));
}

#[test]
fn assembler_errors() {
    let unknown = vec![Item::Addr(Expr::Label(0))];
    assert_eq!(assemble(&unknown, 1), Err(AsmError::UnknownLabel));
    let div = vec![Item::Addr(Expr::Binary(BinaryOp::Div, Box::new(Expr::Literal(1)), Box::new(Expr::Literal(0))))];
    assert_eq!(assemble(&div, 0), Err(AsmError::DivisionByZero));
    let dup = vec![Item::Label(0), Item::Label(0)];
    assert_eq!(assemble(&dup, 1), Err(AsmError::DuplicateLabel));
    let misaligned = vec![instr(Mnemonic::Jmpr, None, vec![imm(0x402)])];
    assert_eq!(assemble(&misaligned, 0), Err(AsmError::MisalignedRelative));
    let sizes = vec![instr(
        Mnemonic::Add,
        None,
        vec![
            Operand::Register(Register { id: 1, size: Some(Size::Byte) }),
            Operand::Register(Register { id: 2, size: Some(Size::Word) }),
            reg(3),
        ],
    )];
    assert_eq!(assemble(&sizes, 0), Err(AsmError::IncompatibleRegisterSizes));
    let unknown_form = vec![instr(Mnemonic::Lds, None, vec![imm(1), reg(2)])];
    assert_eq!(assemble(&unknown_form, 0), Err(AsmError::UnknownInstruction));
    let far = vec![Item::Addr(Expr::Literal(0xFFFF_FFFF_0000)), instr(Mnemonic::Nop, None, vec![])];
    assert_eq!(assemble(&far, 0), Err(AsmError::ImageTooLarge));
}

#[test]
fn relative_operands_resolve_to_their_targets() {
    let items = vec![
        Item::Addr(Expr::Literal(0x400)),
        instr(Mnemonic::Jmpr, None, vec![Operand::Immediate(Expr::Label(0))]),
        instr(Mnemonic::Nop, None, vec![]),
        Item::Label(0),
        instr(Mnemonic::Ldr, None, vec![reg(2), Operand::Immediate(Expr::Label(0))]),
    ];
    let image = assemble(&items, 1).unwrap();
    let mut vm = VM::new(0x10000).unwrap();
    vm.load_file(&image, VMAddress::new(0)).unwrap();
    vm.execute_one();
    assert_eq!(vm.instruction_pointer, 0x408);
    vm.execute_one();
    assert_eq!(vm.register_file.0[2], 0x408);
}

#[test]
fn machine_registers_and_console() {
    let items = vec![
        instr(Mnemonic::Ldi, None, vec![reg(1), imm(0x41)]),
        instr(Mnemonic::Stm, None, vec![imm(0xDEAD1), reg(1)]),
        instr(Mnemonic::Ldi, None, vec![reg(2), imm(0x2000)]),
        instr(Mnemonic::Stm, None, vec![imm(6), reg(2)]),
        instr(Mnemonic::Ldm, None, vec![reg(3), imm(6)]),
        instr(Mnemonic::Ldi, None, vec![reg(4), imm(0x40)]),
        instr(Mnemonic::Stm, None, vec![imm(0), reg(4)]),
    ];
    let mut vm = machine_from_source(items);
    let out = vm.run(5);
    assert_eq!(out, vec![0x41]);
    assert_eq!(vm.evtable_addr, 0x2000);
    assert_eq!(vm.register_file.0[3], 0x2000);
    vm.execute_one();
    vm.execute_one();
    assert_eq!(vm.einfo, 4);
    assert_eq!(MachineRegisterID::from_id(0xDEAD1), Some(MachineRegisterID::vm_console));
    assert!(!MachineRegisterID::einfo.check_access(PrivilegeLevel::PL0, true));
    assert!(MachineRegisterID::flags.check_access(PrivilegeLevel::PL1, false));
}

#[test]
fn data_load_error_reports_address_and_size() {
    let w = encode(Opcode::Lds, &vec![3, 0, 1]);
    let mut vm = machine_with(&[w]);
    vm.register_file.0[1] = 0xFFFF_FFF0;
    vm.execute_one();
    assert_eq!(vm.einfo, 6 | (8 << 4));
    assert_eq!(vm.eaddr, 0xFFFF_FFF0);
    assert_eq!(vm.instruction_pointer, 6 * 32);
    let e = Exception::DataLoadError { address: 1, write: true, byte_size: 2 };
    assert_eq!(e.info(), 6 | 8 | (2 << 4));
    assert_eq!(Exception::User(5).info(), 3 | (5 << 3));
    assert_eq!(Exception::Interrupt(2).id(), 7);
}

#[test]
fn division_by_zero_is_an_invalid_operation() {
    let w = encode(Opcode::Div, &vec![3, 0, 1, 2, 3, 0, 0]);
    let mut vm = machine_with(&[w]);
    vm.register_file.0[2] = 10;
    vm.execute_one();
    assert_eq!(vm.einfo, 4);
    assert_eq!(vm.register_file.0[0], 0);
}

#[test]
fn exc_returns_past_itself() {
    let w = encode(Opcode::Exc, &vec![0x1234]);
    let mut vm = machine_with(&[w]);
    vm.execute_one();
    assert_eq!(vm.elr, 0x404);
    assert_eq!(vm.einfo, 3 | (0x1234 << 3));
    assert_eq!(vm.instruction_pointer, 3 * 32);
}

#[test]
fn instruction_fetch_outside_memory() {
    let mut vm = VM::new(0x100).unwrap();
    vm.execute_one();
    assert_eq!(vm.einfo, 5);
    assert_eq!(vm.instruction_pointer, 5 * 32);
}

#[test]
fn small_helpers() {
    assert_eq!(truncate_immediate(0x1FF, 8, false), 0xFF);
    assert_eq!(truncate_immediate(0x80, 8, true), 0xFFFF_FFFF_FFFF_FF80);
    assert_eq!(truncate_immediate(u64::MAX, 64, false), u64::MAX);
    assert_eq!(acca::assembler::parse_machine_register("ectable"), Some(7));
    assert_eq!(acca::assembler::parse_machine_register("flags"), Some(0));
    assert_eq!(acca::assembler::parse_machine_register("pc"), None);
    assert_eq!(CPUFlags::from_bits(0x40), None);
    assert_eq!(CPUFlags::from_bits(0x3F).map(|f| f.bits()), Some(0x3F));
    assert_eq!(Size::Word.byte_size(), 8);
    assert_eq!(Size::DoubleByte.mask(), 0xFFFF);
    assert_eq!(Size::QuadByte.msb_mask(), 0x8000_0000);
    assert!(Condition::L.test(false, false, true, false));
    assert!(!VMAddress::new(6).is_valid_instruction_pointer());
    let mut buf = [0u8; 4];
    Size::QuadByte.write(0x1122_3344, &mut buf);
    assert_eq!(buf, [0x44, 0x33, 0x22, 0x11]);
    assert_eq!(Size::DoubleByte.read(&buf, true), 0x3344);
    assert_eq!(Size::Byte.read(&[0x80], true), 0xFFFF_FFFF_FFFF_FF80);
}

#[test]
fn no_word_matches_two_entries() {
    assert!(acca::schema::check_table_unambiguous());
}

#[test]
fn argument_maps() {
    let a = Argument::Immediate(3).map_immediate(|v| v + 1);
    assert_eq!(a, Argument::Immediate(4));
    let r = Argument::Register(Register { id: 2, size: None });
    assert_eq!(r.map_immediate(|v| v + 1), r);
    let m = r.map_register(|x| Register { id: x.id + 1, size: Some(Size::Byte) });
    assert_eq!(m, Argument::Register(Register { id: 3, size: Some(Size::Byte) }));
    assert_eq!(Argument::Immediate(9).map(|x| x, |v| v * 2), Argument::Immediate(18));
}

#[test]
fn integer_literals() {
    assert_eq!(parse_integer("123"), Some(123));
    assert_eq!(parse_integer("0x1F"), Some(31));
    assert_eq!(parse_integer("0XfF"), Some(255));
    assert_eq!(parse_integer("0b1010_1010"), Some(0xAA));
    assert_eq!(parse_integer("0o17"), Some(15));
    assert_eq!(parse_integer("0d99"), Some(99));
    assert_eq!(parse_integer("1_000"), Some(1000));
    assert_eq!(parse_integer("18446744073709551615"), Some(u64::MAX));
    assert_eq!(parse_integer("18446744073709551616"), None);
    assert_eq!(parse_integer("0x"), None);
    assert_eq!(parse_integer("0b102"), None);
    assert_eq!(parse_integer("12a"), None);
    assert_eq!(parse_integer(""), None);
}

#[test]
fn suffix_names() {
    assert_eq!(parse_size("q"), Some(Size::QuadByte));
    assert_eq!(parse_size("x"), None);
    assert_eq!(parse_size("bb"), None);
    assert_eq!(parse_condition("nz"), Some(Condition::NZ));
    assert_eq!(parse_condition("c"), Some(Condition::C));
    assert_eq!(parse_condition("l"), None);
    assert_eq!(parse_condition("zz"), None);
}

#[test]
fn call_writes_the_link_register() {
    let w = encode(Opcode::CallrRel, &vec![15, 2]);
    let mut vm = machine_with(&[w]);
    vm.execute_one();
    assert_eq!(vm.register_file.0[LR as usize], 0x404);
    assert_eq!(vm.instruction_pointer, 0x40C);
}

#[test]
fn compare_and_jump_uses_transient_flags() {
    let taken = encode(Opcode::CjmprRel, &vec![2, 3, 4, 1, 2]);
    let mut vm = machine_with(&[taken]);
    vm.register_file.0[1] = 7;
    vm.register_file.0[2] = 7;
    vm.execute_one();
    assert_eq!(vm.instruction_pointer, 0x404 + 16);
    assert!(!vm.flags.zero());
    let not_taken = encode(Opcode::CjmprRel, &vec![2, 3, 4, 1, 2]);
    let mut vm = machine_with(&[not_taken]);
    vm.register_file.0[1] = 7;
    vm.register_file.0[2] = 8;
    vm.execute_one();
    assert_eq!(vm.instruction_pointer, 0x404);
}

#[test]
fn eret_restores_the_saved_state() {
    let w = encode(Opcode::Eret, &vec![]);
    let mut vm = machine_with(&[w]);
    vm.elr = 0x800;
    vm.eflags = CPUFlags::from_bits(0x21).unwrap();
    vm.esp = 0x5000;
    vm.execute_one();
    assert_eq!(vm.instruction_pointer, 0x800);
    assert_eq!(vm.flags.bits(), 0x21);
    assert_eq!(vm.register_file.0[SP as usize], 0x5000);
    let mut vm = machine_with(&[w]);
    vm.flags.set_privilege_level(PrivilegeLevel::PL1);
    vm.execute_one();
    assert_eq!(vm.einfo, 4);
}
