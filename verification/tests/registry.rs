use bitspattern::bitspattern::BitsPattern;
use bitspattern::isa::ISA;
use bitspattern::isa::la32r::LAS32R;

const TABLE: [(&str, &str); 11] = [
    ("ADDW", "00000000000100000???????????????"),
    ("SUBW", "00000000000100010???????????????"),
    ("SLT", "00000000000100100???????????????"),
    ("SLTU", "00000000000100101???????????????"),
    ("NOR", "00000000000101000???????????????"),
    ("AND", "00000000000101001???????????????"),
    ("OR", "00000000000101010???????????????"),
    ("XOR", "00000000000101011???????????????"),
    ("SLLW", "00000000000101110???????????????"),
    ("SRLW", "00000000000101111???????????????"),
    ("SRAW", "00000000000110000???????????????"),
];

#[test]
fn supports_the_table_mnemonics() {
    let isa = LAS32R::new();
    let instrs = isa.support_instrs();
    assert_eq!(instrs.len(), 11);
    for (i, (name, _)) in TABLE.iter().enumerate() {
        assert_eq!(instrs[i], *name);
    }
}

#[test]
fn generated_instruction_fits_its_pattern() {
    let isa = LAS32R::new();
    for (name, template) in TABLE.iter() {
        let p = BitsPattern::new(template).unwrap();
        for _ in 0..50 {
            let v = isa.generate_instr(name).unwrap();
            assert!(p.fit(v as u64, 32));
        }
    }
}

#[test]
fn addw_opcode_field_is_fixed() {
    let isa = LAS32R::new();
    for _ in 0..50 {
        let v = isa.generate_instr("ADDW").unwrap();
        assert_eq!(v >> 15, 0b00000000000100000);
    }
}

#[test]
fn unknown_mnemonic_yields_none() {
    let isa = LAS32R::new();
    assert!(isa.generate_instr("MULW").is_none());
    assert!(isa.generate_instr("").is_none());
    assert!(isa.generate_instr("addw").is_none());
}
