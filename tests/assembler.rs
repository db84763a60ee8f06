use sic_assembler::assembler::{find_object_code, get_address_increment};
use sic_assembler::config::Config;
use sic_assembler::data_records::ObjectData;
use sic_assembler::directives::is_directive;
use sic_assembler::errors::AsmError;
use sic_assembler::hex::{hex_field, hex_text};
use sic_assembler::instructions::{find_instruction, initalize_opcodes, Instruction};
use sic_assembler::line::{classify_line, parse_line, LineKind};
use sic_assembler::number::parse_int;
use sic_assembler::passes::{assemble, pass_one, pass_two};
use sic_assembler::symbols::{find_symbol, Symbol};
use sic_assembler::text::split_words;

fn source(lines: &[&str]) -> Vec<String> {
    lines.iter().map(|l| l.to_string()).collect()
}

fn assembled(lines: &[&str]) -> ObjectData {
    match assemble(&source(lines)) {
        Ok(o) => o,
        Err(e) => panic!("assembly failed: {:?}", e),
    }
}

fn failure(lines: &[&str]) -> AsmError {
    match assemble(&source(lines)) {
        Ok(_) => panic!("assembly succeeded"),
        Err(e) => e,
    }
}

#[test]
fn rsub_program_records() {
    let o = assembled(&["PROG START 1000", "\tRSUB", "END"]);
    assert_eq!(o.head_record(), "HPROG001000000003\n");
    assert_eq!(o.text_records(), &vec!["T4C0000\n".to_string()]);
    assert!(o.mod_records().is_empty());
    assert_eq!(o.end_record(), "E001000\n");
    assert_eq!(o.object_file(), "HPROG001000000003\nT4C0000\nE001000\n");
}

#[test]
fn resw_label_defines_symbol_and_advances() {
    let p = match pass_one(&source(&["PROG START 1000", "ALPHA RESW 2"])) {
        Ok(p) => p,
        Err(e) => panic!("pass 1 failed: {:?}", e),
    };
    assert_eq!(p.symbols().len(), 1);
    assert_eq!(p.symbols()[0].name(), "ALPHA");
    assert_eq!(*p.symbols()[0].address(), 0x1000);
    assert_eq!(p.counter(), 0x1006);
}

#[test]
fn byte_literals_encode() {
    let o = assembled(&["PROG START 1000", "\tBYTE X'1F'", "\tBYTE C'AB'", "\tEND"]);
    assert_eq!(
        o.text_records(),
        &vec!["T1F\n".to_string(), "T4142\n".to_string()]
    );
}

#[test]
fn second_start_is_fatal() {
    assert_eq!(
        failure(&["PROG START 1000", "\tRSUB", "AGAIN START 2000", "END"]),
        AsmError::DuplicateStart
    );
}

#[test]
fn memory_bound_aborts() {
    assert_eq!(
        failure(&["PROG START 7FFC", "\tLDA X", "\tLDA X", "END"]),
        AsmError::MemoryOutOfBounds
    );
    // Right below the bound the line is still read.
    let o = assembled(&["PROG START 7FFB", "\tLDA X", "END"]);
    assert_eq!(o.head_record(), "HPROG007FFB000003\n");
}

#[test]
fn resw_reserves_three_times_resb() {
    for n in ["0", "1", "7", "-4", "1000"] {
        let b = get_address_increment("RESB", Some(n)).unwrap();
        let w = get_address_increment("RESW", Some(n)).unwrap();
        assert_eq!(w, 3 * b);
    }
    assert_eq!(get_address_increment("RESB", Some("7")), Ok(7));
    assert_eq!(get_address_increment("RESW", Some("7")), Ok(21));
    assert_eq!(get_address_increment("RESW", Some("x")), Err(AsmError::BadNumber));
    assert_eq!(get_address_increment("RESB", Some("x")), Err(AsmError::BadNumber));
}

#[test]
fn address_increment_table() {
    assert_eq!(get_address_increment("BYTE", Some("C'EOF'")), Ok(2));
    assert_eq!(get_address_increment("BYTE", Some("X'F1F2'")), Ok(1));
    assert_eq!(get_address_increment("BYTE", Some("7")), Ok(3));
    assert_eq!(get_address_increment("END", Some("FIRST")), Ok(0));
    assert_eq!(get_address_increment("END", None), Ok(0));
    assert_eq!(get_address_increment("LDA", Some("ALPHA")), Ok(3));
    assert_eq!(get_address_increment("RSUB", None), Ok(3));
    assert_eq!(get_address_increment("RESB", None), Err(AsmError::MissingOperand));
    assert_eq!(get_address_increment("BYTE", Some("C'")), Err(AsmError::MalformedLiteral));
}

#[test]
fn word_round_trip() {
    let o = assembled(&["PROG START 0", "FIVE WORD 5", "END"]);
    assert_eq!(o.text_records(), &vec!["T000005\n".to_string()]);
    let digits = &o.text_records()[0][1..7];
    assert_eq!(i64::from_str_radix(digits, 16).unwrap(), 5);
}

#[test]
fn assembling_twice_gives_identical_output() {
    let lines = [
        "COPY START 1000",
        "FIRST LDA ALPHA",
        "\tSTA BETA",
        "ALPHA WORD 20",
        "BETA RESW 1",
        "\tRSUB",
        "END FIRST",
    ];
    let a = assembled(&lines).object_file();
    let b = assembled(&lines).object_file();
    assert_eq!(a, b);
}

#[test]
fn passes_agree_on_addresses() {
    let lines = source(&[
        "COPY START 1000",
        "FIRST LDA ALPHA",
        "# a comment",
        "\tSTA BETA",
        "ALPHA WORD 20",
        "BETA RESW 1",
        "GAMMA BYTE C'EOF'",
        "\tRSUB",
        "END FIRST",
    ]);
    let p = pass_one(&lines).unwrap();
    let table: Vec<(String, i32)> = p
        .symbols()
        .iter()
        .map(|s| (s.name().to_string(), *s.address()))
        .collect();
    assert_eq!(
        table,
        vec![
            ("FIRST".to_string(), 0x1000),
            ("ALPHA".to_string(), 0x1006),
            ("BETA".to_string(), 0x1009),
            ("GAMMA".to_string(), 0x100C),
        ]
    );
    assert_eq!(p.counter(), 0x1011);
    let o = pass_two(&lines, p.symbols(), p.counter()).unwrap();
    assert_eq!(o.head_record(), "HCOPY001000000011\n");
    assert_eq!(
        o.text_records(),
        &vec![
            "T001006\n".to_string(),
            "T0C1009\n".to_string(),
            "T000014\n".to_string(),
            "T\n".to_string(),
            "T454F46\n".to_string(),
            "T4C0000\n".to_string(),
        ]
    );
    assert_eq!(
        o.mod_records(),
        &vec!["M00100004+ALPHA\n".to_string(), "M00100004+BETA\n".to_string()]
    );
    assert_eq!(o.end_record(), "E001000\n");
}

#[test]
fn object_file_order() {
    let o = assembled(&["P START 20", "\tLDA X", "X WORD 1", "END"]);
    assert_eq!(
        o.object_file(),
        "HP000020000006\nT000023\nT000001\nM00002004+X\nE000020\n"
    );
}

#[test]
fn undefined_symbol_resolves_to_zero() {
    let o = assembled(&["P START 100", "\tJ NOWHERE", "END"]);
    assert_eq!(o.text_records(), &vec!["T3C0000\n".to_string()]);
    assert_eq!(o.mod_records(), &vec!["M00010004+NOWHERE\n".to_string()]);
}

#[test]
fn first_definition_wins() {
    let o = assembled(&["P START 0", "A RESB 3", "A RESB 3", "\tLDA A", "END"]);
    assert_eq!(o.text_records()[2], "T000000\n");
}

#[test]
fn each_error_kind() {
    assert_eq!(failure(&["\tRSUB", "P START 0", "END"]), AsmError::MissingStart);
    assert_eq!(failure(&["END"]), AsmError::MissingStart);
    assert_eq!(failure(&["P START 0", "\tRSUB"]), AsmError::MissingEnd);
    assert_eq!(failure(&[]), AsmError::MissingEnd);
    assert_eq!(failure(&["P START 0", "", "END"]), AsmError::MissingDirective);
    assert_eq!(failure(&["P START", "END"]), AsmError::MissingOperand);
    assert_eq!(failure(&["\tSTART 100", "END"]), AsmError::MissingProgramName);
    assert_eq!(failure(&["P START 10G", "END"]), AsmError::BadNumber);
    assert_eq!(failure(&["P START 0", "A RESB many", "END"]), AsmError::BadNumber);
    assert_eq!(failure(&["P START 0", "A WORD 1.5", "END"]), AsmError::BadNumber);
    assert_eq!(failure(&["P START 0", "A BYTE X'1G'", "END"]), AsmError::BadNumber);
    assert_eq!(failure(&["P START 0", "A BYTE C''", "END"]), AsmError::MalformedLiteral);
    let long = format!("\tBYTE C'{}'", "A".repeat(58));
    assert_eq!(
        failure(&["P START 0", long.as_str(), "END"]),
        AsmError::OperandTooLong
    );
    assert_eq!(
        failure(&["P START 7FFF", "\tRSUB", "END"]),
        AsmError::MemoryOutOfBounds
    );
    assert_eq!(
        failure(&["P START 0", "A RESB 2147483647", "\tRSUB", "END"]),
        AsmError::MemoryOutOfBounds
    );
}

#[test]
fn lines_after_end_are_not_assembled() {
    let o = assembled(&["P START 0", "\tRSUB", "END", "\tLDA X"]);
    assert_eq!(o.text_records().len(), 1);
}

#[test]
fn longest_literal_is_accepted() {
    let body = "B".repeat(56);
    let line = format!("\tBYTE C'{}'", body);
    let o = assembled(&["P START 0", line.as_str(), "END"]);
    assert_eq!(o.text_records()[0], format!("T{}\n", "42".repeat(56)));
}

#[test]
fn hex_fields() {
    assert_eq!(hex_text(0x1F, 4), "001F");
    assert_eq!(hex_text(0, 1), "0");
    assert_eq!(hex_text(0, 0), "");
    assert_eq!(hex_text(0x1234567, 6), "1234567");
    assert_eq!(hex_field(-1, 6), "FFFFFFFF");
    assert_eq!(hex_field(255, 2), "FF");
}

#[test]
fn integer_parsing() {
    assert_eq!(parse_int("42", 10), Some(42));
    assert_eq!(parse_int("+12", 10), Some(12));
    assert_eq!(parse_int("-5", 10), Some(-5));
    assert_eq!(parse_int("2147483647", 10), Some(i32::MAX));
    assert_eq!(parse_int("-2147483648", 10), Some(i32::MIN));
    assert_eq!(parse_int("2147483648", 10), None);
    assert_eq!(parse_int("99999999999999999999", 10), None);
    assert_eq!(parse_int("1f", 16), Some(31));
    assert_eq!(parse_int("1F", 16), Some(31));
    assert_eq!(parse_int("1F", 10), None);
    assert_eq!(parse_int("", 10), None);
    assert_eq!(parse_int("-", 10), None);
    assert_eq!(parse_int(" 1", 10), None);
}

#[test]
fn words_of_a_line() {
    assert_eq!(split_words("  a\tbb  c \n"), vec!["a", "bb", "c"]);
    assert_eq!(split_words(""), Vec::<&str>::new());
    assert_eq!(split_words("\t \r\n"), Vec::<&str>::new());
}

#[test]
fn line_classification() {
    let mut counter = 10;
    assert_eq!(classify_line("\tLDA X", &mut counter), LineKind::Instruction);
    assert_eq!(counter, 13);
    assert_eq!(classify_line("# note", &mut counter), LineKind::Comment);
    assert_eq!(classify_line("A WORD 1", &mut counter), LineKind::Symbol);
    assert_eq!(classify_line("", &mut counter), LineKind::Symbol);
    assert_eq!(counter, 13);
    let l = parse_line("\tLDA X", LineKind::Instruction);
    assert_eq!((l.symbol(), l.directive(), l.operand()), (None, Some("LDA"), Some("X")));
    let l = parse_line("A WORD 1 extra", LineKind::Symbol);
    assert_eq!((l.symbol(), l.directive(), l.operand()), (Some("A"), Some("WORD"), Some("1")));
    let l = parse_line("END FIRST", LineKind::Symbol);
    assert_eq!((l.symbol(), l.directive(), l.operand()), (None, Some("END"), Some("FIRST")));
}

#[test]
fn directive_names() {
    for d in ["START", "END", "RESB", "RESW", "RESR", "BYTE", "WORD", "EXPORTS"] {
        assert!(is_directive(d));
    }
    for d in ["LDA", "RSUB", "start", "", "WORDS"] {
        assert!(!is_directive(d));
    }
}

#[test]
fn opcode_table_lookup() {
    let mut opcodes: Vec<Instruction> = Vec::new();
    initalize_opcodes(&mut opcodes);
    assert_eq!(opcodes.len(), 26);
    assert_eq!(*find_instruction(&opcodes, "WD").unwrap().opcode(), 0xDC);
    assert_eq!(*find_instruction(&opcodes, "LDA").unwrap().opcode(), 0x00);
    assert!(find_instruction(&opcodes, "WORD").is_none());
    let symbols = vec![Symbol::new("ALPHA".to_string(), 0x2A)];
    assert_eq!(
        find_object_code(&opcodes, &symbols, "STA", Some("ALPHA")),
        Ok("0C002A".to_string())
    );
    assert_eq!(
        find_object_code(&opcodes, &symbols, "WORD", Some("-1")),
        Ok("FFFFFFFF".to_string())
    );
    assert_eq!(
        find_object_code(&opcodes, &symbols, "RESW", Some("3")),
        Ok(String::new())
    );
    assert_eq!(find_symbol(&symbols, "ALPHA").unwrap().name(), "ALPHA");
    assert!(find_symbol(&symbols, "BETA").is_none());
}

#[test]
fn config_from_arguments() {
    let c = Config::new(vec!["prog".to_string(), "copy.asm".to_string()]).unwrap();
    assert_eq!(c.filename(), "copy.asm");
    assert!(Config::new(vec!["prog".to_string()]).is_err());
}
