use rusty_vm::assembler::{assemble, assemble_routines, parse};
use rusty_vm::encode::{encode_line, parse_hex_lit_num, parse_operand, parse_regs};
use rusty_vm::image::{base_word_at, blank_image, link, place_routine};
use rusty_vm::program::{return_routine_address, AsmError, AsmErrorKind, LineFault, Routine};
use rusty_vm::text::{split_tokens, Span};

fn chars(text: &str) -> Vec<char> {
    text.chars().collect()
}

fn tokens(src: &Vec<char>) -> Vec<Span> {
    split_tokens(src, Span { start: 0, end: src.len() })
}

/// The words of a routine whose body is the given lines.
fn body(lines: &str) -> Vec<u16> {
    let source = format!("routine: entry\n{lines}\nend\n");
    let routines = assemble_routines(&source).expect("the program assembles");
    assert_eq!(routines.len(), 1);
    assert_eq!(routines[0].length as usize, routines[0].instructions.len());
    routines[0].instructions.clone()
}

/// The fault of a routine whose body is the given lines.
fn fault(lines: &str) -> AsmError {
    let source = format!("routine: entry\n{lines}\nend\n");
    let error = assemble(&source).expect_err("the program is at fault");
    assert_eq!(assemble_routines(&source).err(), Some(error.clone()));
    error
}

fn error(kind: AsmErrorKind, line: usize, column: usize, token: &str) -> AsmError {
    AsmError { kind, line, column, token: token.to_string() }
}

#[test]
fn load_takes_a_register_and_a_value() {
    assert_eq!(body("load A lit 0x0042"), vec![0x00A1, 0x0042]);
    assert_eq!(body("load X num 5"), vec![0x0002, 5]);
    assert_eq!(body("load Y hex *"), vec![0x0003, 0x002A]);
}

#[test]
fn stor_takes_a_register_and_an_address() {
    assert_eq!(body("stor A lit 0x0300"), vec![0x0011, 0x0300]);
    assert_eq!(body("stor X num 768"), vec![0x0012, 768]);
    assert_eq!(body("stor Y lit 0xFFFF"), vec![0x0013, 0xFFFF]);
}

#[test]
fn arithmetic_takes_a_register_and_a_value() {
    assert_eq!(body("radd A num 1"), vec![0x0042, 0x0041, 1]);
    assert_eq!(body("rsub X num 1"), vec![0x0043, 0x0058, 1]);
    assert_eq!(body("rmul Y lit 0x0010"), vec![0x0044, 0x0059, 0x10]);
    assert_eq!(body("rdiv A hex 0"), vec![0x0045, 0x0041, 0x30]);
}

#[test]
fn comp_takes_registers_and_values() {
    assert_eq!(body("comp reg X lit 0x0000"), vec![0x0004, 0x0058, 0]);
    assert_eq!(body("comp reg A reg Y"), vec![0x0004, 0x0041, 0x0059]);
    assert_eq!(body("comp num 7 reg X"), vec![0x0004, 7, 0x0058]);
    assert_eq!(body("comp lit 0x0001 hex A"), vec![0x0004, 1, 0x0041]);
}

#[test]
fn single_word_instructions() {
    assert_eq!(body("rtor"), vec![0x0031]);
    assert_eq!(body("halt"), vec![0x000F]);
    assert_eq!(body("ctrl cpu halt"), vec![0x000F]);
    assert_eq!(body("ctrl cpu reset"), vec![0x0000]);
}

#[test]
fn hex_takes_the_first_character() {
    assert_eq!(body("load A hex AB"), vec![0x00A1, 0x0041]);
    assert_eq!(body("load A hex █"), vec![0x00A1, 0x2588]);
    assert_eq!(body("load A hex #"), vec![0x00A1, 0x0023]);
}

#[test]
fn draw_str_stores_each_character_then_escape_and_update() {
    assert_eq!(
        body("draw str Hi"),
        vec![
            0x00AF, 0xA001, 0x00BF, 0x0300, 0x00AF, 0x0A48, 0x00BF, 0x0301, 0x00AF, 0x0A69,
            0x00BF, 0x0302, 0x00AF, 0x0060, 0x00BF, 0x0303, 0x00AF, 0xA002, 0x00BF, 0x0304,
        ]
    );
}

#[test]
fn draw_str_takes_a_colour() {
    let colours = [
        ("red", 0x0B00u16),
        ("green", 0x0C00),
        ("blue", 0x0D00),
        ("cyan", 0x0E00),
        ("magenta", 0x0F00),
        ("white", 0x0A00),
        ("purple", 0x0A00),
    ];
    for (name, bits) in colours {
        let words = body(&format!("draw str A col {name}"));
        assert_eq!(words.len(), 16);
        assert_eq!(words[5], bits | 0x41, "{name}");
        assert_eq!(words[9], 0x0060);
    }
    assert_eq!(body("draw str A colour red")[5], 0x0A41);
}

#[test]
fn draw_str_turns_carets_into_spaces() {
    let words = body("draw str a^b col blue");
    assert_eq!(words[5], 0x0D61);
    assert_eq!(words[9], 0x0D20);
    assert_eq!(words[13], 0x0D62);
}

#[test]
fn draw_str_keeps_sixteen_bits_of_each_character() {
    let words = body("draw str █");
    assert_eq!(words[5], 0x0A00 | 0x2588);
}

#[test]
fn gpu_commands_thread_the_gpu_pointer() {
    let words = body("ctrl gpu clear\ncmov nl\ndraw str x\nctrl gpu update\nctrl gpu reset");
    let pointers: Vec<u16> = words.chunks(4).map(|group| group[3]).collect();
    let commands: Vec<u16> = words.chunks(4).map(|group| group[1]).collect();
    assert!(words.chunks(4).all(|group| group[0] == 0x00AF && group[2] == 0x00BF));
    assert_eq!(
        commands,
        vec![0xA0A3, 0xA0B4, 0xA002, 0xA001, 0x0A78, 0x0060, 0xA002, 0xA002, 0xA0A2]
    );
    assert_eq!(pointers, (0x0300..0x0309).collect::<Vec<u16>>());
}

#[test]
fn cmov_moves_and_updates() {
    let directions =
        [("up", 0xA0B0u16), ("do", 0xA0B1), ("le", 0xA0B2), ("ri", 0xA0B3), ("nl", 0xA0B4)];
    for (name, code) in directions {
        assert_eq!(
            body(&format!("cmov {name}")),
            vec![0x00AF, code, 0x00BF, 0x0300, 0x00AF, 0xA002, 0x00BF, 0x0301],
            "{name}"
        );
    }
}

#[test]
fn the_gpu_pointer_runs_across_routines() {
    let source = "routine: a\n    ctrl gpu update\nend\nroutine: b\n    ctrl gpu clear\nend\n";
    let routines = assemble_routines(&source).expect("the program assembles");
    assert_eq!(routines[0].instructions, vec![0x00AF, 0xA002, 0x00BF, 0x0300]);
    assert_eq!(routines[1].instructions, vec![0x00AF, 0xA0A3, 0x00BF, 0x0301]);
}

#[test]
fn jumps_take_the_address_of_the_routine() {
    let source = [
        "routine: sub",
        "    rtor",
        "end",
        "routine: entry",
        "    jusr sub",
        "    jump sub",
        "    juie sub",
        "    juin entry",
        "end",
        "",
    ]
    .join("\n");
    let routines = assemble_routines(&source).expect("the program assembles");
    assert_eq!(routines[0].address, 0x1002);
    assert_eq!(routines[1].address, 0x1004);
    assert_eq!(
        routines[1].instructions,
        vec![0x0021, 0x1002, 0x0020, 0x1002, 0x0022, 0x1002, 0x0023, 0x1004]
    );
}

#[test]
fn routines_may_be_named_before_they_are_defined() {
    let source = [
        "routine: first",
        "    jusr second",
        "    jump last",
        "    rtor",
        "end",
        "routine: second",
        "    load A num 1",
        "    jump first",
        "end",
        "routine: last",
        "    jusr first",
        "    halt",
        "end",
        "",
    ]
    .join("\n");
    let routines = assemble_routines(&source).expect("the program assembles");
    let addresses: Vec<u16> = routines.iter().map(|routine| routine.address).collect();
    assert_eq!(addresses, vec![0x1002, 0x1008, 0x100D]);
    assert_eq!(routines[0].instructions, vec![0x0021, 0x1008, 0x0020, 0x100D, 0x0031]);
    assert_eq!(routines[1].instructions, vec![0x00A1, 1, 0x0020, 0x1002]);
    assert_eq!(routines[2].instructions, vec![0x0021, 0x1002, 0x000F]);
    let rom = assemble(&source).expect("the program assembles");
    assert_eq!(rom[0x1001], 0x100D);
    assert_eq!(&rom[0x1002..0x1007], &[0x0021, 0x1008, 0x0020, 0x100D, 0x0031]);
    assert_eq!(rom[0x1007], 0);
    assert_eq!(&rom[0x1008..0x100C], &[0x00A1, 1, 0x0020, 0x1002]);
    assert_eq!(rom[0x100C], 0);
    assert_eq!(&rom[0x100D..0x1011], &[0x0021, 0x1002, 0x000F, 0]);
}

#[test]
fn unknown_routine_names_stand_for_zero() {
    assert_eq!(body("jump nowhere"), vec![0x0020, 0x0000]);
}

#[test]
fn the_last_routine_of_a_name_wins() {
    let source = [
        "routine: twin",
        "    rtor",
        "end",
        "routine: twin",
        "    rtor",
        "end",
        "routine: entry",
        "    jusr twin",
        "end",
        "",
    ]
    .join("\n");
    let routines = assemble_routines(&source).expect("the program assembles");
    assert_eq!(routines[2].instructions, vec![0x0021, 0x1004]);
}

#[test]
fn each_routine_is_followed_by_one_free_word() {
    let source = [
        "routine: a",
        "end",
        "routine: b",
        "    halt",
        "end",
        "routine: c",
        "    load A num 1",
        "    halt",
        "end",
        "routine: d",
        "end",
        "",
    ]
    .join("\n");
    let routines = assemble_routines(&source).expect("the program assembles");
    let layout: Vec<(u16, u16)> =
        routines.iter().map(|routine| (routine.address, routine.length)).collect();
    assert_eq!(layout, vec![(0x1002, 0), (0x1003, 1), (0x1005, 3), (0x1009, 0)]);
    let names: Vec<&str> = routines.iter().map(|routine| routine.name.as_str()).collect();
    assert_eq!(names, vec!["a", "b", "c", "d"]);
}

#[test]
fn comments_and_blank_lines_are_skipped() {
    let source = [
        "# a program",
        "",
        "// with comments",
        "routine: entry",
        "",
        "    # inside too",
        "    // of both kinds",
        "    halt",
        "      ",
        "end",
        "# and behind",
        "",
    ]
    .join("\n");
    let routines = assemble_routines(&source).expect("the program assembles");
    assert_eq!(routines.len(), 1);
    assert_eq!(routines[0].instructions, vec![0x000F]);
}

#[test]
fn indentation_and_line_endings_do_not_matter() {
    let plain = assemble("routine: entry\nload A num 1\nhalt\nend\n").expect("assembles");
    let indented = assemble("  routine:   entry\r\n        load  A   num 1\r\n  halt  \r\n end")
        .expect("assembles");
    assert_eq!(plain, indented);
}

#[test]
fn words_behind_a_complete_instruction_are_ignored() {
    assert_eq!(body("halt now"), vec![0x000F]);
    assert_eq!(body("load A num 1 please"), vec![0x00A1, 1]);
}

#[test]
fn image_holds_the_character_table() {
    let rom = assemble("routine: entry\n    halt\nend\n").expect("the program assembles");
    assert_eq!(rom.len(), 0x1_0000);
    for i in 0..26 {
        assert_eq!(rom[0x0200 + i], 0x41 + i as u16);
        assert_eq!(rom[0x0220 + i], 0x61 + i as u16);
    }
    for i in 0..10 {
        assert_eq!(rom[0x0240 + i], 0x30 + i as u16);
    }
    let text = |range: std::ops::Range<usize>| -> String {
        rom[range].iter().map(|word| char::from(*word as u8)).collect()
    };
    assert_eq!(text(0x021A..0x0220), "!\"#$[]");
    assert_eq!(text(0x023A..0x0240), "/<>=-~");
    assert_eq!(text(0x024A..0x0250), ":_|&?@");
    assert_eq!(rom[0x0250], 0x0020);
    assert_eq!(rom[0x0251], 0x002E);
    assert!(rom[0x0252..0x0300].iter().all(|word| *word == 0));
    assert!(rom[0..0x0200].iter().all(|word| *word == 0));
}

#[test]
fn image_fills_the_gpu_buffer_with_no_operations() {
    let rom = assemble("routine: entry\n    draw str Hi\nend\n").expect("the program assembles");
    assert!(rom[0x0300..0x1000].iter().all(|word| *word == 0xA000));
    assert_eq!(rom[0x02FF], 0);
    assert_eq!(rom[0x1000], 0x0021);
}

#[test]
fn blank_image_agrees_with_base_word_at() {
    let rom = blank_image();
    assert_eq!(rom.len(), 0x1_0000);
    for address in 0..=0xFFFFu16 {
        assert_eq!(rom[address as usize], base_word_at(address));
    }
    assert_eq!(base_word_at(0x0200), 0x41);
    assert_eq!(base_word_at(0x0219), 0x5A);
    assert_eq!(base_word_at(0x021F), 0x5D);
    assert_eq!(base_word_at(0x023A), 0x2F);
    assert_eq!(base_word_at(0x0249), 0x39);
    assert_eq!(base_word_at(0x0FFF), 0xA000);
    assert_eq!(base_word_at(0x1000), 0);
}

#[test]
fn link_places_the_routines_and_the_bootstrap() {
    let mut first = Routine::new("first".to_string(), 0x1002);
    first.instructions = vec![1, 2, 3];
    first.length = 3;
    let mut second = Routine::new("second".to_string(), 0x2000);
    second.instructions = vec![4, 5];
    second.length = 2;
    let rom = link(&vec![first, second]);
    assert_eq!(&rom[0x1000..0x1006], &[0x0021, 0x2000, 1, 2, 3, 0]);
    assert_eq!(&rom[0x1FFF..0x2003], &[0, 4, 5, 0]);
}

#[test]
fn place_routine_writes_only_its_words() {
    let mut rom = vec![7u16; 0x1_0000];
    let mut routine = Routine::new("r".to_string(), 0xFFFD);
    routine.instructions = vec![1, 2];
    routine.length = 2;
    place_routine(&mut rom, &routine);
    assert_eq!(&rom[0xFFFC..], &[7, 1, 2, 7]);
    assert_eq!(rom.iter().filter(|word| **word != 7).count(), 2);
}

#[test]
fn routine_new_is_empty() {
    let routine = Routine::new("entry".to_string(), 0x1002);
    assert_eq!(routine.name, "entry");
    assert_eq!(routine.address, 0x1002);
    assert_eq!(routine.instructions, Vec::<u16>::new());
    assert_eq!(routine.length, 0);
}

#[test]
fn return_routine_address_finds_the_last_of_a_name() {
    let routines = vec![
        Routine::new("a".to_string(), 0x1002),
        Routine::new("b".to_string(), 0x1010),
        Routine::new("a".to_string(), 0x1020),
        Routine::new("ab".to_string(), 0x1030),
    ];
    assert_eq!(return_routine_address("a", &routines), 0x1020);
    assert_eq!(return_routine_address("b", &routines), 0x1010);
    assert_eq!(return_routine_address("ab", &routines), 0x1030);
    assert_eq!(return_routine_address("c", &routines), 0);
    assert_eq!(return_routine_address("", &routines), 0);
    assert_eq!(return_routine_address("a", &Vec::new()), 0);
}

#[test]
fn parse_resolves_names_from_the_table_it_is_given() {
    let src = chars("routine: entry\n    jump far\nend\n");
    let table = vec![Routine::new("far".to_string(), 0x4321)];
    let routines = parse(&src, &table).expect("the program parses");
    assert_eq!(routines[0].instructions, vec![0x0020, 0x4321]);
    let routines = parse(&src, &Vec::new()).expect("the program parses");
    assert_eq!(routines[0].instructions, vec![0x0020, 0x0000]);
}

#[test]
fn parse_regs_reads_a_register_name() {
    let src = chars("load A X Y B reg");
    let toks = tokens(&src);
    assert_eq!(parse_regs(&src, &toks, 1), Ok(0x0041));
    assert_eq!(parse_regs(&src, &toks, 2), Ok(0x0058));
    assert_eq!(parse_regs(&src, &toks, 3), Ok(0x0059));
    assert_eq!(
        parse_regs(&src, &toks, 4),
        Err(LineFault { kind: AsmErrorKind::InvalidRegister, index: 4 })
    );
    assert_eq!(
        parse_regs(&src, &toks, 6),
        Err(LineFault { kind: AsmErrorKind::MissingOperand, index: 0 })
    );
}

#[test]
fn parse_hex_lit_num_reads_a_kind_and_a_literal() {
    let src = chars("x lit 0x00FF num 65535 hex # num 65536 lit 12 dec 5 num");
    let toks = tokens(&src);
    assert_eq!(parse_hex_lit_num(&src, &toks, 1), Ok(0x00FF));
    assert_eq!(parse_hex_lit_num(&src, &toks, 3), Ok(65535));
    assert_eq!(parse_hex_lit_num(&src, &toks, 5), Ok(0x0023));
    assert_eq!(
        parse_hex_lit_num(&src, &toks, 7),
        Err(LineFault { kind: AsmErrorKind::ValueTooBig, index: 8 })
    );
    assert_eq!(
        parse_hex_lit_num(&src, &toks, 9),
        Err(LineFault { kind: AsmErrorKind::InvalidLiteral, index: 10 })
    );
    assert_eq!(
        parse_hex_lit_num(&src, &toks, 11),
        Err(LineFault { kind: AsmErrorKind::InvalidOperand, index: 11 })
    );
    assert_eq!(
        parse_hex_lit_num(&src, &toks, 13),
        Err(LineFault { kind: AsmErrorKind::MissingOperand, index: 0 })
    );
    assert_eq!(
        parse_hex_lit_num(&src, &toks, 14),
        Err(LineFault { kind: AsmErrorKind::MissingOperand, index: 0 })
    );
}

#[test]
fn parse_operand_reads_a_register_or_a_value() {
    let src = chars("comp reg X num 7 reg Q");
    let toks = tokens(&src);
    assert_eq!(parse_operand(&src, &toks, 1), Ok(0x0058));
    assert_eq!(parse_operand(&src, &toks, 3), Ok(7));
    assert_eq!(
        parse_operand(&src, &toks, 5),
        Err(LineFault { kind: AsmErrorKind::InvalidRegister, index: 6 })
    );
}

#[test]
fn encode_line_stops_when_the_room_runs_out() {
    let src = chars("load A num 1");
    let toks = tokens(&src);
    assert_eq!(encode_line(&src, &toks, 0x0300, 2, &Vec::new()), Ok((vec![0x00A1, 1], 0x0300)));
    assert_eq!(
        encode_line(&src, &toks, 0x0300, 1, &Vec::new()),
        Err(LineFault { kind: AsmErrorKind::ProgramTooLarge, index: 0 })
    );
    let src = chars("draw str abc");
    let toks = tokens(&src);
    let drawn = encode_line(&src, &toks, 0x0400, 24, &Vec::new()).expect("fits exactly");
    assert_eq!(drawn.0.len(), 24);
    assert_eq!(drawn.1, 0x0406);
    assert_eq!(
        encode_line(&src, &toks, 0x0400, 23, &Vec::new()),
        Err(LineFault { kind: AsmErrorKind::ProgramTooLarge, index: 0 })
    );
}

#[test]
fn unknown_instruction_is_reported_with_its_place() {
    assert_eq!(fault("    noop"), error(AsmErrorKind::UnknownInstruction, 2, 5, "noop"));
    assert_eq!(
        fault("halt\n  routine: x"),
        error(AsmErrorKind::UnknownInstruction, 3, 3, "routine:")
    );
    assert_eq!(
        assemble("load A num 1\n").err(),
        Some(error(AsmErrorKind::UnknownInstruction, 1, 1, "load"))
    );
    assert_eq!(
        assemble("routine: a\nend\nend\n").err(),
        Some(error(AsmErrorKind::UnknownInstruction, 3, 1, "end"))
    );
    assert_eq!(
        assemble("#comment\nroutine: a\nend\n").err(),
        Some(error(AsmErrorKind::UnknownInstruction, 1, 1, "#comment"))
    );
}

#[test]
fn reserved_instruction_is_rejected() {
    assert_eq!(fault("  rptr A"), error(AsmErrorKind::ReservedInstruction, 2, 3, "rptr"));
}

#[test]
fn missing_operands_are_reported_at_the_instruction() {
    for line in [
        "load", "load A", "load A lit", "stor X", "radd", "rsub Y num", "jump", "jusr", "juie",
        "juin", "comp", "comp reg", "comp reg A", "comp reg A lit", "comp num 1", "draw",
        "draw str", "draw str x col", "cmov", "ctrl", "ctrl gpu", "ctrl cpu",
    ] {
        let mnemonic = line.split(' ').next().unwrap();
        assert_eq!(
            fault(&format!("  {line}")),
            error(AsmErrorKind::MissingOperand, 2, 3, mnemonic),
            "{line}"
        );
    }
    assert_eq!(
        assemble("routine:\nend\n").err(),
        Some(error(AsmErrorKind::MissingOperand, 1, 1, "routine:"))
    );
}

#[test]
fn invalid_register_is_reported() {
    assert_eq!(fault("load G num 1"), error(AsmErrorKind::InvalidRegister, 2, 6, "G"));
    assert_eq!(fault("load a num 1"), error(AsmErrorKind::InvalidRegister, 2, 6, "a"));
    assert_eq!(fault("radd AX num 1"), error(AsmErrorKind::InvalidRegister, 2, 6, "AX"));
    assert_eq!(fault("comp reg X reg Z"), error(AsmErrorKind::InvalidRegister, 2, 16, "Z"));
}

#[test]
fn invalid_operand_is_reported() {
    assert_eq!(fault("load A 0x0042"), error(AsmErrorKind::InvalidOperand, 2, 8, "0x0042"));
    assert_eq!(fault("load A dec 5"), error(AsmErrorKind::InvalidOperand, 2, 8, "dec"));
    assert_eq!(fault("comp X lit 0x0000"), error(AsmErrorKind::InvalidOperand, 2, 6, "X"));
    assert_eq!(fault("draw chr x"), error(AsmErrorKind::InvalidOperand, 2, 6, "chr"));
}

#[test]
fn invalid_literal_is_reported() {
    assert_eq!(fault("load A lit 42"), error(AsmErrorKind::InvalidLiteral, 2, 12, "42"));
    assert_eq!(fault("load A lit 0xZZ"), error(AsmErrorKind::InvalidLiteral, 2, 12, "0xZZ"));
    assert_eq!(fault("load A num 0x10"), error(AsmErrorKind::InvalidLiteral, 2, 12, "0x10"));
    assert_eq!(fault("load A num -1"), error(AsmErrorKind::InvalidLiteral, 2, 12, "-1"));
}

#[test]
fn value_too_big_is_reported() {
    assert_eq!(fault("load A num 65536"), error(AsmErrorKind::ValueTooBig, 2, 12, "65536"));
    assert_eq!(fault("load A lit 0x10000"), error(AsmErrorKind::ValueTooBig, 2, 12, "0x10000"));
    assert_eq!(
        fault("halt\n\n    rsub   X   num   70000"),
        error(AsmErrorKind::ValueTooBig, 4, 22, "70000")
    );
}

#[test]
fn unknown_direction_and_controls_are_reported() {
    assert_eq!(fault("cmov west"), error(AsmErrorKind::UnknownDirection, 2, 6, "west"));
    assert_eq!(fault("ctrl gpu flush"), error(AsmErrorKind::UnknownGpuControl, 2, 10, "flush"));
    assert_eq!(fault("ctrl cpu stop"), error(AsmErrorKind::UnknownCpuControl, 2, 10, "stop"));
    assert_eq!(fault("ctrl fpu reset"), error(AsmErrorKind::UnknownControl, 2, 6, "fpu"));
}

#[test]
fn unterminated_routine_is_reported_at_the_last_line() {
    assert_eq!(
        assemble("routine: a\nend\nroutine: entry\n    halt\n").err(),
        Some(error(AsmErrorKind::UnterminatedRoutine, 4, 1, ""))
    );
    assert_eq!(
        assemble("routine: entry").err(),
        Some(error(AsmErrorKind::UnterminatedRoutine, 1, 1, ""))
    );
}

#[test]
fn a_source_without_routines_is_reported() {
    assert_eq!(assemble("").err(), Some(error(AsmErrorKind::NoRoutine, 0, 1, "")));
    assert_eq!(
        assemble("# nothing\n\n// here\n").err(),
        Some(error(AsmErrorKind::NoRoutine, 3, 1, ""))
    );
}

#[test]
fn the_first_fault_is_the_one_reported() {
    assert_eq!(
        fault("load A num 99999\nbogus\nload Q"),
        error(AsmErrorKind::ValueTooBig, 2, 12, "99999")
    );
}

#[test]
fn messages_name_the_fault() {
    let message = |kind: AsmErrorKind| error(kind, 1, 1, "").message();
    assert_eq!(message(AsmErrorKind::UnknownInstruction), "Unknown instruction");
    assert_eq!(message(AsmErrorKind::ReservedInstruction), "Reserved instruction");
    assert_eq!(message(AsmErrorKind::MissingOperand), "Missing operand");
    assert_eq!(message(AsmErrorKind::InvalidRegister), "Unknown register");
    assert_eq!(message(AsmErrorKind::InvalidOperand), "Unknown kind of operand");
    assert_eq!(message(AsmErrorKind::InvalidLiteral), "Malformed number");
    assert_eq!(
        message(AsmErrorKind::ValueTooBig),
        "Value too big, must not be bigger than 65535"
    );
    assert_eq!(message(AsmErrorKind::UnknownDirection), "Unknown direction");
    assert_eq!(message(AsmErrorKind::UnknownGpuControl), "Unknown GPU control");
    assert_eq!(message(AsmErrorKind::UnknownCpuControl), "Unknown CPU control");
    assert_eq!(message(AsmErrorKind::UnknownControl), "Unknown control");
    assert_eq!(message(AsmErrorKind::UnterminatedRoutine), "Routine without end");
    assert_eq!(message(AsmErrorKind::NoRoutine), "No routine defined");
    assert_eq!(message(AsmErrorKind::ProgramTooLarge), "Program does not fit into the ROM");
}

fn program_of(words: usize) -> String {
    let mut source = String::from("routine: entry\n");
    for _ in 0..words {
        source.push_str("halt\n");
    }
    source.push_str("end\n");
    source
}

#[test]
fn a_program_may_fill_the_program_area() {
    let rom = assemble(&program_of(0xFFFF - 0x1002)).expect("the program fits exactly");
    assert_eq!(rom[0xFFFE], 0x000F);
    assert_eq!(rom[0xFFFF], 0);
    assert!(rom[0x1002..0xFFFF].iter().all(|word| *word == 0x000F));
}

#[test]
fn a_program_beyond_the_program_area_is_reported() {
    let words = 0xFFFF - 0x1002 + 1;
    assert_eq!(
        assemble(&program_of(words)).err(),
        Some(error(AsmErrorKind::ProgramTooLarge, words + 1, 1, "halt"))
    );
}

#[test]
fn a_routine_behind_a_full_program_area_is_reported() {
    let mut source = program_of(0xFFFF - 0x1002);
    source.push_str("  routine: more\nend\n");
    let lines = 0xFFFF - 0x1002 + 3;
    assert_eq!(
        assemble(&source).err(),
        Some(error(AsmErrorKind::ProgramTooLarge, lines, 3, "routine:"))
    );
}

#[test]
fn a_text_too_long_to_draw_is_reported() {
    let text = "x".repeat(20_000);
    assert_eq!(
        fault(&format!("draw str {text}")),
        error(AsmErrorKind::ProgramTooLarge, 2, 1, "draw")
    );
}

#[test]
fn report_gives_message_token_line_and_column() {
    assert_eq!(
        error(AsmErrorKind::ValueTooBig, 12, 345, "70000").report(),
        "Value too big, must not be bigger than 65535\nInvalid Syntax: \"70000\"\n --> At Line 12 | Position 345\n"
    );
    assert_eq!(
        error(AsmErrorKind::NoRoutine, 0, 1, "").report(),
        "No routine defined\nInvalid Syntax: \"\"\n --> At Line 0 | Position 1\n"
    );
    assert_eq!(
        fault("  cmov west").report(),
        "Unknown direction\nInvalid Syntax: \"west\"\n --> At Line 2 | Position 8\n"
    );
}

#[test]
fn encode_line_keeps_the_gpu_pointer_a_word() {
    let none = Vec::new();
    let too_large = Err(LineFault { kind: AsmErrorKind::ProgramTooLarge, index: 0 });

    let src = chars("load A num 1");
    assert_eq!(
        encode_line(&src, &tokens(&src), 0xFFFF, 2, &none),
        Ok((vec![0x00A1, 1], 0xFFFF))
    );
    let src = chars("ctrl cpu halt");
    assert_eq!(encode_line(&src, &tokens(&src), 0xFFFF, 1, &none), Ok((vec![0x000F], 0xFFFF)));
    assert_eq!(encode_line(&src, &tokens(&src), 0xFFFF, 0, &none), too_large);

    let src = chars("ctrl gpu update");
    assert_eq!(
        encode_line(&src, &tokens(&src), 0xFFFE, 4, &none),
        Ok((vec![0x00AF, 0xA002, 0x00BF, 0xFFFE], 0xFFFF))
    );
    assert_eq!(encode_line(&src, &tokens(&src), 0xFFFF, 4, &none), too_large);
    assert_eq!(encode_line(&src, &tokens(&src), 0xFFFE, 3, &none), too_large);

    let src = chars("cmov nl");
    assert_eq!(
        encode_line(&src, &tokens(&src), 0xFFFD, 8, &none),
        Ok((vec![0x00AF, 0xA0B4, 0x00BF, 0xFFFD, 0x00AF, 0xA002, 0x00BF, 0xFFFE], 0xFFFF))
    );
    assert_eq!(encode_line(&src, &tokens(&src), 0xFFFE, 8, &none), too_large);
    assert_eq!(encode_line(&src, &tokens(&src), 0xFFFD, 7, &none), too_large);

    let src = chars("draw str a");
    let drawn = encode_line(&src, &tokens(&src), 0xFFFB, 16, &none).expect("fits exactly");
    assert_eq!(drawn.1, 0xFFFF);
    assert_eq!(drawn.0[3], 0xFFFB);
    assert_eq!(drawn.0[15], 0xFFFE);
    assert_eq!(encode_line(&src, &tokens(&src), 0xFFFC, 16, &none), too_large);
    let roomy = encode_line(&src, &tokens(&src), 0xFFFB, usize::MAX, &none);
    assert_eq!(roomy.map(|pair| pair.1), Ok(0xFFFF));
}

#[test]
fn faults_of_the_line_come_before_its_size() {
    let none = Vec::new();
    let src = chars("cmov west");
    assert_eq!(
        encode_line(&src, &tokens(&src), 0xFFFF, 0, &none),
        Err(LineFault { kind: AsmErrorKind::UnknownDirection, index: 1 })
    );
    let src = chars("ctrl gpu");
    assert_eq!(
        encode_line(&src, &tokens(&src), 0xFFFF, 0, &none),
        Err(LineFault { kind: AsmErrorKind::MissingOperand, index: 0 })
    );
    let src = chars("draw");
    assert_eq!(
        encode_line(&src, &tokens(&src), 0xFFFF, 0, &none),
        Err(LineFault { kind: AsmErrorKind::MissingOperand, index: 0 })
    );
    let src = chars("load Q");
    assert_eq!(
        encode_line(&src, &tokens(&src), 0xFFFF, 0, &none),
        Err(LineFault { kind: AsmErrorKind::InvalidRegister, index: 1 })
    );
}

#[test]
fn instruction_starts_follow_the_operand_counts() {
    let mut routine = Routine::new("r".to_string(), 0x1002);
    assert_eq!(routine.instruction_starts(), Vec::<usize>::new());
    routine.instructions = vec![
        0x00A1, 0x0004, 0x0004, 0x0041, 0x0021, 0x0043, 0x0058, 0x0001, 0x0021, 0x1002, 0x7777,
        0x000F, 0x0031, 0x00AF, 0xA002, 0x00BF, 0x0300, 0x00A2, 0x0000,
    ];
    assert_eq!(routine.instruction_starts(), vec![0, 2, 5, 8, 10, 11, 12, 13, 15, 17, 18]);
    routine.instructions = vec![0x000F, 0x0042, 0x0041];
    assert_eq!(routine.instruction_starts(), vec![0, 1]);
    routine.instructions = vec![0x0042];
    assert_eq!(routine.instruction_starts(), vec![0]);
}

#[test]
fn instruction_starts_of_an_assembled_routine() {
    let words = body("load A num 1\ncomp reg A lit 0x0001\njuie entry\ndraw str x\nhalt");
    let mut routine = Routine::new("entry".to_string(), 0x1002);
    routine.length = words.len() as u16;
    routine.instructions = words;
    assert_eq!(
        routine.instruction_starts(),
        vec![0, 2, 5, 7, 9, 11, 13, 15, 17, 19, 21, 23]
    );
}
