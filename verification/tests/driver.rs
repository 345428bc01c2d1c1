use nha_asm::assemble::emitted_words;
use nha_asm::assemble::go_through_lines;
use nha_asm::assemble::line_outcomes;
use nha_asm::assemble::process_line;
use nha_asm::assemble::LineOutcome;
use nha_asm::assembler::Assembler;
use nha_asm::encode::JUMP_WORD;
use nha_asm::error::EncodeError;
use nha_asm::error::Table;
use nha_asm::source::keep_line;
use nha_asm::source::normalize_lines;
use nha_asm::tables::LookupTables;
use nha_asm::tokens::tokenize;

fn strings(items: &[&str]) -> Vec<String> {
    items.iter().map(|s| s.to_string()).collect()
}

#[test]
fn jmp_yields_the_fixed_word_whatever_follows() {
    let tables = LookupTables::new();
    for line in ["JMP", "JMP D", "JMP A, D, (A)", "JMP , , ,", "JMP $5 NOP"] {
        assert_eq!(
            process_line(&tables, &tokenize(line)),
            Ok(LineOutcome::Emitted(0b1110101010000111)),
            "{}",
            line
        );
    }
    assert_eq!(JUMP_WORD, 0b1110101010000111);
}

#[test]
fn each_family_is_dispatched() {
    let tables = LookupTables::new();
    let run = |line: &str| process_line(&tables, &tokenize(line));
    assert_eq!(run("ADD A, D, A"), Ok(LineOutcome::Emitted(0b1110_0001_0010_0000)));
    assert_eq!(run("SUB A, D, A"), Ok(LineOutcome::Emitted(0b1110_0101_1010_0000)));
    assert_eq!(run("STR (A), D"), Ok(LineOutcome::Emitted(0b1110_0011_0000_1000)));
    assert_eq!(run("LDR A, $100"), Ok(LineOutcome::Emitted(100)));
    assert_eq!(run("LDR D, A"), Ok(LineOutcome::Emitted(0b1110_1100_0001_0000)));
    assert_eq!(run("JGT D"), Ok(LineOutcome::Checked(0b1110_0011_0000_0001)));
    assert_eq!(run("JLE (A)"), Ok(LineOutcome::Checked(0b1111_1100_0000_0110)));
}

#[test]
fn unknown_mnemonics_and_empty_lines_are_skipped() {
    let tables = LookupTables::new();
    let run = |line: &str| process_line(&tables, &tokenize(line));
    assert_eq!(run("NOP"), Ok(LineOutcome::Skipped));
    assert_eq!(run("NOP A, D, A"), Ok(LineOutcome::Skipped));
    assert_eq!(run(""), Ok(LineOutcome::Skipped));
    assert_eq!(run(", ADD"), Ok(LineOutcome::Skipped));
    assert_eq!(run("add A, D, A"), Ok(LineOutcome::Skipped));
    assert_eq!(run("JXX D"), Ok(LineOutcome::Skipped));
    assert_eq!(run("ADDX"), Ok(LineOutcome::Skipped));
}

#[test]
fn an_unknown_mnemonic_does_not_stop_the_run() {
    let tables = LookupTables::new();
    assert_eq!(go_through_lines(&tables, strings(&["NOP"])), Ok(vec![]));
    assert_eq!(
        go_through_lines(&tables, strings(&["NOP", "ADD A, D, A"])),
        Ok(vec![0b1110_0001_0010_0000])
    );
    assert_eq!(
        go_through_lines(&tables, strings(&["LDR A, $7", "HALT", "JMP"])),
        Ok(vec![7, 0b1110101010000111])
    );
}

#[test]
fn a_wrong_operand_count_ends_the_run() {
    let tables = LookupTables::new();
    let expected = Err(EncodeError::ArityMismatch { expected: 5, got: 3 });
    assert_eq!(go_through_lines(&tables, strings(&["ADD A, D"])), expected);
    assert_eq!(go_through_lines(&tables, strings(&["JMP", "ADD A, D", "JMP"])), expected);
    assert_eq!(
        go_through_lines(&tables, strings(&["ADD A, D", "STR D"])),
        expected
    );
    assert_eq!(
        go_through_lines(&tables, strings(&["STR D", "ADD A, D"])),
        Err(EncodeError::ArityMismatch { expected: 3, got: 1 })
    );
}

#[test]
fn any_failing_line_ends_the_run_with_its_error() {
    let tables = LookupTables::new();
    assert_eq!(
        go_through_lines(&tables, strings(&["JMP", "LDR M, A", "JMP"])),
        Err(EncodeError::UnknownSymbol { table: Table::Target, token: "M".to_string() })
    );
    assert_eq!(
        go_through_lines(&tables, strings(&["STR A, D"])),
        Err(EncodeError::UnexpectedToken { literal: "(A)".to_string(), token: "A".to_string() })
    );
    assert_eq!(
        go_through_lines(&tables, strings(&["SUB D, D, M"])),
        Err(EncodeError::UnknownAccessMode { token: "M".to_string() })
    );
    assert_eq!(
        go_through_lines(&tables, strings(&["JEQ"])),
        Err(EncodeError::ArityMismatch { expected: 1, got: 0 })
    );
}

#[test]
fn the_words_follow_the_order_of_the_lines() {
    let tables = LookupTables::new();
    let lines = strings(&["LDR A, $2", "LDR D, A", "LDR A, $3", "ADD D, D, A", "STR (A), D", "JMP"]);
    assert_eq!(
        go_through_lines(&tables, lines),
        Ok(vec![
            2,
            0b1110_1100_0001_0000,
            3,
            0b1110_0001_0001_0000,
            0b1110_0011_0000_1000,
            0b1110_1010_1000_0111,
        ])
    );
    assert_eq!(go_through_lines(&tables, Vec::new()), Ok(vec![]));
}

#[test]
fn a_conditional_jump_is_checked_but_adds_no_word() {
    let tables = LookupTables::new();
    assert_eq!(go_through_lines(&tables, strings(&["JGT D"])), Ok(vec![]));
    assert_eq!(
        go_through_lines(&tables, strings(&["LDR A, $1", "JNE D", "JMP"])),
        Ok(vec![1, 0b1110101010000111])
    );
    assert_eq!(
        go_through_lines(&tables, strings(&["JGT M", "JMP"])),
        Err(EncodeError::UnknownSymbol { table: Table::Source, token: "M".to_string() })
    );
}

#[test]
fn a_program_is_never_longer_than_its_source() {
    let tables = LookupTables::new();
    let lines = strings(&["JMP", "NOP", "JEQ 0", "LDR A, $1", "", "ADD A, D, (A)"]);
    let count = lines.len();
    let words = go_through_lines(&tables, lines).unwrap();
    assert_eq!(words.len(), 3);
    assert!(words.len() <= count);
}

#[test]
fn keep_line_drops_empty_lines() {
    let mut lines = strings(&["A"]);
    keep_line(&mut lines, String::new());
    assert_eq!(lines, strings(&["A"]));
    keep_line(&mut lines, "B".to_string());
    assert_eq!(lines, strings(&["A", "B"]));
    keep_line(&mut lines, " ".to_string());
    assert_eq!(lines, strings(&["A", "B", " "]));
}

#[test]
fn lines_are_trimmed_raised_and_filtered() {
    assert_eq!(normalize_lines("add a, d, a"), strings(&["ADD A, D, A"]));
    assert_eq!(
        normalize_lines("  ldr a, $1 \r\n\r\n\tjmp\n   \nStr (a), d"),
        strings(&["LDR A, $1", "JMP", "STR (A), D"])
    );
    assert_eq!(normalize_lines(""), strings(&[]));
    assert_eq!(normalize_lines("\n\n \n"), strings(&[]));
    assert_eq!(normalize_lines("jmp\n"), strings(&["JMP"]));
    assert_eq!(normalize_lines("a\rb"), strings(&["A\rB"]));
    assert_eq!(normalize_lines("straße\nß"), strings(&["STRASSE", "SS"]));
}

#[test]
fn normalizing_agrees_with_lines_trim_and_to_uppercase() {
    let samples = [
        "", "\n", "a", "a\n", "a\nb", "a\r\nb\r\n", " a \n\n b ", "\r", "\r\n", "a\r", "x\ry\n",
        "ldr a, $1\n  add d, d, (a)\n\nnop\n", "é\n\u{3000}ü\u{A0}\n", "\n\na", "a\n\n", " \t \n x",
    ];
    for text in samples {
        let expected: Vec<String> = text
            .lines()
            .map(|line| line.trim().to_uppercase())
            .filter(|line| !line.is_empty())
            .collect();
        assert_eq!(normalize_lines(text), expected, "{:?}", text);
    }
}

#[test]
fn the_assembler_takes_text_in_any_case() {
    let assembler = Assembler::new();
    assert_eq!(
        assembler.assemble("ldr a, $100\nLdr d, A\n\n  add a, d, a\nnop\njmp\n"),
        Ok(vec![100, 0b1110_1100_0001_0000, 0b1110_0001_0010_0000, 0b1110_1010_1000_0111])
    );
    assert_eq!(
        assembler.assemble("jmp\nadd a, d\njmp"),
        Err(EncodeError::ArityMismatch { expected: 5, got: 3 })
    );
    assert_eq!(assembler.assemble(""), Ok(vec![]));
}

#[test]
fn the_assembler_gives_the_same_program_every_time() {
    let assembler = Assembler::new();
    let text = "LDR A, $5\nSUB D, D, (A)\nJLT D\nSTR (A), D\n";
    let first = assembler.assemble(text);
    let second = assembler.assemble(text);
    assert_eq!(first, Ok(vec![5, 0b1111_0101_1001_0000, 0b1110_0011_0000_1000]));
    assert_eq!(first, second);
    assert_eq!(Assembler::new().assemble(text), first);
    let lines = normalize_lines(text);
    assert_eq!(assembler.assemble_lines(lines.clone()), first);
    assert_eq!(go_through_lines(assembler.tables(), lines), first);
}

#[test]
fn the_assembler_builds_its_tables_once() {
    let assembler = Assembler::new();
    let first: &LookupTables = assembler.tables();
    let second: &LookupTables = assembler.tables();
    assert!(std::ptr::eq(first, second));
    assert_eq!(assembler.tables().lookup(Table::Target, "A"), Ok(0b100));
}

#[test]
fn every_line_has_its_outcome() {
    let tables = LookupTables::new();
    let lines = strings(&["LDR A, $9", "NOP", "JGE A", "JMP"]);
    assert_eq!(
        line_outcomes(&tables, &lines),
        Ok(vec![
            LineOutcome::Emitted(9),
            LineOutcome::Skipped,
            LineOutcome::Checked(0b1110_1100_0000_0011),
            LineOutcome::Emitted(0b1110_1010_1000_0111),
        ])
    );
    assert_eq!(line_outcomes(&tables, &[]), Ok(vec![]));
    assert_eq!(
        line_outcomes(&tables, &strings(&["JMP", "LDR A,", "NOP"])),
        Err(EncodeError::ArityMismatch { expected: 3, got: 2 })
    );
}

#[test]
fn the_program_is_the_emitted_words_of_the_outcomes() {
    let tables = LookupTables::new();
    let lines = strings(&["JEQ D", "ADD D, D, A", "WAIT", "SUB A, D, (A)", "JMP", "JLT 1"]);
    let outcomes = line_outcomes(&tables, &lines).unwrap();
    let words = emitted_words(&outcomes);
    assert_eq!(words, vec![0b1110_0001_0001_0000, 0b1111_0101_1010_0000, 0b1110_1010_1000_0111]);
    assert_eq!(go_through_lines(&tables, lines), Ok(words));
    assert_eq!(emitted_words(&[]), Vec::<u16>::new());
    assert_eq!(
        emitted_words(&[LineOutcome::Checked(1), LineOutcome::Skipped, LineOutcome::Emitted(2)]),
        vec![2]
    );
}
