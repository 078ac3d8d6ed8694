use ingles::emitter::Emitter;
use ingles::intel_asm_writer::{fresh_label, LABEL_END, LABEL_MIN};
use ingles::{
    can_write, parse, select_emitter, write_labelled, write_step, IntelAsmWriter, Operation,
    OperationType, OutputType, SourceFile,
};

fn op(kind: OperationType, args: &[&str], orig: &str, line: usize, file: &str) -> Operation {
    Operation {
        op: kind,
        args: args.iter().map(|s| s.to_string()).collect(),
        orig: orig.to_string(),
        line,
        file: file.to_string(),
    }
}

fn text(bytes: Vec<u8>) -> String {
    String::from_utf8(bytes).unwrap()
}

fn expected(lines: &[&str], line: usize, file: &str, orig: &str) -> String {
    let mut out = String::new();
    for l in lines {
        out += &format!("{:<60} ; [{:>3} / {}] {}\n", l, line, file, orig);
    }
    out
}

#[test]
fn move_listing_is_exact() {
    let out = IntelAsmWriter::generate(op(OperationType::Move, &["rax", "5"], "rax = 5", 7, "main.src"));
    assert_eq!(
        text(out),
        "     mov rax, 5                                              ; [  7 / main.src] rax = 5\n"
    );
}

#[test]
fn every_line_is_traced() {
    let exit = op(OperationType::ExitProcess, &["rax"], "exit proc with rax", 7, "main.src");
    let out = text(IntelAsmWriter::generate(exit));
    let lines: Vec<&str> = out.split_terminator('\n').collect();
    assert_eq!(lines.len(), 3);
    for line in lines {
        let comment = &line[line.find(" ; [").unwrap()..];
        assert!(comment.contains("7"));
        assert!(comment.contains("main.src"));
        assert!(comment.ends_with("] exit proc with rax"));
        assert_eq!(line.find(" ; ["), Some(60));
    }
}

#[test]
fn listing_of_each_kind() {
    let cases: Vec<(OperationType, Vec<&str>, Vec<&str>)> = vec![
        (OperationType::Move, vec!["a", "b"], vec!["     mov a, b"]),
        (OperationType::FunctionStart, vec!["main"], vec!["main:"]),
        (OperationType::FunctionEnd, vec![], vec!["     ret"]),
        (OperationType::SetStartFunction, vec!["main"], vec!["  global _start ", " _start: jmp main"]),
        (OperationType::FunctionEnter, vec!["f"], vec!["    call f"]),
        (OperationType::Add, vec!["a", "b"], vec!["     add a, b"]),
        (OperationType::Subtract, vec!["a", "b"], vec!["     sub a, b"]),
        (OperationType::Multiply, vec!["a", "b"], vec!["     mul a, b"]),
        (OperationType::Divide, vec!["a", "b"], vec!["     div a, b"]),
        (OperationType::TextSection, vec![], vec![" section .text"]),
        (OperationType::DataSection, vec![], vec![" section .data"]),
        (OperationType::UninitializedDataSection, vec![], vec![" section .bss"]),
        (
            OperationType::ExitProcess,
            vec!["0"],
            vec!["     mov rax, 60", "     mov rdi, 0", " syscall"],
        ),
        (OperationType::PushToStack, vec!["rax"], vec!["    push rax"]),
        (OperationType::PopFromStack, vec!["rax"], vec!["     pop rax"]),
        (OperationType::ReadFromMemory, vec!["buf", "rax"], vec!["     mov rax, [buf]"]),
        (OperationType::WriteToMemory, vec!["rax", "buf"], vec!["     mov [buf], rax"]),
        (OperationType::DefineVariable, vec!["n", "q", "1"], vec!["n: dq 1"]),
        (OperationType::DefineUninitVariable, vec!["n", "w"], vec!["n: resw 1"]),
        (OperationType::RunInterrupt, vec!["80"], vec!["     int 80h"]),
    ];
    for (kind, args, lines) in cases {
        let out = IntelAsmWriter::generate(op(kind, &args, "the line", 12, "dir/file.src"));
        assert_eq!(text(out), expected(&lines, 12, "dir/file.src", "the line"), "{:?}", kind);
    }
}

#[test]
fn administrative_kinds_emit_nothing() {
    assert!(IntelAsmWriter::generate(op(OperationType::SetWriter, &["x"], "#writer x", 1, "f")).is_empty());
    assert!(IntelAsmWriter::generate(op(OperationType::NoOp, &[], "", 1, "f")).is_empty());
}

#[test]
fn range_read_with_given_label() {
    let range = op(OperationType::ReadFromMemoryRange, &["lo", "hi", "rcx"], "read [lo..hi] into rcx", 3, "f");
    let out = text(IntelAsmWriter::generate_labelled(&range, 2147483650));
    let lines = [
        "",
        "     push rdx",
        "     push cx",
        "     push rax",
        "     mov rdx, lo",
        "  .2147483650:",
        "     mov [rdx], cl",
        "     mov cl, [hi+rdx]",
        "     inc rax",
        "     inc rdx",
        "     cmp rax, hi-lo",
        "      jl .2147483650",
        "     pop rax",
        "     pop cx",
        "     pop rdx",
        "     ",
    ];
    assert_eq!(out, expected(&lines, 3, "f", "read [lo..hi] into rcx"));
}

#[test]
fn range_read_draws_a_label_in_range() {
    for _ in 0..20 {
        let range = op(OperationType::ReadFromMemoryRange, &["lo", "hi", "rcx"], "x", 3, "f");
        let out = text(IntelAsmWriter::generate(range));
        let lines: Vec<&str> = out.split_terminator('\n').collect();
        assert_eq!(lines.len(), 16);
        let declared = lines[5].trim_start().split(':').next().unwrap();
        let label: u32 = declared.trim_start_matches('.').parse().unwrap();
        assert!(LABEL_MIN <= label && label < LABEL_END);
        assert!(lines[11].starts_with(&format!("      jl .{} ", label)));
    }
}

#[test]
fn fresh_labels_stay_in_range() {
    for _ in 0..100 {
        let label = fresh_label(OperationType::ReadFromMemoryRange);
        assert!(LABEL_MIN <= label && label < LABEL_END);
    }
    assert_eq!(LABEL_MIN, u32::MAX / 2);
    assert_eq!(LABEL_END, u32::MAX);
}

#[test]
fn fresh_labels_differ() {
    let labels: Vec<u32> =
        (0..64).map(|_| fresh_label(OperationType::ReadFromMemoryRange)).collect();
    assert!(labels.iter().any(|label| *label != LABEL_MIN));
    assert!(labels.iter().any(|label| *label != labels[0]));
    assert_eq!(fresh_label(OperationType::Move), LABEL_MIN);
}

#[test]
fn long_lines_and_large_numbers_are_not_cut() {
    let long = "x".repeat(70);
    let out = text(IntelAsmWriter::generate(op(OperationType::FunctionStart, &[&long], "o", 12345, "f")));
    assert_eq!(out, format!("{}: ; [12345 / f] o\n", long));
    let wide = text(IntelAsmWriter::generate(op(OperationType::FunctionEnd, &[], "o", 0, "")));
    assert_eq!(wide, expected(&["     ret"], 0, "", "o"));
}

#[test]
fn padding_counts_characters_not_bytes() {
    let out = text(IntelAsmWriter::generate(op(OperationType::FunctionStart, &["é"], "é", 1, "f")));
    assert_eq!(out, expected(&["é:"], 1, "f", "é"));
    assert_eq!(out.chars().position(|c| c == ';'), Some(61));
}

#[test]
fn operands_with_line_feeds_make_more_lines() {
    let out = text(IntelAsmWriter::generate(op(OperationType::FunctionEnter, &["a\nb"], "o", 2, "f")));
    assert_eq!(out, expected(&["    call a", "b"], 2, "f", "o"));
}

#[test]
fn selectors() {
    assert_eq!(select_emitter("intel_asm"), Emitter::IntelAsm);
    assert_eq!(select_emitter("other"), Emitter::Silent);
    assert_eq!(select_emitter(""), Emitter::Silent);
    assert_eq!(select_emitter("intel_asm "), Emitter::Silent);
}

fn block() -> Vec<Operation> {
    vec![
        op(OperationType::TextSection, &[], "#text", 1, "m"),
        op(OperationType::SetWriter, &["quiet"], "#writer quiet", 2, "m"),
        op(OperationType::Move, &["a", "b"], "a = b", 3, "m"),
        op(OperationType::FunctionEnd, &[], "func end", 4, "m"),
        op(OperationType::SetWriter, &["intel_asm"], "#writer intel_asm", 5, "m"),
        op(OperationType::Add, &["a", "b"], "a += b", 6, "m"),
    ]
}

#[test]
fn dynamic_mode_follows_directives() {
    let out = ingles::operation::write(block(), OutputType::Dynamic);
    let texts: Vec<String> = out.into_iter().map(text).collect();
    assert_eq!(
        texts,
        vec![
            expected(&[" section .text"], 1, "m", "#text"),
            String::new(),
            String::new(),
            String::new(),
            String::new(),
            expected(&["     add a, b"], 6, "m", "a += b"),
        ]
    );
}

#[test]
fn forced_mode_ignores_directives() {
    let out = ingles::operation::write(block(), OutputType::IntelAsm);
    let texts: Vec<String> = out.into_iter().map(text).collect();
    assert_eq!(
        texts,
        vec![
            expected(&[" section .text"], 1, "m", "#text"),
            String::new(),
            expected(&["     mov a, b"], 3, "m", "a = b"),
            expected(&["     ret"], 4, "m", "func end"),
            String::new(),
            expected(&["     add a, b"], 6, "m", "a += b"),
        ]
    );
}

#[test]
fn write_step_threads_the_active_emitter() {
    let directive = op(OperationType::SetWriter, &["nothing"], "#writer nothing", 1, "m");
    let (next, bytes) = write_step(Emitter::IntelAsm, &directive, OutputType::Dynamic, 0);
    assert_eq!(next, Emitter::Silent);
    assert!(bytes.is_empty());
    let mv = op(OperationType::Move, &["a", "b"], "a = b", 2, "m");
    let (kept, silent) = write_step(next, &mv, OutputType::Dynamic, 0);
    assert_eq!(kept, Emitter::Silent);
    assert!(silent.is_empty());
    let (still, forced) = write_step(next, &mv, OutputType::IntelAsm, 0);
    assert_eq!(still, Emitter::Silent);
    assert_eq!(text(forced), expected(&["     mov a, b"], 2, "m", "a = b"));
    let bare = op(OperationType::SetWriter, &[], "#writer", 3, "m");
    let (unchanged, _) = write_step(Emitter::Silent, &bare, OutputType::Dynamic, 0);
    assert_eq!(unchanged, Emitter::Silent);
}

#[test]
fn write_labelled_uses_the_labels_given() {
    let ops = vec![
        op(OperationType::ReadFromMemoryRange, &["a", "b", "c"], "r", 1, "m"),
        op(OperationType::ReadFromMemoryRange, &["a", "b", "c"], "r", 2, "m"),
    ];
    let out = write_labelled(&ops, OutputType::Dynamic, &vec![2147483647, 4294967294]);
    assert_eq!(out.len(), 2);
    assert!(text(out[0].clone()).contains("  .2147483647:"));
    assert!(text(out[1].clone()).contains("  .4294967294:"));
    assert_eq!(out[0], IntelAsmWriter::generate_labelled(&ops[0], 2147483647));
}

#[test]
fn writable_operations() {
    let short = vec![op(OperationType::Move, &["a"], "a", 1, "m")];
    assert!(!can_write(&short, OutputType::Dynamic));
    assert!(!can_write(&short, OutputType::IntelAsm));
    assert!(!short[0].is_well_formed());
    let silenced = vec![
        op(OperationType::SetWriter, &["none"], "#writer none", 1, "m"),
        op(OperationType::Move, &["a"], "a", 2, "m"),
    ];
    assert!(can_write(&silenced, OutputType::Dynamic));
    assert!(!can_write(&silenced, OutputType::IntelAsm));
    assert_eq!(ingles::operation::write(silenced, OutputType::Dynamic), vec![Vec::<u8>::new(), Vec::new()]);
    assert!(can_write(&block(), OutputType::IntelAsm));
    assert!(can_write(&vec![], OutputType::Dynamic));
}

#[test]
fn parse_then_write() {
    let source = SourceFile {
        path: "main.src".to_string(),
        text: "#text\nfunc begin main\nrax = 5\nexit proc with rax\nfunc end".to_string(),
    };
    let parsed = parse("main.src", vec![], &vec![source]).unwrap();
    assert!(can_write(&parsed.ops, OutputType::Dynamic));
    let out: Vec<u8> = ingles::operation::write(parsed.ops, OutputType::Dynamic).concat();
    let mut want = String::new();
    want += &expected(&[" section .text"], 1, "main.src", "#text");
    want += &expected(&["main:"], 2, "main.src", "func begin main");
    want += &expected(&["     mov rax, 5"], 3, "main.src", "rax = 5");
    want += &expected(
        &["     mov rax, 60", "     mov rdi, rax", " syscall"],
        4,
        "main.src",
        "exit proc with rax",
    );
    want += &expected(&["     ret"], 5, "main.src", "func end");
    assert_eq!(text(out), want);
}

#[test]
fn operation_as_text() {
    let mv = op(OperationType::Move, &["rax", "5"], "rax = 5", 1, "m");
    assert_eq!(mv.to_string(), "(MOV, rax, 5)");
    assert_eq!(op(OperationType::FunctionEnd, &[], "", 1, "m").to_string(), "(FUNC END, )");
    assert_eq!(op(OperationType::PushToStack, &["x"], "", 1, "m").to_string(), "(PUSH, x)");
    assert_eq!(mv.index(0), "rax");
    assert_eq!(mv.index(1), "5");
}

#[test]
fn kind_names() {
    let names = [
        (OperationType::Move, "MOV"),
        (OperationType::NoOp, "NONE"),
        (OperationType::FunctionStart, "FUNC START"),
        (OperationType::FunctionEnd, "FUNC END"),
        (OperationType::SetStartFunction, "FUNC BEGIN"),
        (OperationType::FunctionEnter, "FUNC CALL"),
        (OperationType::Add, "ADD"),
        (OperationType::Subtract, "SUB"),
        (OperationType::Multiply, "MUL"),
        (OperationType::Divide, "DIV"),
        (OperationType::TextSection, "SECT TEXT"),
        (OperationType::DataSection, "SECT DATA"),
        (OperationType::UninitializedDataSection, "SECT UDATA"),
        (OperationType::ExitProcess, "EXIT PROC"),
        (OperationType::SetWriter, "SET WRITER"),
        (OperationType::PushToStack, "PUSH"),
        (OperationType::PopFromStack, "POP"),
        (OperationType::ReadFromMemory, "READ"),
        (OperationType::WriteToMemory, "WRITE"),
        (OperationType::DefineVariable, "VARIABLE"),
        (OperationType::DefineUninitVariable, "UVARIABLE"),
        (OperationType::RunInterrupt, "INTERRUPT"),
        (OperationType::ReadFromMemoryRange, "READ RANGE"),
    ];
    for (kind, name) in names {
        assert_eq!(kind.to_string(), name);
    }
}

#[test]
fn operand_counts_fit_the_standard_table() {
    for rule in ingles::rule_table() {
        assert!(rule.arity >= rule.kind.operand_count(), "{:?}", rule.kind);
    }
    assert_eq!(ingles::rule_table().len(), 24);
}
