//! Whole programs: assembled from source, loaded and run to the end.
use dcpu::assembler;
use dcpu::instruction::Instruction;
use dcpu::Dcpu;

/// Assembles and runs the program from source and gives diagnostic information.
fn run_program(program_src: &str) -> Dcpu {
    let program = assembler::assemble(program_src);
    if !program.is_ok() {
        let errors = program.err().unwrap();
        println!();
        println!("[ERRORS]");
        for error in errors {
            println!("  {}", error);
        }
        println!();
        panic!();
    }
    let program = program.unwrap();
    println!("[Words]");
    print_program_words(&program);
    println!();
    println!("[Syntax]");
    print_program_syntax(&program);
    println!();

    // Now, run it.
    println!("[Execution]");
    let mut dcpu = Dcpu::new();
    dcpu.load_program(&program);
    let mut ticks = 0;
    while !dcpu.finished() {
        let instr_word = dcpu.mem(dcpu.pc());
        println!("Hex: {:#x}", instr_word);
        println!("Instruction: {}", Instruction::new(instr_word).to_string());
        println!();
        assert!(dcpu.try_tick());
        println!("{}", dcpu.to_string());
        ticks += 1;
        assert!(ticks < 10_000);
    }
    dcpu
}

fn print_program_words(program: &Vec<u16>) {
    for word in program {
        println!("0x{:01$x}", word, 4);
    }
}

fn print_program_syntax(program: &Vec<u16>) {
    let mut iter = program.iter();
    while let Some(word) = iter.next() {
        let instr = Instruction::new(*word);
        println!("{}", instr.to_string());
        let to_skip = instr.num_words() - 1;
        for _ in 0..to_skip {
            iter.next().unwrap();
        }
    }
}

#[test]
fn immediate_finish() {
    let program_src = "\
SET A, 0x0
SET B, 0x1
SET C, 0x2
:finish SET PC, finish
        ";
    run_program(program_src);
}

#[test]
fn mod_simple() {
    let program_src = "\
; Test that comments work.
SET A, 0x30 ; Test that comments work on the same line as code.
SET [0x1000], 0x20
SUB A, [0x1000]
IFN A, 0x10
SET A, 0xff

:finish SET PC, finish
        ";
    run_program(program_src);
}

#[test]
fn simple() {
    let program_src = "\
; Test that comments work.
SET A, 0x30 ; Test that comments work on the same line as code.
        ";
    let program = assembler::assemble(program_src);
    println!("Program: {:?}", program);
}

#[test]
fn label_loop() {
    let program_src = "\
SET A, 0x10
:loop
SUB A, 1
IFN A, 0
SET PC, loop

:finish SET PC, finish
        ";
    run_program(program_src);
}

#[test]
fn immediate_finish_leaves_registers() {
    let dcpu = run_program("SET A, 0x0\nSET B, 0x1\nSET C, 0x2\n:finish SET PC, finish\n");
    assert_eq!(dcpu.reg(0), 0);
    assert_eq!(dcpu.reg(1), 1);
    assert_eq!(dcpu.reg(2), 2);
    assert_eq!(dcpu.pc(), 3);
    assert!(dcpu.finished());
}

#[test]
fn simple_program_skips_the_guarded_store() {
    let dcpu = run_program(
        "SET A, 0x30\nSET [0x1000], 0x20\nSUB A, [0x1000]\nIFN A, 0x10\nSET A, 0xff\n:finish SET PC, finish\n",
    );
    assert_eq!(dcpu.reg(0), 0x10);
    assert_eq!(dcpu.mem(0x1000), 0x20);
    assert_eq!(dcpu.ex(), 0);
}

#[test]
fn label_loop_counts_down_to_zero() {
    let dcpu = run_program("SET A, 0x10\n:loop\nSUB A, 1\nIFN A, 0\nSET PC, loop\n\n:finish SET PC, finish\n");
    assert_eq!(dcpu.reg(0), 0);
    assert!(dcpu.finished());
}

#[test]
fn lower_case_mnemonics_assemble_alike() {
    let upper = assembler::assemble("SET A, 0x30\nJSR sub\n:sub DAT 0x1, \"hi\"\nSET PC, POP\n");
    let lower = assembler::assemble("set a, 0x30\njsr sub\n:sub dat 0x1, \"hi\"\nset pc, pop\n");
    assert!(upper.is_ok());
    assert_eq!(upper, lower);
}

#[test]
fn terminal_firmware_assembles() {
    let source = "\
; Initial screen coord
set I, 0
; FG color idx
set X, 15
; BG color idx
set Y, 0
; Character idx
set A, 0

; Start by initializing the cursor.
jsr set_blink

:loop
  ife [0x9001], 0
  set PC, loop

  ; Head idx
  set B, [0x9000]
  ; Grab element at head.
  set A, [0x9002+B]
  ; Update head idx.
  add B, 1
  mod B, 16
  set [0x9000], B
  ; Decrement size.
  sub [0x9001], 1

  ; Check for a backspace.
  ifn A, 0x10
    set PC, display_char
  jsr del_char
  set PC, loop

  :display_char
    ifl A, 0x20
      set PC, loop
    ifg A, 0x7f
      set PC, loop
    sub A, 0x20
    jsr add_char
    set PC, loop


:add_char
  ;; Build monitor cell bits.
  set J, 0
  bor J, A
  shl X, 12
  bor J, X
  shr X, 12
  shl Y, 8
  bor J, Y
  shr Y, 8

  set [0x8000+I], J
  add I, 1
  jsr set_blink
  set PC, POP


:del_char
  ife I, 0
    set PC, POP
  set [0x8000+I], 0
  sub I, 1
  jsr set_blink
  set PC, POP


:set_blink
  ;; Make the cursor blink in its new position.
  set PUSH, J
  set PUSH, A

  set J, 1
  shl J, 7
  set A, [display_start]
  add A, I
  set [A], J

  set A, POP
  set J, POP
  set PC, POP


; DATA SECTION
:display_start dat 0x8000
:key_buffer_start dat 0x9000
            ";
    let program = assembler::assemble(source).unwrap();
    let mut dcpu = Dcpu::new();
    dcpu.load_program(&program);
    // Put one key, 'A', into the keyboard buffer and let the firmware
    // show it in the first cell of the screen.
    dcpu.set_mem(0x9002, 0x41);
    dcpu.set_mem(0x9001, 1);
    for _ in 0..400 {
        assert!(dcpu.try_tick());
    }
    assert!(!dcpu.finished());
    assert_eq!(dcpu.mem(0x9001), 0);
    assert_eq!(dcpu.mem(0x9000), 1);
    assert_eq!(dcpu.mem(0x8000), 0xf000 | 0x21);
    assert_eq!(dcpu.mem(0x8001), 0x80);
    assert_eq!(dcpu.reg(6), 1);
    assert_eq!(dcpu.sp(), 0xffff);
}

fn ticks(source: &str, count: usize) -> Dcpu {
    let program = assembler::assemble(source).unwrap();
    let mut dcpu = Dcpu::new();
    dcpu.load_program(&program);
    for _ in 0..count {
        assert!(dcpu.try_tick());
    }
    dcpu
}

#[test]
fn set_leaves_the_literal_in_the_register() {
    for (r, name) in ["A", "B", "C", "X", "Y", "Z", "I", "J"].iter().enumerate() {
        for v in [0u32, 1, 30, 31, 255, 0x8000, 0xfffe, 0xffff] {
            let dcpu = ticks(&format!("SET {}, {}", name, v), 1);
            assert_eq!(dcpu.reg(r as u16) as u32, v);
            assert_eq!(dcpu.pc(), if v == 0xffff || v <= 30 { 1 } else { 2 });
            let dcpu = ticks(&format!("SET {}, {:#x}", name, v), 1);
            assert_eq!(dcpu.reg(r as u16) as u32, v);
        }
    }
}

#[test]
fn add_and_sub_excess_from_source() {
    let dcpu = ticks("SET EX, 0\nSET A, 0xFFFF\nADD A, 1\n", 3);
    assert_eq!(dcpu.reg(0), 0);
    assert_eq!(dcpu.ex(), 1);
    let dcpu = ticks("SET A, 0\nSUB A, 1\n", 2);
    assert_eq!(dcpu.reg(0), 0xffff);
    assert_eq!(dcpu.ex(), 0xffff);
}

#[test]
fn a_failed_test_skips_a_two_word_instruction() {
    let source = "IFE A, 5\nSET B, 0x1000\nSET C, 1\n";
    let dcpu = ticks(source, 1);
    assert_eq!(dcpu.pc(), 3);
    assert_eq!(dcpu.reg(1), 0);
    let dcpu = ticks(&format!("SET A, 5\n{}", source), 3);
    assert_eq!(dcpu.reg(1), 0x1000);
    assert_eq!(dcpu.pc(), 4);
}

#[test]
fn jsr_to_a_label() {
    let dcpu = ticks("JSR sub\nSET A, 1\n:halt SET PC, halt\n:sub SET B, 2\nSET PC, POP\n", 1);
    assert_eq!(dcpu.sp(), 0xfffe);
    assert_eq!(dcpu.mem(0xfffe), 2);
    assert_eq!(dcpu.pc(), 5);
    let dcpu = ticks("JSR sub\nSET A, 1\n:halt SET PC, halt\n:sub SET B, 2\nSET PC, POP\n", 5);
    assert_eq!(dcpu.reg(0), 1);
    assert_eq!(dcpu.reg(1), 2);
    assert_eq!(dcpu.sp(), 0xffff);
    assert!(dcpu.finished());
}

#[test]
fn the_halt_idiom_takes_one_tick() {
    let source = "SET A, 1\nSET PC, halt\nSET A, 2\n:halt SET PC, halt\n";
    // The jump to `halt`.
    let dcpu = ticks(source, 2);
    assert_eq!(dcpu.pc(), 4);
    assert!(!dcpu.finished());
    // One more tick.
    let dcpu = ticks(source, 3);
    assert_eq!(dcpu.pc(), 4);
    assert!(dcpu.finished());
    assert_eq!(dcpu.reg(0), 1);
}
