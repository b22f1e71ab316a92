//! What holds of every assembly.
use crate::assembler::first_pass;
use crate::assembler::label_exists;
use crate::assembler::label_of;
use crate::assembler::lemma_second_pass_stops;
use crate::assembler::second_pass;
use crate::assembler::line::statement;
use crate::assembler::tokens::strip_comment;
use crate::assembler::line::tag_all;
use crate::assembler::line::tagged;
use crate::assembler::tokens::tokens;
use crate::assembler::AssemblyState;
use crate::assembler::Line;
use crate::assembler::Operand;
use crate::instruction::lemma_decode_encode;
use crate::instruction::valid_word;
use crate::instruction::BasicInstruction;
use crate::instruction::Instruction;
use crate::instruction::SpecialInstruction;
use crate::word::wrap;
use vstd::prelude::*;

verus! {

/// The faults of a statement, each with the number of its line.
pub open spec fn statement_faults(read: Result<Line, Seq<Seq<char>>>, line_num: nat) -> Seq<
    Seq<char>,
> {
    match read {
        Ok(_) => Seq::empty(),
        Err(faults) => tag_all(faults, line_num),
    }
}

/// The diagnostics of one line: that its label is known already, or
/// else the faults of its statement. Only the first depends on the
/// lines before.
pub open spec fn line_faults(context: AssemblyState, line_num: nat, line: Seq<char>) -> Seq<
    Seq<char>,
> {
    let toks = tokens(strip_comment(line));
    match label_of(toks) {
        Some(label) => if context.labels.contains_key(label) {
            seq![tagged(label_exists(label), line_num)]
        } else if toks.len() == 1 {
            Seq::empty()
        } else {
            statement_faults(statement(toks.skip(1)), line_num)
        },
        None => if toks.len() == 0 {
            Seq::empty()
        } else {
            statement_faults(statement(toks), line_num)
        },
    }
}

/// The number of words that the lines read take.
pub open spec fn total_words(read: Seq<(nat, Line)>, n: int) -> int
    decreases n,
{
    if n <= 0 {
        0
    } else {
        total_words(read, n - 1) + read[n - 1].1.words()
    }
}

/// Reading a line adds the line's diagnostics behind those found before,
/// counts the words of what the line holds, and writes no word. It
/// enters the line's label, if that is new, and touches no other.
pub proof fn lemma_scan_adds_faults(context: AssemblyState, line_num: nat, line: Seq<char>)
    ensures
        context.scan(line_num, line).0.errors == context.errors + line_faults(
            context,
            line_num,
            line,
        ),
        context.scan(line_num, line).0.program == context.program,
        context.scan(line_num, line).0.word_index == wrap(
            context.word_index + match context.scan(line_num, line).1 {
                Some(l) => l.words(),
                None => 0,
            },
        ),
        context.scan(line_num, line).0.labels == match label_of(tokens(strip_comment(line))) {
            Some(label) => if context.labels.contains_key(label) {
                context.labels
            } else {
                context.labels.insert(label, context.word_index)
            },
            None => context.labels,
        },
        forall|k: int|
            0 <= k < line_faults(context, line_num, line).len() ==> exists|e: Seq<char>|
                #[trigger] line_faults(context, line_num, line)[k] == tagged(e, line_num),
{
    reveal(AssemblyState::scan);
    let toks = tokens(strip_comment(line));
    let faults = line_faults(context, line_num, line);
    assert(context.scan(line_num, line).0.errors =~= context.errors + faults);
    assert forall|k: int| 0 <= k < faults.len() implies exists|e: Seq<char>| #[trigger] faults[k]
        == tagged(e, line_num) by {
        match label_of(toks) {
            Some(label) => {
                if context.labels.contains_key(label) {
                    assert(faults[k] == tagged(label_exists(label), line_num));
                } else {
                    let read = statement(toks.skip(1));
                    assert(faults[k] == tagged(read->Err_0[k], line_num));
                }
            },
            None => {
                let read = statement(toks);
                assert(faults[k] == tagged(read->Err_0[k], line_num));
            },
        }
    }
}

/// The first pass reads on behind a fault: the diagnostics of line `i`
/// stand in the list that the pass ends with, behind those of every
/// line before it, whatever the lines behind it hold.
pub proof fn lemma_every_fault_is_reported(lines: Seq<Seq<char>>, i: int, n: int)
    requires
        0 <= i < n <= lines.len(),
    ensures
        ({
            let before = first_pass(lines, i).0;
            let own = line_faults(before, i as nat, lines[i]);
            let found = first_pass(lines, n).0.errors;
            &&& before.errors.len() + own.len() <= found.len()
            &&& found.subrange(0, before.errors.len() as int) == before.errors
            &&& found.subrange(before.errors.len() as int, (before.errors.len() + own.len()) as int) == own
        }),
    decreases n - i,
{
    let before = first_pass(lines, i).0;
    let own = line_faults(before, i as nat, lines[i]);
    lemma_scan_adds_faults(before, i as nat, lines[i]);
    if n == i + 1 {
        let found = first_pass(lines, n).0.errors;
        assert(found.subrange(0, before.errors.len() as int) =~= before.errors);
        assert(found.subrange(before.errors.len() as int, (before.errors.len() + own.len()) as int) =~= own);
    } else {
        lemma_every_fault_is_reported(lines, i, n - 1);
        let pre = first_pass(lines, n - 1).0;
        lemma_scan_adds_faults(pre, (n - 1) as nat, lines[n - 1]);
        let found = first_pass(lines, n).0.errors;
        assert(found.subrange(0, before.errors.len() as int) =~= pre.errors.subrange(
            0,
            before.errors.len() as int,
        ));
        assert(found.subrange(before.errors.len() as int, (before.errors.len() + own.len()) as int)
            =~= pre.errors.subrange(before.errors.len() as int, (before.errors.len() + own.len()) as int));
    }
}

/// The first pass writes no word, and its word offset is the number of
/// words that the lines it read take, modulo 2^16.
pub proof fn lemma_first_pass_counts_words(lines: Seq<Seq<char>>, n: int)
    requires
        0 <= n <= lines.len(),
    ensures
        first_pass(lines, n).0.program == Seq::<u16>::empty(),
        first_pass(lines, n).0.word_index == wrap(
            total_words(first_pass(lines, n).1, first_pass(lines, n).1.len() as int),
        ),
    decreases n,
{
    if n > 0 {
        lemma_first_pass_counts_words(lines, n - 1);
        let (context, read) = first_pass(lines, n - 1);
        let (next, line) = context.scan((n - 1) as nat, lines[n - 1]);
        lemma_scan_adds_faults(context, (n - 1) as nat, lines[n - 1]);
        match line {
            Some(l) => {
                let more = read.push(((n - 1) as nat, l));
                lemma_total_words_prefix(more, read, read.len() as int);
            },
            None => {},
        }
    }
}

/// The count over the first `n` lines depends on those lines only.
proof fn lemma_total_words_prefix(longer: Seq<(nat, Line)>, shorter: Seq<(nat, Line)>, n: int)
    requires
        0 <= n <= shorter.len() <= longer.len(),
        forall|k: int| 0 <= k < n ==> longer[k] == shorter[k],
    ensures
        total_words(longer, n) == total_words(shorter, n),
    decreases n,
{
    if n > 0 {
        lemma_total_words_prefix(longer, shorter, n - 1);
    }
}

/// A label stands for the word offset of the line that defines it,
/// whether the lines that use it come before that line or behind it:
/// once the first pass has ended without a fault, the symbol table holds
/// for the label of line `i` the word offset that the pass had reached
/// when it came to line `i`.
pub proof fn lemma_label_stands_for_its_offset(lines: Seq<Seq<char>>, i: int, n: int)
    requires
        0 <= i < n <= lines.len(),
        first_pass(lines, n).0.errors.len() == 0,
        label_of(tokens(strip_comment(lines[i]))) is Some,
    ensures
        ({
            let label = label_of(tokens(strip_comment(lines[i])))->0;
            &&& first_pass(lines, n).0.labels.contains_key(label)
            &&& first_pass(lines, n).0.labels[label] == first_pass(lines, i).0.word_index
        }),
    decreases n - i,
{
    let pre = first_pass(lines, n - 1).0;
    lemma_scan_adds_faults(pre, (n - 1) as nat, lines[n - 1]);
    if n > i + 1 {
        lemma_label_stands_for_its_offset(lines, i, n - 1);
    }
}

/// The words that a line writes are as many as the first pass counted
/// for it.
pub proof fn lemma_encode_len(line: Line, labels: Map<Seq<char>, u16>)
    requires
        line.encode(labels) is Ok,
    ensures
        line.encode(labels)->Ok_0.len() == line.words(),
{
    match line {
        Line::Basic { op, b, a } => {
            lemma_resolve_len(b, labels);
            lemma_resolve_len(a, labels);
        },
        Line::Special { op, a } => {
            lemma_resolve_len(a, labels);
        },
        Line::Data(_) => {},
    }
}

/// An operand adds a word exactly if the first pass counted one for it,
/// and exactly if the processor will read one for its addressing mode.
pub proof fn lemma_resolve_len(operand: Operand, labels: Map<Seq<char>, u16>)
    requires
        operand.resolve(labels) is Ok,
    ensures
        operand.resolve(labels)->Ok_0.1.len() == operand.words(),
        operand.resolve(labels)->Ok_0.0.takes_word() == operand.takes_word(),
        operand.wf() ==> operand.resolve(labels)->Ok_0.0.wf(),
{
}

/// While the second pass meets no fault, the program is as long as the
/// first pass counted: each line starts at the word offset that a label
/// in front of it stands for.
pub proof fn lemma_second_pass_len(context: AssemblyState, read: Seq<(nat, Line)>, n: int)
    requires
        0 <= n <= read.len(),
        second_pass(context, read, n).1,
    ensures
        second_pass(context, read, n).0.program.len() == context.program.len() + total_words(
            read,
            n,
        ),
        second_pass(context, read, n).0.labels == context.labels,
        second_pass(context, read, n).0.errors == context.errors,
    decreases n,
{
    if n > 0 {
        lemma_second_pass_len(context, read, n - 1);
        let before = second_pass(context, read, n - 1).0;
        lemma_encode_len(read[n - 1].1, before.labels);
    }
}

/// The lines that the first pass has read stay as they are while it
/// reads on.
pub proof fn lemma_read_lines_grow(lines: Seq<Seq<char>>, i: int, n: int)
    requires
        0 <= i <= n <= lines.len(),
    ensures
        first_pass(lines, i).1.len() <= first_pass(lines, n).1.len(),
        forall|k: int|
            0 <= k < first_pass(lines, i).1.len() ==> first_pass(lines, n).1[k] == first_pass(
                lines,
                i,
            ).1[k],
    decreases n - i,
{
    if i < n {
        lemma_read_lines_grow(lines, i, n - 1);
    }
}

/// A label stands for the address of the line behind it: once both
/// passes have ended without a fault, the label of line `i` stands for
/// the length that the program had when the second pass came to the
/// first instruction or data at or behind line `i`, modulo 2^16.
pub proof fn lemma_label_points_at_its_line(lines: Seq<Seq<char>>, i: int)
    requires
        0 <= i < lines.len(),
        first_pass(lines, lines.len() as int).0.errors.len() == 0,
        second_pass(
            first_pass(lines, lines.len() as int).0,
            first_pass(lines, lines.len() as int).1,
            first_pass(lines, lines.len() as int).1.len() as int,
        ).1,
        label_of(tokens(strip_comment(lines[i]))) is Some,
    ensures
        ({
            let (context, read) = first_pass(lines, lines.len() as int);
            let label = label_of(tokens(strip_comment(lines[i])))->0;
            let read_before = first_pass(lines, i).1.len() as int;
            &&& context.labels.contains_key(label)
            &&& context.labels[label] == wrap(
                second_pass(context, read, read_before).0.program.len() as int,
            )
        }),
{
    let n = lines.len() as int;
    let (context, read) = first_pass(lines, n);
    let read_before = first_pass(lines, i).1.len() as int;
    lemma_label_stands_for_its_offset(lines, i, n);
    lemma_first_pass_counts_words(lines, i);
    lemma_first_pass_counts_words(lines, n);
    lemma_read_lines_grow(lines, i, n);
    lemma_total_words_prefix(read, first_pass(lines, i).1, read_before);
    if !second_pass(context, read, read_before).1 {
        lemma_second_pass_stops(context, read, read_before, read.len() as int);
    }
    lemma_second_pass_len(context, read, read_before);
}

/// The instruction that a line of source stands for, once its labels
/// are resolved.
pub open spec fn instruction_of(line: Line, labels: Map<Seq<char>, u16>) -> Instruction {
    match line {
        Line::Basic { op, b, a } => Instruction::Basic(
            BasicInstruction { op, a: a.resolve(labels)->Ok_0.0, b: b.resolve(labels)->Ok_0.0 },
        ),
        Line::Special { op, a } => Instruction::Special(
            SpecialInstruction { op, a: a.resolve(labels)->Ok_0.0 },
        ),
        Line::Data(_) => arbitrary(),
    }
}

/// What the assembler writes for an instruction, the processor reads
/// back: the first word decodes to the opcode and the addressing modes
/// of the line, and the line takes as many words as the processor will
/// move past. This holds where each operand can stand in its field: no
/// `PUSH` as operand `a`, no `POP` and no number from minus one to 30
/// as operand `b`.
pub proof fn lemma_line_decodes(line: Line, labels: Map<Seq<char>, u16>)
    requires
        line.wf(),
        !(line is Data),
        line.encode(labels) is Ok,
        instruction_of(line, labels).encodable(),
    ensures
        valid_word(line.encode(labels)->Ok_0[0]),
        Instruction::of_word(line.encode(labels)->Ok_0[0]) == instruction_of(line, labels),
        line.encode(labels)->Ok_0.len() == instruction_of(line, labels).len(),
{
    lemma_encode_len(line, labels);
    match line {
        Line::Basic { op, b, a } => {
            lemma_resolve_len(b, labels);
            lemma_resolve_len(a, labels);
        },
        Line::Special { op, a } => {
            lemma_resolve_len(a, labels);
        },
        Line::Data(_) => {},
    }
    lemma_decode_encode(instruction_of(line, labels));
}

} // verus!
