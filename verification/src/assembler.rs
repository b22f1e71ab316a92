//! The assembler: source text in, the program's words or a list of
//! diagnostics out.
//!
//! The first pass reads the source line by line, records where each label
//! stands and what each line holds. The second pass, which runs only if
//! the first found no fault, replaces every label by its address and
//! writes the words.
pub mod laws;
pub mod line;
pub mod operand;
pub mod tokens;

pub use line::fmt_error;
pub use line::BasicInstructionComponents;
pub use line::Line;
pub use line::LineResult;
pub use line::SpecialInstructionComponents;
pub use operand::get_base_type;
pub use operand::get_val_type;
pub use operand::Operand;
pub use operand::ValType;
pub use tokens::tokenize;

use crate::assembler::line::basic_line;
use crate::assembler::line::data_line;
use crate::assembler::line::special_line;
use crate::assembler::line::statement;
use crate::assembler::line::tag_all;
use crate::assembler::line::tagged;
use crate::assembler::line::read_basic_line;
use crate::assembler::line::read_data_line;
use crate::assembler::line::read_special_line;
use crate::assembler::operand::no_label;
use crate::assembler::tokens::strip_comment;
use crate::assembler::tokens::tokens;
use crate::instruction::make_instruction_bits;
use crate::op::SpecialOp;
use crate::symbols::SymbolTable;
use crate::text::chars_of;
use crate::text::find_from;
use crate::text::is_word;
use crate::text::quote;
use crate::text::quoted;
use crate::text::split;
use crate::text::split_at_char;
use crate::text::texts;
use crate::text::views;
use crate::val_type;
use crate::word::wrap;
use vstd::prelude::*;
use vstd::slice::slice_subrange;
use vstd::slice::slice_to_vec;

verus! {

/// The state of an assembly as a mathematical value.
pub struct AssemblyState {
    /// The diagnostics so far, in the order they were found.
    pub errors: Seq<Seq<char>>,
    /// The word offset of each label so far.
    pub labels: Map<Seq<char>, u16>,
    /// The number of words that the lines read so far will take,
    /// modulo 2^16.
    pub word_index: u16,
    /// The words written so far.
    pub program: Seq<u16>,
}

/// The label that a line defines: its first token, if that starts with
/// a colon, without the colon.
pub open spec fn label_of(toks: Seq<Seq<char>>) -> Option<Seq<char>> {
    if toks.len() > 0 && toks[0].len() > 0 && toks[0][0] == ':' {
        Some(toks[0].skip(1))
    } else {
        None
    }
}

/// The diagnostic for a label that is defined a second time.
pub open spec fn label_exists(label: Seq<char>) -> Seq<char> {
    quoted("Label \""@, label) + " already exists"@
}

impl AssemblyState {
    /// The state before the first line.
    pub open spec fn empty() -> AssemblyState {
        AssemblyState {
            errors: Seq::empty(),
            labels: Map::empty(),
            word_index: 0,
            program: Seq::empty(),
        }
    }

    /// What the assembly returns: the program, if there is no diagnostic.
    pub open spec fn outcome(self) -> Result<Seq<u16>, Seq<Seq<char>>> {
        if self.errors.len() == 0 {
            Ok(self.program)
        } else {
            Err(self.errors)
        }
    }

    /// The state after a line was read: either the line counts its words,
    /// or its faults join the diagnostics, each with the line's number.
    pub open spec fn take(self, line_num: nat, read: Result<Line, Seq<Seq<char>>>) -> (
        AssemblyState,
        Option<Line>,
    ) {
        match read {
            Ok(line) => (
                AssemblyState { word_index: wrap(self.word_index + line.words()), ..self },
                Some(line),
            ),
            Err(faults) => (
                AssemblyState { errors: self.errors + tag_all(faults, line_num), ..self },
                None,
            ),
        }
    }

    /// The first pass over one line. The comment is dropped. A label at
    /// the start of the line is entered with the current word offset; if
    /// it is known already, that is the line's fault and nothing more of
    /// the line is read. What follows, if anything, is read as a statement.
    #[verifier::opaque]
    pub open spec fn scan(self, line_num: nat, line: Seq<char>) -> (AssemblyState, Option<Line>) {
        let toks = tokens(strip_comment(line));
        match label_of(toks) {
            Some(label) => if self.labels.contains_key(label) {
                (
                    AssemblyState {
                        errors: self.errors.push(tagged(label_exists(label), line_num)),
                        ..self
                    },
                    None,
                )
            } else {
                let defined = AssemblyState {
                    labels: self.labels.insert(label, self.word_index),
                    ..self
                };
                if toks.len() == 1 {
                    (defined, None)
                } else {
                    defined.take(line_num, statement(toks.skip(1)))
                }
            },
            None => if toks.len() == 0 {
                (self, None)
            } else {
                self.take(line_num, statement(toks))
            },
        }
    }

    /// The second pass over one line: its words join the program, or the
    /// label that it misses joins the diagnostics and the pass ends.
    pub open spec fn append(self, line_num: nat, line: Line) -> (AssemblyState, bool) {
        match line.encode(self.labels) {
            Ok(words) => (AssemblyState { program: self.program + words, ..self }, true),
            Err(e) => (AssemblyState { errors: self.errors.push(tagged(e, line_num)), ..self }, false),
        }
    }
}

/// The state of an assembly.
pub struct AssemblerContext {
    errors: Vec<String>,
    labels: SymbolTable,
    word_index: u16,
    program: Vec<u16>,
}

impl View for AssemblerContext {
    type V = AssemblyState;

    closed spec fn view(&self) -> AssemblyState {
        AssemblyState {
            errors: texts(self.errors@),
            labels: self.labels@,
            word_index: self.word_index,
            program: self.program@,
        }
    }
}

/// What an optional line result holds, as a mathematical value.
pub open spec fn line_of(res: Option<LineResult>) -> Option<Line> {
    match res {
        Some(line) => Some(line@),
        None => None,
    }
}

/// What an assembly returned, as a mathematical value.
pub open spec fn outcome_of(res: Result<Vec<u16>, Vec<String>>) -> Result<
    Seq<u16>,
    Seq<Seq<char>>,
> {
    match res {
        Ok(program) => Ok(program@),
        Err(errors) => Err(texts(errors@)),
    }
}

impl AssemblerContext {
    /// The state before the first line.
    pub fn new() -> (context: AssemblerContext)
        ensures
            context@ == AssemblyState::empty(),
    {
        let context = AssemblerContext {
            errors: Vec::new(),
            labels: SymbolTable::new(),
            word_index: 0,
            program: Vec::new(),
        };
        proof {
            assert(texts(context.errors@) =~= Seq::<Seq<char>>::empty());
        }
        context
    }

    /// Ends the assembly: the program, if there is no diagnostic.
    pub fn finish(self) -> (res: Result<Vec<u16>, Vec<String>>)
        ensures
            outcome_of(res) == self@.outcome(),
    {
        if self.errors.len() == 0 {
            Ok(self.program)
        } else {
            Err(self.errors)
        }
    }

    /// Adds a diagnostic, with the number of its line before it.
    fn report(&mut self, error: &str, line_num: usize)
        ensures
            final(self)@ == (AssemblyState {
                errors: old(self)@.errors.push(tagged(error@, line_num as nat)),
                ..old(self)@
            }),
    {
        self.errors.push(fmt_error(error, line_num));
        proof {
            assert(texts(self.errors@) =~= texts(old(self).errors@).push(
                tagged(error@, line_num as nat),
            ));
        }
    }

    /// Adds the faults of a line to the diagnostics.
    fn report_all(&mut self, faults: &Vec<String>, line_num: usize)
        ensures
            final(self)@ == (AssemblyState {
                errors: old(self)@.errors + tag_all(texts(faults@), line_num as nat),
                ..old(self)@
            }),
    {
        let mut i: usize = 0;
        proof {
            assert(old(self)@.errors + tag_all(texts(faults@), line_num as nat).take(0) =~= old(
                self,
            )@.errors);
        }
        while i < faults.len()
            invariant
                i <= faults.len(),
                self@ == (AssemblyState {
                    errors: old(self)@.errors + tag_all(texts(faults@), line_num as nat).take(
                        i as int,
                    ),
                    ..old(self)@
                }),
            decreases faults.len() - i,
        {
            let ghost before = self@.errors;
            self.report(faults[i].as_str(), line_num);
            proof {
                let all = tag_all(texts(faults@), line_num as nat);
                assert(before.push(all[i as int]) =~= old(self)@.errors + all.take(i + 1));
            }
            i += 1;
        }
        proof {
            let all = tag_all(texts(faults@), line_num as nat);
            assert(all.take(i as int) =~= all);
        }
    }

    /// Counts the words of a line that was read.
    fn count(&mut self, words: usize)
        ensures
            final(self)@ == (AssemblyState {
                word_index: wrap(old(self)@.word_index + words),
                ..old(self)@
            }),
    {
        self.word_index = ((self.word_index as usize + words % 0x1_0000) % 0x1_0000) as u16;
    }

    /// The first pass over one line.
    pub fn process_line(&mut self, line_num: usize, line: &[char]) -> (res: Option<LineResult>)
        ensures
            (final(self)@, line_of(res)) == old(self)@.scan(line_num as nat, line@),
            res matches Some(line) ==> line@.wf(),
    {
        reveal(AssemblyState::scan);
        // Discard everything after a comment.
        let comment = find_from(line, 0, ';');
        proof {
            assert(line@.skip(0) =~= line@);
        }
        let line = slice_subrange(line, 0, comment);

        let tokens = tokenize(line);
        proof {
            assert(tokens@.len() == views(tokens@).len());
        }
        if tokens.len() == 0 {
            // Empty line
            return None;
        }
        proof {
            assert(views(tokens@)[0] == tokens@[0]@);
        }
        // Check if the line begins with a label.
        if tokens[0].len() > 0 && tokens[0][0] == ':' {
            // If it does, process it and remove it from `tokens`.
            let label = slice_subrange(tokens[0], 1, tokens[0].len());
            if self.labels.contains_key(label) {
                let mut e = quote("Label \"", label);
                e.append(" already exists");
                self.report(e.as_str(), line_num);
                return None;
            }
            let word_index = self.word_index;
            self.labels.insert(slice_to_vec(label), word_index);
            if tokens.len() == 1 {
                return None;
            }
            let rest = slice_subrange(tokens.as_slice(), 1, tokens.len());
            proof {
                assert(views(rest@) =~= views(tokens@).skip(1));
            }
            self.process_statement(rest, line_num)
        } else {
            self.process_statement(tokens.as_slice(), line_num)
        }
    }

    /// Reads what a line holds behind its label.
    fn process_statement(&mut self, tokens: &[&[char]], line_num: usize) -> (res: Option<
        LineResult,
    >)
        requires
            tokens.len() >= 1,
        ensures
            (final(self)@, line_of(res)) == old(self)@.take(
                line_num as nat,
                statement(views(tokens@)),
            ),
            res matches Some(line) ==> line@.wf(),
    {
        proof {
            assert(views(tokens@)[0] == tokens@[0]@);
        }
        if is_word(tokens[0], "DAT") {
            // Data lines have different syntax than other instructions.
            match self.process_data_line(tokens, line_num) {
                Some(d) => Some(LineResult::Data(d)),
                None => None,
            }
        } else if SpecialOp::from_name(tokens[0]).is_some() {
            match self.process_special_line(tokens, line_num) {
                Some(ic) => Some(LineResult::SpecialInstruction(ic)),
                None => None,
            }
        } else {
            // Line contains a basic instruction.
            match self.process_basic_line(tokens, line_num) {
                Some(ic) => Some(LineResult::BasicInstruction(ic)),
                None => None,
            }
        }
    }

    /// Reads a data line, whose first token is `DAT`.
    pub fn process_data_line(&mut self, tokens: &[&[char]], line_num: usize) -> (res: Option<
        Vec<u16>,
    >)
        requires
            tokens.len() >= 1,
        ensures
            (
                final(self)@,
                match res {
                    Some(words) => Some(Line::Data(words@)),
                    None => None,
                },
            ) == old(self)@.take(line_num as nat, data_line(views(tokens@))),
    {
        match read_data_line(tokens) {
            Ok(data) => {
                self.count(data.len());
                Some(data)
            },
            Err(faults) => {
                self.report_all(&faults, line_num);
                None
            },
        }
    }

    /// Reads a line that starts with the name of a special opcode.
    pub fn process_special_line(&mut self, tokens: &[&[char]], line_num: usize) -> (res: Option<
        SpecialInstructionComponents,
    >)
        ensures
            (
                final(self)@,
                match res {
                    Some(instr) => Some(instr@),
                    None => None,
                },
            ) == old(self)@.take(line_num as nat, special_line(views(tokens@))),
            res matches Some(instr) ==> instr@.wf(),
    {
        match read_special_line(tokens) {
            Ok(instr) => {
                self.count(1 + instr.a.num_words() as usize);
                Some(instr)
            },
            Err(faults) => {
                self.report_all(&faults, line_num);
                None
            },
        }
    }

    /// Reads a line that holds a basic instruction.
    pub fn process_basic_line(&mut self, tokens: &[&[char]], line_num: usize) -> (res: Option<
        BasicInstructionComponents,
    >)
        ensures
            (
                final(self)@,
                match res {
                    Some(instr) => Some(instr@),
                    None => None,
                },
            ) == old(self)@.take(line_num as nat, basic_line(views(tokens@))),
            res matches Some(instr) ==> instr@.wf(),
    {
        match read_basic_line(tokens) {
            Ok(instr) => {
                self.count(1 + instr.b.num_words() as usize + instr.a.num_words() as usize);
                Some(instr)
            },
            Err(faults) => {
                self.report_all(&faults, line_num);
                None
            },
        }
    }

    /// The word offset of a label, or the diagnostic that it is missing.
    fn lookup(&self, label: &Vec<char>) -> (res: Result<u16, String>)
        ensures
            match res {
                Ok(offset) => self@.labels.contains_key(label@) && offset == self@.labels[label@],
                Err(e) => !self@.labels.contains_key(label@) && e@ == no_label(label@),
            },
    {
        match self.labels.get(label.as_slice()) {
            Some(v) => Ok(v),
            None => {
                let mut e = quote("No label \"", label.as_slice());
                e.append(" found");
                Err(e)
            },
        }
    }

    /// Converts from the assembler's value types into the emulator's
    /// value types, and appends to `data_words` the word that the operand
    /// adds to the instruction, if any.
    pub fn process_val_type(&self, val_type: &ValType, data_words: &mut Vec<u16>) -> (res: Result<
        val_type::ValType,
        String,
    >)
        requires
            val_type@.wf(),
        ensures
            match res {
                Ok(mode) => val_type@.resolve(self@.labels) matches Ok((m, words)) && m == mode
                    && final(data_words)@ == old(data_words)@ + words && mode.wf(),
                Err(e) => val_type@.resolve(self@.labels) == Err::<
                    (val_type::ValType, Seq<u16>),
                    Seq<char>,
                >(e@) && final(data_words)@ == old(data_words)@,
            },
    {
        proof {
            assert(old(data_words)@ + Seq::<u16>::empty() =~= old(data_words)@);
        }
        let ghost before = data_words@;
        let (mode, word): (val_type::ValType, Option<u16>) = match val_type {
            ValType::Register(r) => (val_type::ValType::Register(*r), None),
            ValType::RegisterDeref(r) => (val_type::ValType::RegisterDeref(*r), None),
            ValType::NextWordRegisterDeref(v, r) => (
                val_type::ValType::RegisterNextWordDeref(*r),
                Some(*v),
            ),
            ValType::Push => (val_type::ValType::Push, None),
            ValType::Pop => (val_type::ValType::Pop, None),
            ValType::Peek => (val_type::ValType::Peek, None),
            ValType::Pick => (val_type::ValType::Pick, Some(0)),
            ValType::StackPointer => (val_type::ValType::StackPointer, None),
            ValType::ProgramCounter => (val_type::ValType::ProgramCounter, None),
            ValType::Extra => (val_type::ValType::Extra, None),
            ValType::NextWordDeref(v) => (val_type::ValType::NextWordDeref, Some(*v)),
            ValType::NextWord(v) => (val_type::ValType::NextWord, Some(*v)),
            ValType::Literal(v) => (val_type::ValType::Literal(*v), None),
            ValType::Label(s) => match self.lookup(s) {
                Ok(offset) => (val_type::ValType::NextWord, Some(offset)),
                Err(e) => {
                    return Err(e);
                },
            },
            ValType::LabelDeref(s) => match self.lookup(s) {
                Ok(offset) => (val_type::ValType::NextWordDeref, Some(offset)),
                Err(e) => {
                    return Err(e);
                },
            },
            ValType::LabelRegisterDeref(s, r) => match self.lookup(s) {
                Ok(offset) => (val_type::ValType::RegisterNextWordDeref(*r), Some(offset)),
                Err(e) => {
                    return Err(e);
                },
            },
            ValType::LabelNextWordDeref(s, v) => match self.lookup(s) {
                Ok(offset) => (val_type::ValType::NextWordDeref, Some(offset.wrapping_add(*v))),
                Err(e) => {
                    return Err(e);
                },
            },
        };
        match word {
            Some(w) => {
                data_words.push(w);
                proof {
                    assert(data_words@ =~= before + seq![w]);
                }
            },
            None => {},
        }
        Ok(mode)
    }

    /// Appends words to the program.
    fn append_words(&mut self, words: &Vec<u16>)
        ensures
            final(self)@ == (AssemblyState { program: old(self)@.program + words@, ..old(self)@ }),
    {
        let mut i: usize = 0;
        proof {
            assert(old(self)@.program + words@.take(0) =~= old(self)@.program);
        }
        while i < words.len()
            invariant
                i <= words.len(),
                self@ == (AssemblyState {
                    program: old(self)@.program + words@.take(i as int),
                    ..old(self)@
                }),
            decreases words.len() - i,
        {
            self.program.push(words[i]);
            proof {
                assert(self.program@ =~= old(self)@.program + words@.take(i + 1));
            }
            i += 1;
        }
        proof {
            assert(words@.take(i as int) =~= words@);
        }
    }

    /// The second pass over a data line: its words join the program.
    pub fn append_data(&mut self, words: &Vec<u16>)
        ensures
            final(self)@ == (AssemblyState { program: old(self)@.program + words@, ..old(self)@ }),
    {
        self.append_words(words);
    }

    /// The second pass over a special instruction: writes its words, or
    /// reports the label that it misses.
    pub fn append_special_instruction(
        &mut self,
        instr: &SpecialInstructionComponents,
        line_num: usize,
    ) -> (done: bool)
        requires
            instr@.wf(),
        ensures
            (final(self)@, done) == old(self)@.append(line_num as nat, instr@),
    {
        let mut data_words: Vec<u16> = Vec::new();
        let a_val = match self.process_val_type(&instr.a, &mut data_words) {
            Ok(mode) => mode,
            Err(e) => {
                self.report(e.as_str(), line_num);
                return false;
            },
        };

        let op_code = instr.op.op_code();
        let a_code = a_val.val_code();
        // Special instructions have their lower 5 bits unset, and their
        // opcode where a basic instruction has operand `b`.
        let instruction = make_instruction_bits(a_code, op_code, 0x0);
        let ghost before = self@.program;
        self.program.push(instruction);
        self.append_words(&data_words);
        proof {
            assert(self@.program =~= before + (seq![instruction] + data_words@));
        }
        true
    }

    /// The second pass over a basic instruction: writes its words, or
    /// reports the label that it misses.
    pub fn append_normal_instruction(
        &mut self,
        instr: &BasicInstructionComponents,
        line_num: usize,
    ) -> (done: bool)
        requires
            instr@.wf(),
        ensures
            (final(self)@, done) == old(self)@.append(line_num as nat, instr@),
    {
        let mut data_words: Vec<u16> = Vec::new();
        let b_val = match self.process_val_type(&instr.b, &mut data_words) {
            Ok(mode) => mode,
            Err(e) => {
                self.report(e.as_str(), line_num);
                return false;
            },
        };
        let ghost b_words = data_words@;
        let a_val = match self.process_val_type(&instr.a, &mut data_words) {
            Ok(mode) => mode,
            Err(e) => {
                self.report(e.as_str(), line_num);
                return false;
            },
        };

        let op_code = instr.op.op_code();
        let b_code = b_val.val_code();
        let a_code = a_val.val_code();
        let instruction = make_instruction_bits(a_code, b_code, op_code);
        let ghost before = self@.program;
        self.program.push(instruction);
        self.append_words(&data_words);
        proof {
            let a_words = instr.a@.resolve(self@.labels)->Ok_0.1;
            assert(self@.program =~= before + (seq![instruction] + b_words + a_words));
        }
        true
    }
}

/// A line that the first pass read, with its number.
pub struct ReadLine {
    pub line_num: usize,
    pub result: LineResult,
}

/// The lines that the first pass read, each with its number, as
/// mathematical values.
pub open spec fn read_lines(lines: Seq<ReadLine>) -> Seq<(nat, Line)> {
    Seq::new(lines.len(), |i: int| (lines[i].line_num as nat, lines[i].result@))
}

/// The first pass over the first `n` lines: the state it ends in, and
/// the lines that hold an instruction or data, each with its number.
pub open spec fn first_pass(lines: Seq<Seq<char>>, n: int) -> (AssemblyState, Seq<(nat, Line)>)
    decreases n,
{
    if n <= 0 {
        (AssemblyState::empty(), Seq::empty())
    } else {
        let (context, read) = first_pass(lines, n - 1);
        let (next, line) = context.scan((n - 1) as nat, lines[n - 1]);
        (
            next,
            match line {
                Some(l) => read.push(((n - 1) as nat, l)),
                None => read,
            },
        )
    }
}

/// The second pass over the first `n` of the lines that were read: the
/// state it ends in, and whether it got that far without a fault. It
/// ends at the first line that misses a label.
pub open spec fn second_pass(context: AssemblyState, read: Seq<(nat, Line)>, n: int) -> (
    AssemblyState,
    bool,
)
    decreases n,
{
    if n <= 0 {
        (context, true)
    } else {
        let (before, done) = second_pass(context, read, n - 1);
        if done {
            before.append(read[n - 1].0, read[n - 1].1)
        } else {
            (before, false)
        }
    }
}

/// What assembling a source text gives. The first pass reads every line
/// and collects every fault; if there is one, these are the result. Else
/// the second pass writes the program, against the labels of the whole
/// source; the first label that it misses is then the one diagnostic.
pub open spec fn assembled(source: Seq<char>) -> Result<Seq<u16>, Seq<Seq<char>>> {
    let lines = split(source, '\n');
    let (context, read) = first_pass(lines, lines.len() as int);
    if context.errors.len() > 0 {
        Err(context.errors)
    } else {
        second_pass(context, read, read.len() as int).0.outcome()
    }
}

/// Once the second pass has met a fault, it goes no further.
pub proof fn lemma_second_pass_stops(context: AssemblyState, read: Seq<(nat, Line)>, n: int, m: int)
    requires
        0 <= n <= m,
        !second_pass(context, read, n).1,
    ensures
        second_pass(context, read, m) == second_pass(context, read, n),
    decreases m - n,
{
    if n < m {
        lemma_second_pass_stops(context, read, n, m - 1);
    }
}

/// Assembles a source text: the words of the program, or every
/// diagnostic, each with the number of its line.
pub fn assemble(source: &str) -> (res: Result<Vec<u16>, Vec<String>>)
    ensures
        outcome_of(res) == assembled(source@),
{
    // First, we do a pre-pass to collect intermediate values, and wait
    // until we have all label names.
    let chars = chars_of(source);
    let lines = split_at_char(chars.as_slice(), '\n');
    let mut line_results: Vec<ReadLine> = Vec::new();
    let mut context = AssemblerContext::new();
    let mut line_num: usize = 0;
    proof {
        assert(lines@.len() == views(lines@).len());
        assert(read_lines(line_results@) =~= Seq::<(nat, Line)>::empty());
    }
    while line_num < lines.len()
        invariant
            line_num <= lines.len(),
            (context@, read_lines(line_results@)) == first_pass(views(lines@), line_num as int),
            forall|k: int| 0 <= k < line_results@.len() ==> (#[trigger] line_results@[k]).result@.wf(),
        decreases lines.len() - line_num,
    {
        let ghost before = read_lines(line_results@);
        match context.process_line(line_num, lines[line_num]) {
            Some(lr) => {
                line_results.push(ReadLine { line_num, result: lr });
                proof {
                    assert(read_lines(line_results@) =~= before.push((line_num as nat, lr@)));
                }
            },
            None => (),
        }
        line_num += 1;
    }

    if context.errors.len() != 0 {
        return Err(context.errors);
    }
    // Now, we generate the program words.

    let ghost scanned = context@;
    let ghost read = read_lines(line_results@);
    let mut k: usize = 0;
    while k < line_results.len()
        invariant
            k <= line_results.len(),
            read == read_lines(line_results@),
            (context@, true) == second_pass(scanned, read, k as int),
            views(lines@) == split(source@, '\n'),
            (scanned, read) == first_pass(views(lines@), lines@.len() as int),
            scanned.errors.len() == 0,
            forall|k: int| 0 <= k < line_results@.len() ==> (#[trigger] line_results@[k]).result@.wf(),
        decreases line_results.len() - k,
    {
        let entry = &line_results[k];
        let done = match &entry.result {
            LineResult::BasicInstruction(instr) => context.append_normal_instruction(
                instr,
                entry.line_num,
            ),
            LineResult::SpecialInstruction(instr) => context.append_special_instruction(
                instr,
                entry.line_num,
            ),
            LineResult::Data(d) => {
                context.append_data(d);
                true
            },
        };
        if !done {
            proof {
                lemma_second_pass_stops(scanned, read, k + 1, read.len() as int);
            }
            return context.finish();
        }
        k += 1;
    }

    context.finish()
}

} // verus!
