//! Lines: what a line of source holds behind its label, and the words it
//! stands for.
use crate::assembler::operand::get_val_type;
use crate::assembler::operand::lemma_operand_wf;
use crate::assembler::operand::operand;
use crate::assembler::operand::Operand;
use crate::assembler::operand::ValType;
use crate::instruction::pack;
use crate::literal::literal_of;
use crate::literal::parse;
use crate::op::BasicOp;
use crate::op::SpecialOp;
use crate::text::concat;
use crate::text::decimal;
use crate::text::lemma_split_len;
use crate::text::push_decimal;
use crate::text::quote;
use crate::text::quoted;
use crate::text::split;
use crate::text::split_at_char;
use crate::text::texts;
use crate::text::to_upper;
use crate::text::views;
use vstd::prelude::*;
use vstd::slice::slice_subrange;

verus! {

/// What a line of source holds, as a mathematical value.
#[allow(inconsistent_fields)]
pub enum Line {
    /// An opcode with two operands.
    Basic { op: BasicOp, b: Operand, a: Operand },
    /// An opcode with one operand.
    Special { op: SpecialOp, a: Operand },
    /// Words that stand in the program as they are.
    Data(Seq<u16>),
}

impl Line {
    /// The number of words the line adds to the program.
    pub open spec fn words(self) -> int {
        match self {
            Line::Basic { op, b, a } => 1 + b.words() + a.words(),
            Line::Special { op, a } => 1 + a.words(),
            Line::Data(words) => words.len() as int,
        }
    }

    /// The operands of the line name registers that exist, and its
    /// inline literals fit the operand field.
    pub open spec fn wf(self) -> bool {
        match self {
            Line::Basic { op, b, a } => b.wf() && a.wf(),
            Line::Special { op, a } => a.wf(),
            Line::Data(_) => true,
        }
    }
}

/// Intermediate data used to create a basic instruction.
#[derive(Debug, PartialEq, Eq)]
pub struct BasicInstructionComponents {
    pub op: BasicOp,
    pub b: ValType,
    pub a: ValType,
}

/// Intermediate data used to create a special instruction.
#[derive(Debug, PartialEq, Eq)]
pub struct SpecialInstructionComponents {
    pub op: SpecialOp,
    pub a: ValType,
}

/// Result from processing a single line of a program.
#[derive(Debug, PartialEq, Eq)]
pub enum LineResult {
    BasicInstruction(BasicInstructionComponents),
    SpecialInstruction(SpecialInstructionComponents),
    Data(Vec<u16>),
}

impl View for BasicInstructionComponents {
    type V = Line;

    open spec fn view(&self) -> Line {
        Line::Basic { op: self.op, b: self.b@, a: self.a@ }
    }
}

impl View for SpecialInstructionComponents {
    type V = Line;

    open spec fn view(&self) -> Line {
        Line::Special { op: self.op, a: self.a@ }
    }
}

impl View for LineResult {
    type V = Line;

    open spec fn view(&self) -> Line {
        match self {
            LineResult::BasicInstruction(i) => i@,
            LineResult::SpecialInstruction(i) => i@,
            LineResult::Data(words) => Line::Data(words@),
        }
    }
}

/// Whether a character may stand in a string of a data line: the
/// printable ASCII characters, 0x20 to 0x7e.
pub open spec fn is_printable(c: char) -> bool {
    0x20 <= c as u32 <= 0x7e
}

/// The first byte of the character in UTF-8, which is how the source
/// holds it.
pub open spec fn leading_byte(c: char) -> nat {
    if (c as u32) < 0x80 {
        c as nat
    } else if (c as u32) < 0x800 {
        (0xc0 + (c as u32) / 0x40) as nat
    } else if (c as u32) < 0x1_0000 {
        (0xe0 + (c as u32) / 0x1000) as nat
    } else {
        (0xf0 + (c as u32) / 0x4_0000) as nat
    }
}

/// The diagnostic for a character that may not stand in a string.
pub open spec fn byte_out_of_range(c: char) -> Seq<char> {
    "Byte "@ + decimal(leading_byte(c)) + " out of range for string literal"@
}

/// The words of a string, one for each character, or the diagnostic for
/// its first character that is not printable.
pub open spec fn string_words(text: Seq<char>) -> Result<Seq<u16>, Seq<char>>
    decreases text.len(),
{
    if text.len() == 0 {
        Ok(Seq::empty())
    } else {
        match string_words(text.drop_last()) {
            Err(e) => Err(e),
            Ok(words) => if is_printable(text.last()) {
                Ok(words.push(text.last() as u16))
            } else {
                Err(byte_out_of_range(text.last()))
            },
        }
    }
}

/// Whether a data item is a string: it starts and ends with a double
/// quote, and these are two characters.
pub open spec fn is_string(item: Seq<char>) -> bool {
    item.len() >= 2 && item.first() == '"' && item.last() == '"'
}

/// The words of one item of a data line: a number, or a string between
/// double quotes.
pub open spec fn data_item(item: Seq<char>) -> Result<Seq<u16>, Seq<char>> {
    if literal_of(item) is Some {
        Ok(seq![literal_of(item)->0])
    } else if is_string(item) {
        string_words(item.subrange(1, item.len() - 1))
    } else {
        Err(quoted("Unrecognized data format \""@, item))
    }
}

/// The words of the items of a data line, or the diagnostic for the
/// first item that is at fault.
pub open spec fn data_items(items: Seq<Seq<char>>) -> Result<Seq<u16>, Seq<char>>
    decreases items.len(),
{
    if items.len() == 0 {
        Ok(Seq::empty())
    } else {
        match data_items(items.drop_last()) {
            Err(e) => Err(e),
            Ok(words) => match data_item(items.last()) {
                Err(e) => Err(e),
                Ok(more) => Ok(words + more),
            },
        }
    }
}

/// The pieces of `s` that end with `c` or with the end of `s`: as
/// `split`, but nothing follows a last `c`.
pub open spec fn split_terminated(s: Seq<char>, c: char) -> Seq<Seq<char>> {
    let pieces = split(s, c);
    if pieces.last().len() == 0 {
        pieces.drop_last()
    } else {
        pieces
    }
}

/// What a data line holds. Its tokens behind `DAT` are joined without
/// blanks and the text is split at every comma.
pub open spec fn data_line(toks: Seq<Seq<char>>) -> Result<Line, Seq<Seq<char>>> {
    match data_items(split_terminated(concat(toks.skip(1)), ',')) {
        Ok(words) => Ok(Line::Data(words)),
        Err(e) => Err(seq![e]),
    }
}

/// The diagnostic for a token that should be an opcode's name.
pub open spec fn expected_op(token: Seq<char>) -> Seq<char> {
    quoted("Expected an op name; got \""@, token)
}

/// The diagnostic for a token behind the end of an instruction.
pub open spec fn expected_end(token: Seq<char>) -> Seq<char> {
    quoted("Expected line to end; got \""@, token)
}

/// The diagnostic for a token that should be the comma between operands.
pub open spec fn expected_comma(token: Seq<char>) -> Seq<char> {
    quoted("Expected comma; got \""@, token)
}

/// What a line that starts with the name of a special opcode holds: the
/// opcode and one operand. Without a token there is no instruction, and
/// no fault either.
pub open spec fn special_line(toks: Seq<Seq<char>>) -> Result<Line, Seq<Seq<char>>> {
    if toks.len() == 0 {
        Err(Seq::empty())
    } else {
        match SpecialOp::of_name(toks[0]) {
            None => Err(seq![expected_op(toks[0])]),
            Some(op) => if toks.len() == 1 {
                Err(seq!["Incomplete line"@])
            } else {
                match operand(toks[1]) {
                    Err(e) => Err(seq![e]),
                    Ok(a) => if toks.len() > 2 {
                        Err(seq![expected_end(toks[2])])
                    } else {
                        Ok(Line::Special { op, a })
                    },
                }
            },
        }
    }
}

/// What is wrong with operand `b` once it was read: a label cannot be
/// written to.
pub open spec fn lvalue_faults(b: Operand) -> Seq<Seq<char>> {
    if b is Label {
        seq!["Can't have labels as lvalues"@]
    } else {
        Seq::empty()
    }
}

/// What a line that starts with anything else holds: a basic opcode,
/// operand `b`, a comma, operand `a`. A label as operand `b` is reported
/// and the line read on; such a line counts as incomplete. Without a
/// token there is no instruction, and no fault either.
pub open spec fn basic_line(toks: Seq<Seq<char>>) -> Result<Line, Seq<Seq<char>>> {
    if toks.len() == 0 {
        Err(Seq::empty())
    } else {
        match BasicOp::of_name(toks[0]) {
            None => Err(seq![expected_op(toks[0])]),
            Some(op) => if toks.len() == 1 {
                Err(seq!["Incomplete line"@])
            } else {
                match operand(toks[1]) {
                    Err(e) => Err(seq![e]),
                    Ok(b) => if toks.len() == 2 {
                        Err(lvalue_faults(b).push("Incomplete line"@))
                    } else if toks[2] != seq![','] {
                        Err(lvalue_faults(b).push(expected_comma(toks[2])))
                    } else if toks.len() == 3 {
                        Err(lvalue_faults(b).push("Incomplete line"@))
                    } else {
                        match operand(toks[3]) {
                            Err(e) => Err(lvalue_faults(b).push(e)),
                            Ok(a) => if toks.len() > 4 {
                                Err(lvalue_faults(b).push(expected_end(toks[4])))
                            } else if b is Label {
                                Err(lvalue_faults(b).push("Incomplete line"@))
                            } else {
                                Ok(Line::Basic { op, b, a })
                            },
                        }
                    },
                }
            },
        }
    }
}

/// What the tokens of a line behind its label hold (there is at least
/// one): a data line where the first is `DAT`, a special instruction
/// where it names a special opcode, else a basic instruction. Case does
/// not matter in these names.
pub open spec fn statement(toks: Seq<Seq<char>>) -> Result<Line, Seq<Seq<char>>> {
    if to_upper(toks[0]) == "DAT"@ {
        data_line(toks)
    } else if SpecialOp::of_name(toks[0]) is Some {
        special_line(toks)
    } else {
        basic_line(toks)
    }
}

/// A diagnostic with the number of its line before it. Lines count
/// from 0.
pub open spec fn tagged(error: Seq<char>, line_num: nat) -> Seq<char> {
    "Line "@ + decimal(line_num) + ": "@ + error
}

/// Each diagnostic with the number of the line before it.
pub open spec fn tag_all(faults: Seq<Seq<char>>, line_num: nat) -> Seq<Seq<char>> {
    Seq::new(faults.len(), |i: int| tagged(faults[i], line_num))
}

/// Puts the number of the line before a diagnostic.
pub fn fmt_error(error: &str, line_num: usize) -> (s: String)
    ensures
        s@ == tagged(error@, line_num as nat),
{
    let mut s = String::from_str("Line ");
    push_decimal(&mut s, line_num);
    s.append(": ");
    s.append(error);
    s
}

/// The first byte of a character in UTF-8.
fn leading_byte_of(c: char) -> (b: usize)
    ensures
        b == leading_byte(c),
{
    let code = c as u32;
    if code < 0x80 {
        code as usize
    } else if code < 0x800 {
        (0xc0 + code / 0x40) as usize
    } else if code < 0x1_0000 {
        (0xe0 + code / 0x1000) as usize
    } else {
        (0xf0 + code / 0x4_0000) as usize
    }
}

/// Appends the words of a string to `data`, or tells which character
/// may not stand in it.
fn read_string(text: &[char], data: &mut Vec<u16>) -> (res: Result<(), String>)
    ensures
        match res {
            Ok(_) => string_words(text@) matches Ok(words) && final(data)@ == old(data)@ + words,
            Err(e) => string_words(text@) == Err::<Seq<u16>, Seq<char>>(e@),
        },
{
    let mut i: usize = 0;
    proof {
        assert(old(data)@ + Seq::<u16>::empty() =~= old(data)@);
    }
    while i < text.len()
        invariant
            i <= text.len(),
            string_words(text@.take(i as int)) matches Ok(words) && data@ == old(data)@ + words,
        decreases text.len() - i,
    {
        let c = text[i];
        proof {
            assert(text@.take(i + 1).drop_last() =~= text@.take(i as int));
        }
        if (c as u32) < 0x20 || (c as u32) > 0x7e {
            let mut e = String::from_str("Byte ");
            push_decimal(&mut e, leading_byte_of(c));
            e.append(" out of range for string literal");
            proof {
                lemma_string_words_fails(text@, i + 1);
            }
            return Err(e);
        }
        let ghost before = string_words(text@.take(i as int))->Ok_0;
        data.push(c as u16);
        proof {
            assert(data@ =~= old(data)@ + before.push(c as u16));
        }
        i += 1;
    }
    proof {
        assert(text@.take(i as int) =~= text@);
    }
    Ok(())
}

/// A fault within a string is a fault of the whole string.
proof fn lemma_string_words_fails(text: Seq<char>, n: int)
    requires
        0 <= n <= text.len(),
        string_words(text.take(n)) is Err,
    ensures
        string_words(text) == string_words(text.take(n)),
    decreases text.len() - n,
{
    if n < text.len() {
        assert(text.take(n + 1).drop_last() =~= text.take(n));
        lemma_string_words_fails(text, n + 1);
    } else {
        assert(text.take(n) =~= text);
    }
}

/// Appends the words of one data item to `data`, or tells what is wrong
/// with the item.
fn read_data_item(item: &[char], data: &mut Vec<u16>) -> (res: Result<(), String>)
    ensures
        match res {
            Ok(_) => data_item(item@) matches Ok(words) && final(data)@ == old(data)@ + words,
            Err(e) => data_item(item@) == Err::<Seq<u16>, Seq<char>>(e@),
        },
{
    if let Some(v) = parse(item) {
        data.push(v);
        proof {
            assert(data@ =~= old(data)@ + seq![v]);
        }
        Ok(())
    } else if item.len() >= 2 && item[0] == '"' && item[item.len() - 1] == '"' {
        // Strip off quotes.
        read_string(slice_subrange(item, 1, item.len() - 1), data)
    } else {
        Err(quote("Unrecognized data format \"", item))
    }
}

/// A fault in an item is a fault of the whole list.
proof fn lemma_data_items_fails(items: Seq<Seq<char>>, n: int)
    requires
        0 <= n <= items.len(),
        data_items(items.take(n)) is Err,
    ensures
        data_items(items) == data_items(items.take(n)),
    decreases items.len() - n,
{
    if n < items.len() {
        assert(items.take(n + 1).drop_last() =~= items.take(n));
        lemma_data_items_fails(items, n + 1);
    } else {
        assert(items.take(n) =~= items);
    }
}

/// The tokens from index `from` on, joined without anything between them.
fn join_from(tokens: &[&[char]], from: usize) -> (joined: Vec<char>)
    requires
        from <= tokens.len(),
    ensures
        joined@ == concat(views(tokens@).skip(from as int)),
{
    let mut joined: Vec<char> = Vec::new();
    let ghost parts = views(tokens@).skip(from as int);
    let mut i = from;
    proof {
        assert(parts.take(0) =~= Seq::<Seq<char>>::empty());
    }
    while i < tokens.len()
        invariant
            from <= i <= tokens.len(),
            parts == views(tokens@).skip(from as int),
            joined@ == concat(parts.take(i - from)),
        decreases tokens.len() - i,
    {
        let token = tokens[i];
        let ghost before = joined@;
        let mut k: usize = 0;
        while k < token.len()
            invariant
                k <= token.len(),
                joined@ == before + token@.take(k as int),
            decreases token.len() - k,
        {
            joined.push(token[k]);
            proof {
                assert(token@.take(k + 1) =~= token@.take(k as int).push(token@[k as int]));
            }
            k += 1;
        }
        proof {
            assert(token@.take(k as int) =~= token@);
            assert(parts.take(i - from + 1).drop_last() =~= parts.take(i - from));
            assert(parts.take(i - from + 1).last() == token@);
        }
        i += 1;
    }
    proof {
        assert(parts.take(i - from) =~= parts);
    }
    joined
}

/// Reads a data line, whose first token is `DAT`.
pub(crate) fn read_data_line(tokens: &[&[char]]) -> (res: Result<Vec<u16>, Vec<String>>)
    requires
        tokens.len() >= 1,
    ensures
        match res {
            Ok(words) => data_line(views(tokens@)) == Ok::<Line, Seq<Seq<char>>>(Line::Data(words@)),
            Err(faults) => data_line(views(tokens@)) == Err::<Line, Seq<Seq<char>>>(texts(faults@)),
        },
{
    let line_rest = join_from(tokens, 1);
    let pieces = split_at_char(line_rest.as_slice(), ',');
    proof {
        lemma_split_len(line_rest@, ',');
        assert(pieces@.len() == views(pieces@).len());
    }
    let count = if pieces[pieces.len() - 1].len() == 0 {
        pieces.len() - 1
    } else {
        pieces.len()
    };
    let ghost items = split_terminated(line_rest@, ',');
    proof {
        assert(views(pieces@).last() == pieces@[pieces@.len() - 1]@);
        assert(items =~= views(pieces@).take(count as int));
    }
    let mut data: Vec<u16> = Vec::new();
    let mut i: usize = 0;
    while i < count
        invariant
            i <= count <= pieces.len(),
            items == views(pieces@).take(count as int),
            items == split_terminated(concat(views(tokens@).skip(1)), ','),
            data_items(items.take(i as int)) == Ok::<Seq<u16>, Seq<char>>(data@),
        decreases count - i,
    {
        proof {
            assert(items.take(i + 1).drop_last() =~= items.take(i as int));
            assert(items.take(i + 1).last() == pieces@[i as int]@);
        }
        let ghost before = data@;
        match read_data_item(pieces[i], &mut data) {
            Ok(_) => {},
            Err(e) => {
                proof {
                    assert(data_items(items.take(i + 1)) == Err::<Seq<u16>, Seq<char>>(e@));
                    lemma_data_items_fails(items, i + 1);
                }
                let mut faults: Vec<String> = Vec::new();
                faults.push(e);
                proof {
                    assert(texts(faults@) =~= seq![e@]);
                }
                return Err(faults);
            },
        }
        i += 1;
    }
    proof {
        assert(items.take(i as int) =~= items);
    }
    Ok(data)
}

/// A list that holds one diagnostic.
fn one_fault(fault: String) -> (faults: Vec<String>)
    ensures
        texts(faults@) == seq![fault@],
{
    let mut faults: Vec<String> = Vec::new();
    faults.push(fault);
    proof {
        assert(texts(faults@) =~= seq![fault@]);
    }
    faults
}

/// Appends a diagnostic to a list.
fn add_fault(faults: &mut Vec<String>, fault: String)
    ensures
        texts(final(faults)@) == texts(old(faults)@).push(fault@),
{
    faults.push(fault);
    proof {
        assert(texts(faults@) =~= texts(old(faults)@).push(fault@));
    }
}

/// Reads a line that starts with the name of a special opcode.
pub(crate) fn read_special_line(tokens: &[&[char]]) -> (res: Result<
    SpecialInstructionComponents,
    Vec<String>,
>)
    ensures
        match res {
            Ok(instr) => special_line(views(tokens@)) == Ok::<Line, Seq<Seq<char>>>(instr@)
                && instr@.wf(),
            Err(faults) => special_line(views(tokens@)) == Err::<Line, Seq<Seq<char>>>(
                texts(faults@),
            ),
        },
{
    if tokens.len() == 0 {
        let faults: Vec<String> = Vec::new();
        proof {
            assert(texts(faults@) =~= Seq::<Seq<char>>::empty());
        }
        return Err(faults);
    }
    let op = match SpecialOp::from_name(tokens[0]) {
        Some(op) => op,
        None => {
            return Err(one_fault(quote("Expected an op name; got \"", tokens[0])));
        },
    };
    if tokens.len() == 1 {
        return Err(one_fault(String::from_str("Incomplete line")));
    }
    proof {
        lemma_operand_wf(tokens@[1]@);
    }
    let a = match get_val_type(tokens[1]) {
        Ok(val_type) => val_type,
        Err(e) => {
            return Err(one_fault(e));
        },
    };
    if tokens.len() > 2 {
        return Err(one_fault(quote("Expected line to end; got \"", tokens[2])));
    }
    Ok(SpecialInstructionComponents { op, a })
}

/// Whether the token is a single comma.
fn is_comma(token: &[char]) -> (b: bool)
    ensures
        b == (token@ == seq![',']),
{
    if token.len() == 1 && token[0] == ',' {
        assert(token@ =~= seq![',']);
        true
    } else {
        false
    }
}

/// Reads a line that holds a basic instruction.
pub(crate) fn read_basic_line(tokens: &[&[char]]) -> (res: Result<BasicInstructionComponents, Vec<String>>)
    ensures
        match res {
            Ok(instr) => basic_line(views(tokens@)) == Ok::<Line, Seq<Seq<char>>>(instr@)
                && instr@.wf(),
            Err(faults) => basic_line(views(tokens@)) == Err::<Line, Seq<Seq<char>>>(
                texts(faults@),
            ),
        },
{
    if tokens.len() == 0 {
        let faults: Vec<String> = Vec::new();
        proof {
            assert(texts(faults@) =~= Seq::<Seq<char>>::empty());
        }
        return Err(faults);
    }
    let op = match BasicOp::from_name(tokens[0]) {
        Some(op) => op,
        None => {
            return Err(one_fault(quote("Expected an op name; got \"", tokens[0])));
        },
    };
    if tokens.len() == 1 {
        return Err(one_fault(String::from_str("Incomplete line")));
    }
    proof {
        lemma_operand_wf(tokens@[1]@);
    }
    let b = match get_val_type(tokens[1]) {
        Ok(val_type) => val_type,
        Err(e) => {
            return Err(one_fault(e));
        },
    };
    let mut faults: Vec<String> = Vec::new();
    let b_is_label = match b {
        ValType::Label(_) => true,
        _ => false,
    };
    proof {
        assert(texts(faults@) =~= Seq::<Seq<char>>::empty());
    }
    if b_is_label {
        add_fault(&mut faults, String::from_str("Can't have labels as lvalues"));
    }
    assert(texts(faults@) =~= lvalue_faults(b@));
    if tokens.len() == 2 {
        add_fault(&mut faults, String::from_str("Incomplete line"));
        return Err(faults);
    }
    if !is_comma(tokens[2]) {
        add_fault(&mut faults, quote("Expected comma; got \"", tokens[2]));
        return Err(faults);
    }
    if tokens.len() == 3 {
        add_fault(&mut faults, String::from_str("Incomplete line"));
        return Err(faults);
    }
    proof {
        lemma_operand_wf(tokens@[3]@);
    }
    let a = match get_val_type(tokens[3]) {
        Ok(val_type) => val_type,
        Err(e) => {
            add_fault(&mut faults, e);
            return Err(faults);
        },
    };
    if tokens.len() > 4 {
        add_fault(&mut faults, quote("Expected line to end; got \"", tokens[4]));
        return Err(faults);
    }
    if b_is_label {
        add_fault(&mut faults, String::from_str("Incomplete line"));
        return Err(faults);
    }
    Ok(BasicInstructionComponents { op, b, a })
}

impl Line {
    /// The words of the line: for an instruction its first word, then
    /// the word of operand `b`, then the word of operand `a`, as the
    /// processor will read them; or the label that the line misses,
    /// that of operand `b` first.
    pub open spec fn encode(self, labels: Map<Seq<char>, u16>) -> Result<Seq<u16>, Seq<char>> {
        match self {
            Line::Basic { op, b, a } => match b.resolve(labels) {
                Err(e) => Err(e),
                Ok((b_type, b_words)) => match a.resolve(labels) {
                    Err(e) => Err(e),
                    Ok((a_type, a_words)) => Ok(
                        seq![pack(a_type.code(), b_type.code(), op.code())] + b_words + a_words,
                    ),
                },
            },
            Line::Special { op, a } => match a.resolve(labels) {
                Err(e) => Err(e),
                Ok((a_type, a_words)) => Ok(seq![pack(a_type.code(), op.code(), 0)] + a_words),
            },
            Line::Data(words) => Ok(words),
        }
    }
}

} // verus!
