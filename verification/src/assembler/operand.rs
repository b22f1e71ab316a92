//! Operands: what a token of an instruction stands for.
use crate::literal::literal_of;
use crate::literal::parse;
use crate::register::register_of;
use crate::register::Register;
use crate::text::find_from;
use crate::text::is_word;
use crate::text::lemma_find;
use crate::text::lemma_split_len;
use crate::text::quote;
use crate::text::quoted;
use crate::text::split;
use crate::text::split_at_char;
use crate::text::to_upper;
use crate::text::views;
use crate::val_type;
use crate::word::signed;
use crate::word::wrap;
use vstd::prelude::*;
use vstd::slice::slice_subrange;
use vstd::slice::slice_to_vec;

verus! {

/// An operand as the first pass reads it: the addressing mode together
/// with the word or the label that the instruction will carry for it.
#[derive(Debug, PartialEq, Eq)]
pub enum ValType {
    Register(u16),
    RegisterDeref(u16),
    /// `[word + register]`: the word, then the register.
    NextWordRegisterDeref(u16, u16),
    Push,
    Pop,
    Peek,
    Pick,
    StackPointer,
    ProgramCounter,
    Extra,
    /// `[word]`.
    NextWordDeref(u16),
    /// A number too large to stand in the operand field.
    NextWord(u16),
    /// A number that stands in the operand field: 0xffff or 0 to 30.
    Literal(u16),
    Label(Vec<char>),
    /// `[label]`.
    LabelDeref(Vec<char>),
    /// `[label + register]`.
    LabelRegisterDeref(Vec<char>, u16),
    /// `[label + word]`.
    LabelNextWordDeref(Vec<char>, u16),
}

/// An operand of the first pass as a mathematical value.
pub enum Operand {
    Register(u16),
    RegisterDeref(u16),
    NextWordRegisterDeref(u16, u16),
    Push,
    Pop,
    Peek,
    Pick,
    StackPointer,
    ProgramCounter,
    Extra,
    NextWordDeref(u16),
    NextWord(u16),
    Literal(u16),
    Label(Seq<char>),
    LabelDeref(Seq<char>),
    LabelRegisterDeref(Seq<char>, u16),
    LabelNextWordDeref(Seq<char>, u16),
}

impl View for ValType {
    type V = Operand;

    open spec fn view(&self) -> Operand {
        match self {
            ValType::Register(r) => Operand::Register(*r),
            ValType::RegisterDeref(r) => Operand::RegisterDeref(*r),
            ValType::NextWordRegisterDeref(v, r) => Operand::NextWordRegisterDeref(*v, *r),
            ValType::Push => Operand::Push,
            ValType::Pop => Operand::Pop,
            ValType::Peek => Operand::Peek,
            ValType::Pick => Operand::Pick,
            ValType::StackPointer => Operand::StackPointer,
            ValType::ProgramCounter => Operand::ProgramCounter,
            ValType::Extra => Operand::Extra,
            ValType::NextWordDeref(v) => Operand::NextWordDeref(*v),
            ValType::NextWord(v) => Operand::NextWord(*v),
            ValType::Literal(v) => Operand::Literal(*v),
            ValType::Label(s) => Operand::Label(s@),
            ValType::LabelDeref(s) => Operand::LabelDeref(s@),
            ValType::LabelRegisterDeref(s, r) => Operand::LabelRegisterDeref(s@, *r),
            ValType::LabelNextWordDeref(s, v) => Operand::LabelNextWordDeref(s@, *v),
        }
    }
}

impl Operand {
    /// Whether the operand adds a word to its instruction, as the
    /// processor will read it. Every operand that names a label does: its
    /// address is not known in the first pass. `PICK` does: the processor
    /// adds the word to the stack pointer.
    pub open spec fn takes_word(self) -> bool {
        match self {
            Operand::NextWordRegisterDeref(_, _) => true,
            Operand::Pick => true,
            Operand::NextWordDeref(_) => true,
            Operand::NextWord(_) => true,
            Operand::Label(_) => true,
            Operand::LabelDeref(_) => true,
            Operand::LabelRegisterDeref(_, _) => true,
            Operand::LabelNextWordDeref(_, _) => true,
            _ => false,
        }
    }

    /// The number of words the operand adds to its instruction.
    pub open spec fn words(self) -> int {
        if self.takes_word() {
            1
        } else {
            0
        }
    }
}

impl ValType {
    /// How many words does this value type extend beyond the first word.
    pub fn num_words(&self) -> (n: u16)
        ensures
            n == self@.words(),
    {
        match *self {
            ValType::NextWordRegisterDeref(_, _) => 1,
            ValType::Pick => 1,
            ValType::NextWordDeref(_) => 1,
            ValType::NextWord(_) => 1,
            ValType::Label(_) => 1,
            ValType::LabelDeref(_) => 1,
            ValType::LabelRegisterDeref(_, _) => 1,
            ValType::LabelNextWordDeref(_, _) => 1,
            _ => 0,
        }
    }
}

/// What reading an operand gave, as a mathematical value.
pub open spec fn parsed(res: Result<ValType, String>) -> Result<Operand, Seq<char>> {
    match res {
        Ok(val_type) => Ok(val_type@),
        Err(e) => Err(e@),
    }
}

/// Whether a number stands in the operand field itself: minus one to 30.
pub open spec fn is_inline(v: u16) -> bool {
    -1 <= signed(v) <= 30
}

/// What a token without brackets and without `+` stands for: a register,
/// a number, one of the words PC, SP, EX, PUSH, POP, PEEK, PICK (in
/// either case), or else a label. A token with a `+` in it is none of these.
pub open spec fn base_operand(token: Seq<char>) -> Result<Operand, Seq<char>> {
    if register_of(token) is Some {
        Ok(Operand::Register(register_of(token)->0.number()))
    } else if literal_of(token) is Some {
        Ok(Operand::Literal(literal_of(token)->0))
    } else if to_upper(token) == "PC"@ {
        Ok(Operand::ProgramCounter)
    } else if to_upper(token) == "SP"@ {
        Ok(Operand::StackPointer)
    } else if to_upper(token) == "EX"@ {
        Ok(Operand::Extra)
    } else if to_upper(token) == "PUSH"@ {
        Ok(Operand::Push)
    } else if to_upper(token) == "POP"@ {
        Ok(Operand::Pop)
    } else if to_upper(token) == "PEEK"@ {
        Ok(Operand::Peek)
    } else if to_upper(token) == "PICK"@ {
        Ok(Operand::Pick)
    } else if !token.contains('+') {
        Ok(Operand::Label(token))
    } else {
        Err(quoted("Invalid syntax \""@, token))
    }
}

/// Whether a token is enclosed in square brackets.
pub open spec fn is_bracketed(token: Seq<char>) -> bool {
    token.len() >= 2 && token.first() == '[' && token.last() == ']'
}

/// What stands between the brackets of a bracketed token.
pub open spec fn unbracketed(token: Seq<char>) -> Seq<char> {
    token.subrange(1, token.len() - 1)
}

/// The operand `[inner]`, where `inner` alone stands for `base`: only a
/// register, a number and a label can be dereferenced.
pub open spec fn dereferenced(base: Operand, inner: Seq<char>) -> Result<Operand, Seq<char>> {
    match base {
        Operand::Register(r) => Ok(Operand::RegisterDeref(r)),
        Operand::Literal(v) => Ok(Operand::NextWordDeref(v)),
        Operand::Label(s) => Ok(Operand::LabelDeref(s)),
        _ => Err(quoted("Can't dereference \""@, inner)),
    }
}

/// The operand that `base` is without brackets: a number from minus one
/// to 30 stands in the operand field, any other takes a word.
pub open spec fn direct(base: Operand) -> Operand {
    match base {
        Operand::Literal(v) => if is_inline(v) {
            Operand::Literal(v)
        } else {
            Operand::NextWord(v)
        },
        other => other,
    }
}

/// The operand that a sum between brackets stands for: a number and a
/// register, a label and a register, or a label and a number, in
/// either order.
pub open spec fn sum_of(lhs: Operand, rhs: Operand, inner: Seq<char>) -> Result<
    Operand,
    Seq<char>,
> {
    match (lhs, rhs) {
        (Operand::Literal(v), Operand::Register(r)) => Ok(Operand::NextWordRegisterDeref(v, r)),
        (Operand::Register(r), Operand::Literal(v)) => Ok(Operand::NextWordRegisterDeref(v, r)),
        (Operand::Label(s), Operand::Register(r)) => Ok(Operand::LabelRegisterDeref(s, r)),
        (Operand::Register(r), Operand::Label(s)) => Ok(Operand::LabelRegisterDeref(s, r)),
        (Operand::Label(s), Operand::Literal(v)) => Ok(Operand::LabelNextWordDeref(s, v)),
        (Operand::Literal(v), Operand::Label(s)) => Ok(Operand::LabelNextWordDeref(s, v)),
        _ => Err(quoted("Improperly formatted addition expression \""@, inner)),
    }
}

/// What a text with a `+` in it stands for: a sum of two terms, which
/// must stand between brackets.
pub open spec fn sum_operand(inner: Seq<char>, bracketed: bool) -> Result<Operand, Seq<char>> {
    let terms = split(inner, '+');
    if terms.len() > 2 {
        Err("Only one \"+\" allowed inside brackets"@)
    } else if !bracketed {
        Err("Must dereference addition expressions"@)
    } else {
        match base_operand(terms[0]) {
            Err(e) => Err(e),
            Ok(lhs) => match base_operand(terms[1]) {
                Err(e) => Err(e),
                Ok(rhs) => sum_of(lhs, rhs, inner),
            },
        }
    }
}

/// What an operand token stands for, or what is wrong with it.
pub open spec fn operand(token: Seq<char>) -> Result<Operand, Seq<char>> {
    let inner = if is_bracketed(token) {
        unbracketed(token)
    } else {
        token
    };
    match base_operand(inner) {
        Ok(base) => if is_bracketed(token) {
            dereferenced(base, inner)
        } else {
            Ok(direct(base))
        },
        Err(e) => if inner.contains('+') {
            sum_operand(inner, is_bracketed(token))
        } else {
            Err(e)
        },
    }
}

/// Returns the value type of a token without any nested structure (e.g.,
/// not "a+b" or "[a]").
pub fn get_base_type(token: &[char]) -> (res: Result<ValType, String>)
    ensures
        parsed(res) == base_operand(token@),
{
    if let Some(reg) = Register::from_name(token) {
        Ok(ValType::Register(reg.index()))
    } else if let Some(v) = parse(token) {
        Ok(ValType::Literal(v))
    } else if is_word(token, "PC") {
        Ok(ValType::ProgramCounter)
    } else if is_word(token, "SP") {
        Ok(ValType::StackPointer)
    } else if is_word(token, "EX") {
        Ok(ValType::Extra)
    } else if is_word(token, "PUSH") {
        Ok(ValType::Push)
    } else if is_word(token, "POP") {
        Ok(ValType::Pop)
    } else if is_word(token, "PEEK") {
        Ok(ValType::Peek)
    } else if is_word(token, "PICK") {
        Ok(ValType::Pick)
    } else if find_from(token, 0, '+') == token.len() {
        proof {
            assert(token@.skip(0) =~= token@);
            lemma_find(token@, '+');
        }
        Ok(ValType::Label(slice_to_vec(token)))
    } else {
        proof {
            assert(token@.skip(0) =~= token@);
            lemma_find(token@, '+');
        }
        Err(quote("Invalid syntax \"", token))
    }
}

/// Whether a number stands in the operand field itself.
fn fits_inline(v: u16) -> (b: bool)
    ensures
        b == is_inline(v),
{
    v == 0xffff || v <= 30
}

/// Reads an operand token.
pub fn get_val_type(token: &[char]) -> (res: Result<ValType, String>)
    ensures
        parsed(res) == operand(token@),
        res matches Ok(val_type) ==> val_type@.wf(),
{
    let deref = token.len() >= 2 && token[0] == '[' && token[token.len() - 1] == ']';
    // Strip off the brackets once we know it's a dereference.
    let inner = if deref {
        slice_subrange(token, 1, token.len() - 1)
    } else {
        token
    };

    let err = match get_base_type(inner) {
        Ok(base) => {
            if deref {
                return match base {
                    ValType::Register(r) => Ok(ValType::RegisterDeref(r)),
                    ValType::Literal(v) => Ok(ValType::NextWordDeref(v)),
                    ValType::Label(s) => Ok(ValType::LabelDeref(s)),
                    _ => Err(quote("Can't dereference \"", inner)),
                };
            } else {
                return match base {
                    ValType::Literal(v) => if fits_inline(v) {
                        Ok(ValType::Literal(v))
                    } else {
                        Ok(ValType::NextWord(v))
                    },
                    other => Ok(other),
                };
            }
        },
        Err(e) => e,
    };

    // If it didn't parse as a base type, then it must be an addition
    // expression (assuming it's well-formed).
    proof {
        assert(inner@.skip(0) =~= inner@);
        lemma_find(inner@, '+');
        lemma_split_len(inner@, '+');
    }
    if find_from(inner, 0, '+') < inner.len() {
        let terms = split_at_char(inner, '+');
        assert(terms@.len() == views(terms@).len());
        if terms.len() > 2 {
            return Err(String::from_str("Only one \"+\" allowed inside brackets"));
        }
        if !deref {
            return Err(String::from_str("Must dereference addition expressions"));
        }
        assert(views(terms@)[0] == terms@[0]@ && views(terms@)[1] == terms@[1]@);
        let lhs = match get_base_type(terms[0]) {
            Ok(val_type) => val_type,
            Err(e) => {
                return Err(e);
            },
        };
        let rhs = match get_base_type(terms[1]) {
            Ok(val_type) => val_type,
            Err(e) => {
                return Err(e);
            },
        };
        match (lhs, rhs) {
            (ValType::Literal(v), ValType::Register(r)) => Ok(ValType::NextWordRegisterDeref(v, r)),
            (ValType::Register(r), ValType::Literal(v)) => Ok(ValType::NextWordRegisterDeref(v, r)),
            (ValType::Label(s), ValType::Register(r)) => Ok(ValType::LabelRegisterDeref(s, r)),
            (ValType::Register(r), ValType::Label(s)) => Ok(ValType::LabelRegisterDeref(s, r)),
            (ValType::Label(s), ValType::Literal(v)) => Ok(ValType::LabelNextWordDeref(s, v)),
            (ValType::Literal(v), ValType::Label(s)) => Ok(ValType::LabelNextWordDeref(s, v)),
            _ => Err(quote("Improperly formatted addition expression \"", inner)),
        }
    } else {
        Err(err)
    }
}

impl Operand {
    /// Registers are among the eight, and a literal that stands in the
    /// operand field is one of the 32 numbers that fit there.
    pub open spec fn wf(self) -> bool {
        match self {
            Operand::Register(r) => r < 8,
            Operand::RegisterDeref(r) => r < 8,
            Operand::NextWordRegisterDeref(_, r) => r < 8,
            Operand::LabelRegisterDeref(_, r) => r < 8,
            Operand::Literal(v) => is_inline(v),
            _ => true,
        }
    }
}

/// An operand that was read names registers that exist, and an inline
/// literal fits the operand field.
pub proof fn lemma_operand_wf(token: Seq<char>)
    ensures
        operand(token) matches Ok(o) ==> o.wf(),
{
}

/// The diagnostic for a label that is used and nowhere defined.
pub open spec fn no_label(label: Seq<char>) -> Seq<char> {
    quoted("No label \""@, label) + " found"@
}

impl Operand {
    /// The addressing mode that the operand is encoded with and the word
    /// that follows the instruction for it, if any. A label stands for its
    /// word offset, which always takes a word. `PICK` is written without
    /// a number and adds 0 to the stack pointer.
    pub open spec fn resolve(self, labels: Map<Seq<char>, u16>) -> Result<
        (val_type::ValType, Seq<u16>),
        Seq<char>,
    > {
        match self {
            Operand::Register(r) => Ok((val_type::ValType::Register(r), Seq::empty())),
            Operand::RegisterDeref(r) => Ok((val_type::ValType::RegisterDeref(r), Seq::empty())),
            Operand::NextWordRegisterDeref(v, r) => Ok(
                (val_type::ValType::RegisterNextWordDeref(r), seq![v]),
            ),
            Operand::Push => Ok((val_type::ValType::Push, Seq::empty())),
            Operand::Pop => Ok((val_type::ValType::Pop, Seq::empty())),
            Operand::Peek => Ok((val_type::ValType::Peek, Seq::empty())),
            Operand::Pick => Ok((val_type::ValType::Pick, seq![0u16])),
            Operand::StackPointer => Ok((val_type::ValType::StackPointer, Seq::empty())),
            Operand::ProgramCounter => Ok((val_type::ValType::ProgramCounter, Seq::empty())),
            Operand::Extra => Ok((val_type::ValType::Extra, Seq::empty())),
            Operand::NextWordDeref(v) => Ok((val_type::ValType::NextWordDeref, seq![v])),
            Operand::NextWord(v) => Ok((val_type::ValType::NextWord, seq![v])),
            Operand::Literal(v) => Ok((val_type::ValType::Literal(v), Seq::empty())),
            Operand::Label(s) => if labels.contains_key(s) {
                Ok((val_type::ValType::NextWord, seq![labels[s]]))
            } else {
                Err(no_label(s))
            },
            Operand::LabelDeref(s) => if labels.contains_key(s) {
                Ok((val_type::ValType::NextWordDeref, seq![labels[s]]))
            } else {
                Err(no_label(s))
            },
            Operand::LabelRegisterDeref(s, r) => if labels.contains_key(s) {
                Ok((val_type::ValType::RegisterNextWordDeref(r), seq![labels[s]]))
            } else {
                Err(no_label(s))
            },
            Operand::LabelNextWordDeref(s, v) => if labels.contains_key(s) {
                Ok((val_type::ValType::NextWordDeref, seq![wrap(labels[s] + v)]))
            } else {
                Err(no_label(s))
            },
        }
    }
}

} // verus!
