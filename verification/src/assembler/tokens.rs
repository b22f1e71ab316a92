//! Tokens: how a line of source splits into its parts.
use crate::text::find;
use crate::text::find_from;
use crate::text::lemma_find;
use crate::text::views;
use vstd::prelude::*;
use vstd::slice::slice_subrange;

verus! {

/// Whether a character separates tokens: a space, a tab or a carriage
/// return.
pub open spec fn is_blank(c: char) -> bool {
    c == ' ' || c == '\t' || c == '\r'
}

/// Whether a character ends a token that is not quoted.
pub open spec fn ends_token(c: char) -> bool {
    is_blank(c) || c == ','
}

/// The number of characters at the start of `s` that do not end a token.
pub open spec fn bare_len(s: Seq<char>) -> int
    decreases s.len(),
{
    if s.len() == 0 || ends_token(s[0]) {
        0
    } else {
        1 + bare_len(s.drop_first())
    }
}

/// The length of the token that starts `s`, whose first character is
/// neither blank nor a comma. A token that starts with a double quote
/// runs up to and including the next double quote, or to the end of the
/// line if there is none. Any other token runs up to the next blank or
/// comma.
pub open spec fn token_len(s: Seq<char>) -> int {
    if s[0] == '"' {
        let close = find(s.skip(1), '"');
        if close < s.len() - 1 {
            close + 2
        } else {
            s.len() as int
        }
    } else {
        bare_len(s)
    }
}

/// `bare_len` stops at the first character that ends a token.
pub proof fn lemma_bare_len(s: Seq<char>)
    ensures
        0 <= bare_len(s) <= s.len(),
        bare_len(s) < s.len() ==> ends_token(s[bare_len(s)]),
        forall|j: int| 0 <= j < bare_len(s) ==> !ends_token(s[j]),
    decreases s.len(),
{
    if s.len() == 0 || ends_token(s[0]) {
    } else {
        let t = s.drop_first();
        lemma_bare_len(t);
        assert forall|j: int| 0 <= j < bare_len(s) implies !ends_token(s[j]) by {
            if j > 0 {
                assert(s[j] == t[j - 1]);
            }
        }
        if bare_len(s) < s.len() {
            assert(s[bare_len(s)] == t[bare_len(t)]);
        }
    }
}

/// A token is at least one character long and ends within the line.
pub proof fn lemma_token_len(s: Seq<char>)
    requires
        s.len() > 0,
        !ends_token(s[0]),
    ensures
        1 <= token_len(s) <= s.len(),
{
    lemma_bare_len(s);
    lemma_find(s.skip(1), '"');
}

/// The tokens of a line: blanks separate them, a comma outside quotes is
/// a token of its own, and a token that starts with a double quote ends
/// with the next one.
pub open spec fn tokens(s: Seq<char>) -> Seq<Seq<char>>
    decreases s.len(),
{
    if s.len() == 0 {
        Seq::empty()
    } else if is_blank(s[0]) {
        tokens(s.drop_first())
    } else if s[0] == ',' {
        seq![seq![',']] + tokens(s.drop_first())
    } else {
        proof {
            lemma_token_len(s);
        }
        seq![s.take(token_len(s))] + tokens(s.skip(token_len(s)))
    }
}

/// The line without its comment: what stands before the first `;`.
pub open spec fn strip_comment(line: Seq<char>) -> Seq<char> {
    line.take(find(line, ';'))
}

/// The first index at or after `from` that ends a token.
fn bare_end(line: &[char], from: usize) -> (end: usize)
    requires
        from <= line.len(),
    ensures
        from <= end <= line.len(),
        end - from == bare_len(line@.skip(from as int)),
{
    let mut end = from;
    while end < line.len() && !(line[end] == ' ' || line[end] == '\t' || line[end] == '\r'
        || line[end] == ',')
        invariant
            from <= end <= line.len(),
            forall|j: int| from <= j < end ==> !ends_token(line@[j]),
        decreases line.len() - end,
    {
        end += 1;
    }
    proof {
        let s = line@.skip(from as int);
        lemma_bare_len(s);
        let n = bare_len(s);
        if n < end - from {
            assert(ends_token(s[n]));
            assert(s[n] == line@[from + n]);
        }
        if n > end - from {
            assert(!ends_token(s[end - from]));
        }
    }
    end
}

/// Decomposes `line` into tokens for the assembler.
pub fn tokenize<'a>(line: &'a [char]) -> (toks: Vec<&'a [char]>)
    ensures
        views(toks@) == tokens(line@),
{
    let mut toks: Vec<&'a [char]> = Vec::new();
    let mut i: usize = 0;
    proof {
        assert(line@.skip(0) =~= line@);
        assert(views(toks@) + tokens(line@) =~= tokens(line@));
    }
    while i < line.len()
        invariant
            i <= line.len(),
            tokens(line@) == views(toks@) + tokens(line@.skip(i as int)),
        decreases line.len() - i,
    {
        let ghost rest = line@.skip(i as int);
        let ghost before = views(toks@);
        let c = line[i];
        if c == ' ' || c == '\t' || c == '\r' {
            proof {
                assert(rest.drop_first() =~= line@.skip(i + 1));
            }
            i += 1;
        } else if c == ',' {
            // Unquoted commas represent a single token.
            toks.push(slice_subrange(line, i, i + 1));
            proof {
                assert(rest.drop_first() =~= line@.skip(i + 1));
                assert(line@.subrange(i as int, i + 1) =~= seq![',']);
                assert(views(toks@) =~= before + seq![seq![',']]);
            }
            i += 1;
        } else {
            let end = if c == '"' {
                let close = find_from(line, i + 1, '"');
                proof {
                    assert(rest.skip(1) =~= line@.skip(i + 1));
                }
                if close < line.len() {
                    close + 1
                } else {
                    line.len()
                }
            } else {
                bare_end(line, i)
            };
            proof {
                lemma_token_len(rest);
                assert(end - i == token_len(rest));
                assert(rest.take(end - i) =~= line@.subrange(i as int, end as int));
                assert(rest.skip(end - i) =~= line@.skip(end as int));
            }
            toks.push(slice_subrange(line, i, end));
            proof {
                assert(views(toks@) =~= before + seq![rest.take(end - i)]);
            }
            i = end;
        }
    }
    proof {
        assert(views(toks@) + tokens(line@.skip(i as int)) =~= views(toks@));
    }
    toks
}

} // verus!
