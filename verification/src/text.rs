//! Characters and character sequences, as the assembler reads them.
use vstd::prelude::*;
use vstd::slice::slice_subrange;

verus! {

/// What is taken on trust of `String::push` of the standard library: it
/// appends the character to the end of the string and changes nothing
/// else of it.
pub assume_specification[ String::push ](s: &mut String, ch: char)
    ensures
        final(s)@ == old(s)@.push(ch),
;

/// The upper-case form of an ASCII letter; any other character unchanged.
pub open spec fn upper(c: char) -> char {
    if 'a' <= c && c <= 'z' {
        ((c as u8) - 32) as char
    } else {
        c
    }
}

/// A character sequence with its ASCII letters in upper case.
pub open spec fn to_upper(s: Seq<char>) -> Seq<char> {
    Seq::new(s.len(), |i: int| upper(s[i]))
}

/// Turns an ASCII letter into upper case.
pub fn upper_exec(c: char) -> (u: char)
    ensures
        u == upper(c),
{
    if 'a' <= c && c <= 'z' {
        ((c as u8) - 32) as char
    } else {
        c
    }
}

/// The characters of a string, in order.
pub fn chars_of(s: &str) -> (v: Vec<char>)
    ensures
        v@ == s@,
{
    let mut v: Vec<char> = Vec::new();
    for c in it: s.chars()
        invariant
            v@ == it.seq().take(it.index()),
    {
        v.push(c);
    }
    v
}

/// Whether `name`, taken without regard to the case of its letters, is
/// the upper-case word `word`.
pub fn is_word(name: &[char], word: &str) -> (b: bool)
    ensures
        b == (to_upper(name@) == word@),
{
    let w = chars_of(word);
    if w.len() != name.len() {
        return false;
    }
    let mut i: usize = 0;
    while i < name.len()
        invariant
            i <= name.len(),
            w.len() == name.len(),
            w@ == word@,
            forall|j: int| 0 <= j < i ==> upper(name@[j]) == w@[j],
        decreases name.len() - i,
    {
        if upper_exec(name[i]) != w[i] {
            assert(to_upper(name@)[i as int] != word@[i as int]);
            return false;
        }
        i += 1;
    }
    assert(to_upper(name@) =~= word@);
    true
}

/// The character sequences that a list of slices holds.
pub open spec fn views(v: Seq<&[char]>) -> Seq<Seq<char>> {
    Seq::new(v.len(), |i: int| v[i]@)
}

/// The texts that a list of strings holds.
pub open spec fn texts(v: Seq<String>) -> Seq<Seq<char>> {
    Seq::new(v.len(), |i: int| v[i]@)
}

/// Index of the first `c` in `s`; `s.len()` if there is none.
pub open spec fn find(s: Seq<char>, c: char) -> int
    decreases s.len(),
{
    if s.len() == 0 || s[0] == c {
        0
    } else {
        1 + find(s.drop_first(), c)
    }
}

/// `find` gives the least index that holds `c`, within the sequence.
pub proof fn lemma_find(s: Seq<char>, c: char)
    ensures
        0 <= find(s, c) <= s.len(),
        find(s, c) < s.len() ==> s[find(s, c)] == c,
        forall|j: int| 0 <= j < find(s, c) ==> s[j] != c,
        find(s, c) == s.len() <==> !s.contains(c),
    decreases s.len(),
{
    if s.len() == 0 || s[0] == c {
    } else {
        let t = s.drop_first();
        lemma_find(t, c);
        assert forall|j: int| 0 <= j < find(s, c) implies s[j] != c by {
            if j > 0 {
                assert(s[j] == t[j - 1]);
            }
        }
        if find(s, c) < s.len() {
            assert(s[find(s, c)] == t[find(t, c)]);
        }
        if s.contains(c) {
            let k = choose|k: int| 0 <= k < s.len() && s[k] == c;
            assert(t[k - 1] == c);
            assert(t.contains(c));
        }
    }
}

/// An index that holds `c`, with none before it, is what `find` gives;
/// so is the length, where no index holds `c`.
pub proof fn lemma_find_is(s: Seq<char>, c: char, i: int)
    requires
        0 <= i <= s.len(),
        forall|j: int| 0 <= j < i ==> s[j] != c,
        i < s.len() ==> s[i] == c,
    ensures
        find(s, c) == i,
{
    lemma_find(s, c);
}

/// The pieces of `s` between the occurrences of `c`: one more piece than
/// there are occurrences.
pub open spec fn split(s: Seq<char>, c: char) -> Seq<Seq<char>>
    decreases s.len(),
{
    let i = find(s, c);
    if 0 <= i < s.len() {
        seq![s.take(i)] + split(s.skip(i + 1), c)
    } else {
        seq![s]
    }
}

/// The sequences of `parts`, one after the other.
pub open spec fn concat(parts: Seq<Seq<char>>) -> Seq<char>
    decreases parts.len(),
{
    if parts.len() == 0 {
        Seq::empty()
    } else {
        concat(parts.drop_last()) + parts.last()
    }
}

/// The decimal digits of `n`, without leading zeros.
pub open spec fn decimal(n: nat) -> Seq<char>
    decreases n,
{
    if n < 10 {
        seq![digit(n)]
    } else {
        decimal(n / 10).push(digit(n % 10))
    }
}

/// The character of a decimal digit.
pub open spec fn digit(d: nat) -> char {
    ((d + 48) as u8) as char
}

/// The first occurrence of `c` in `s` at or after `from`; `s.len()` if
/// there is none.
pub fn find_from(s: &[char], from: usize, c: char) -> (i: usize)
    requires
        from <= s.len(),
    ensures
        from <= i <= s.len(),
        i - from == find(s@.skip(from as int), c),
{
    let mut i = from;
    while i < s.len() && s[i] != c
        invariant
            from <= i <= s.len(),
            forall|j: int| from <= j < i ==> s@[j] != c,
        decreases s.len() - i,
    {
        i += 1;
    }
    proof {
        lemma_find_is(s@.skip(from as int), c, i - from);
    }
    i
}

/// Splits `s` at every occurrence of `c`.
pub fn split_at_char<'a>(s: &'a [char], c: char) -> (pieces: Vec<&'a [char]>)
    ensures
        views(pieces@) == split(s@, c),
{
    let mut pieces: Vec<&'a [char]> = Vec::new();
    let mut start: usize = 0;
    proof {
        assert(s@.skip(0) =~= s@);
        assert(views(pieces@) + split(s@, c) =~= split(s@, c));
    }
    loop
        invariant_except_break
            start <= s.len(),
            split(s@, c) == views(pieces@) + split(s@.skip(start as int), c),
        ensures
            views(pieces@) == split(s@, c),
        decreases s.len() - start,
    {
        let end = find_from(s, start, c);
        let ghost rest = s@.skip(start as int);
        let ghost before = views(pieces@);
        pieces.push(slice_subrange(s, start, end));
        proof {
            assert(rest.take(end - start) =~= s@.subrange(start as int, end as int));
            assert(views(pieces@) =~= before + seq![rest.take(end - start)]);
        }
        if end == s.len() {
            proof {
                assert(rest.take(end - start) =~= rest);
            }
            break;
        }
        proof {
            assert(rest.skip(end - start + 1) =~= s@.skip(end + 1));
        }
        start = end + 1;
    }
    pieces
}

/// Appends the characters to the string.
pub fn push_chars(out: &mut String, chars: &[char])
    ensures
        final(out)@ == old(out)@ + chars@,
{
    let mut i: usize = 0;
    while i < chars.len()
        invariant
            i <= chars.len(),
            out@ == old(out)@ + chars@.take(i as int),
        decreases chars.len() - i,
    {
        out.push(chars[i]);
        assert(chars@.take(i + 1) =~= chars@.take(i as int).push(chars@[i as int]));
        i += 1;
    }
    assert(chars@.take(i as int) =~= chars@);
}

/// Appends the decimal digits of `n` to the string.
pub fn push_decimal(out: &mut String, n: usize)
    ensures
        final(out)@ == old(out)@ + decimal(n as nat),
    decreases n,
{
    if n >= 10 {
        push_decimal(out, n / 10);
    }
    let d: u8 = (n % 10) as u8;
    out.push((d + 48) as char);
}

/// The text `prefix`, then `token`, then a closing double quote.
pub open spec fn quoted(prefix: Seq<char>, token: Seq<char>) -> Seq<char> {
    prefix + token + seq!['"']
}

/// Builds the text `prefix`, then `token`, then a closing double quote.
pub fn quote(prefix: &str, token: &[char]) -> (s: String)
    ensures
        s@ == quoted(prefix@, token@),
{
    let mut s = String::from_str(prefix);
    push_chars(&mut s, token);
    s.push('"');
    s
}

/// `split` gives at least one piece, and at least two where `c` occurs.
pub proof fn lemma_split_len(s: Seq<char>, c: char)
    ensures
        split(s, c).len() >= 1,
        s.contains(c) ==> split(s, c).len() >= 2,
    decreases s.len(),
{
    lemma_find(s, c);
    let i = find(s, c);
    if 0 <= i < s.len() {
        lemma_split_len(s.skip(i + 1), c);
    }
}

/// Whether the two slices hold the same characters.
pub fn same_chars(a: &[char], b: &[char]) -> (same: bool)
    ensures
        same == (a@ == b@),
{
    if a.len() != b.len() {
        return false;
    }
    let mut i: usize = 0;
    while i < a.len()
        invariant
            i <= a.len(),
            a.len() == b.len(),
            forall|j: int| 0 <= j < i ==> a@[j] == b@[j],
        decreases a.len() - i,
    {
        if a[i] != b[i] {
            return false;
        }
        i += 1;
    }
    assert(a@ =~= b@);
    true
}

/// The character of a hexadecimal digit, in lower case.
pub open spec fn hex_digit(d: nat) -> char {
    if d < 10 {
        ((d + 48) as u8) as char
    } else {
        ((d + 87) as u8) as char
    }
}

/// The hexadecimal digits of `n`, in lower case, without leading zeros.
pub open spec fn hex_digits(n: nat) -> Seq<char>
    decreases n,
{
    if n < 16 {
        seq![hex_digit(n)]
    } else {
        hex_digits(n / 16).push(hex_digit(n % 16))
    }
}

/// A word as it is shown: `0x` and its hexadecimal digits.
pub open spec fn hex(word: u16) -> Seq<char> {
    seq!['0', 'x'] + hex_digits(word as nat)
}

/// Appends the hexadecimal digits of `n` to the string.
fn push_hex_digits(out: &mut String, n: u16)
    ensures
        final(out)@ == old(out)@ + hex_digits(n as nat),
    decreases n,
{
    if n >= 16 {
        push_hex_digits(out, n / 16);
    }
    let d: u8 = (n % 16) as u8;
    if d < 10 {
        out.push((d + 48) as char);
    } else {
        out.push((d + 87) as char);
    }
}

/// Appends a word as it is shown: `0x` and its hexadecimal digits.
pub fn push_hex(out: &mut String, word: u16)
    ensures
        final(out)@ == old(out)@ + hex(word),
{
    out.push('0');
    out.push('x');
    push_hex_digits(out, word);
    proof {
        assert(out@ =~= old(out)@ + hex(word));
    }
}

} // verus!
