//! Strings as sequences of characters: building, converting and printing
//! numbers.
use vstd::prelude::*;
use vstd::std_specs::iter::IteratorSpec;
use vstd::string::StringExecFns;

verus! {

/// `String::push` appends the character to the end of the string.
pub assume_specification[ String::push ](s: &mut String, c: char)
    ensures
        final(s)@ == old(s)@.push(c),
;

/// `n` copies of `c`.
pub open spec fn repeated(c: char, n: nat) -> Seq<char> {
    Seq::new(n, |i: int| c)
}

/// The decimal digit for a value below ten.
pub open spec fn digit_of(d: nat) -> char {
    if d == 0 {
        '0'
    } else if d == 1 {
        '1'
    } else if d == 2 {
        '2'
    } else if d == 3 {
        '3'
    } else if d == 4 {
        '4'
    } else if d == 5 {
        '5'
    } else if d == 6 {
        '6'
    } else if d == 7 {
        '7'
    } else if d == 8 {
        '8'
    } else {
        '9'
    }
}

/// A number written in decimal, without sign or leading zeros.
pub open spec fn decimal_digits(n: nat) -> Seq<char>
    decreases n,
{
    if n < 10 {
        seq![digit_of(n)]
    } else {
        decimal_digits(n / 10).push(digit_of(n % 10))
    }
}

/// How many digits `decimal_digits` gives.
pub open spec fn digit_count(n: nat) -> nat
    decreases n,
{
    if n < 10 {
        1
    } else {
        digit_count(n / 10) + 1
    }
}

/// A number has as many digits as are counted, at least one, and at most
/// twenty where it fits 64 bits.
pub proof fn lemma_digit_count(n: nat)
    ensures
        decimal_digits(n).len() == digit_count(n),
        1 <= digit_count(n),
        n <= u64::MAX ==> digit_count(n) <= 20,
    decreases n,
{
    if n >= 10 {
        lemma_digit_count(n / 10);
    }
    if n <= u64::MAX {
        reveal_with_fuel(digit_count, 21);
    }
}

/// The decimal digit for a value below ten.
fn digit(d: usize) -> (c: char)
    requires
        d < 10,
    ensures
        c == digit_of(d as nat),
{
    if d == 0 {
        '0'
    } else if d == 1 {
        '1'
    } else if d == 2 {
        '2'
    } else if d == 3 {
        '3'
    } else if d == 4 {
        '4'
    } else if d == 5 {
        '5'
    } else if d == 6 {
        '6'
    } else if d == 7 {
        '7'
    } else if d == 8 {
        '8'
    } else {
        '9'
    }
}

/// Appends `n` in decimal to `out`.
pub fn push_decimal(out: &mut String, n: usize)
    ensures
        final(out)@ == old(out)@ + decimal_digits(n as nat),
    decreases n,
{
    if n >= 10 {
        push_decimal(out, n / 10);
    }
    out.push(digit(n % 10));
    assert(out@ =~= old(out)@ + decimal_digits(n as nat));
}

/// The number of digits of `n` in decimal.
pub fn count_digits(n: usize) -> (k: usize)
    ensures
        k == digit_count(n as nat),
        1 <= k <= 20,
    decreases n,
{
    proof {
        lemma_digit_count(n as nat);
    }
    if n >= 10 {
        count_digits(n / 10) + 1
    } else {
        1
    }
}

/// Appends `n` copies of `c` to `out`.
pub fn push_repeated(out: &mut String, c: char, n: usize)
    ensures
        final(out)@ == old(out)@ + repeated(c, n as nat),
{
    let mut i: usize = 0;
    while i < n
        invariant
            i <= n,
            out@ == old(out)@ + repeated(c, i as nat),
        decreases n - i,
    {
        out.push(c);
        i += 1;
        assert(out@ =~= old(out)@ + repeated(c, i as nat));
    }
    assert(old(out)@ + repeated(c, 0) =~= old(out)@);
}

/// Appends the characters of `cells` to `out`.
pub fn push_chars(out: &mut String, cells: &Vec<char>)
    ensures
        final(out)@ == old(out)@ + cells@,
{
    let mut i: usize = 0;
    while i < cells.len()
        invariant
            i <= cells.len(),
            out@ == old(out)@ + cells@.subrange(0, i as int),
        decreases cells.len() - i,
    {
        out.push(cells[i]);
        i += 1;
        assert(out@ =~= old(out)@ + cells@.subrange(0, i as int));
    }
    assert(cells@.subrange(0, cells.len() as int) =~= cells@);
}

/// The characters of `cells` as a string.
pub fn string_of(cells: &Vec<char>) -> (s: String)
    ensures
        s@ == cells@,
{
    let mut s = String::new();
    push_chars(&mut s, cells);
    assert(Seq::<char>::empty() + cells@ =~= cells@);
    s
}

/// The characters of `text`, one by one.
pub fn chars_of(text: &str) -> (cells: Vec<char>)
    ensures
        cells@ == text@,
{
    broadcast use vstd::string::axiom_spec_iter, vstd::string::next_postcondition;

    let mut it = text.chars();
    let mut cells: Vec<char> = Vec::new();
    assert(cells@ + it.remaining() =~= text@);
    loop
        invariant
            cells@ + it.remaining() == text@,
        ensures
            cells@ == text@,
        decreases text@.len() - cells@.len(),
    {
        match it.next() {
            Some(c) => {
                cells.push(c);
                assert(cells@ + it.remaining() =~= text@);
            },
            None => {
                assert(cells@ + it.remaining() =~= cells@);
                break;
            },
        }
    }
    cells
}

/// Whether two sequences of characters are the same.
pub fn same_chars(a: &Vec<char>, b: &Vec<char>) -> (same: bool)
    ensures
        same == (a@ == b@),
{
    if a.len() != b.len() {
        return false;
    }
    let mut i: usize = 0;
    while i < a.len()
        invariant
            i <= a.len(),
            a.len() == b.len(),
            forall|k: int| 0 <= k < i ==> a@[k] == b@[k],
        decreases a.len() - i,
    {
        if a[i] != b[i] {
            return false;
        }
        i += 1;
    }
    assert(a@ =~= b@);
    true
}

/// Whether `a` spells `word`.
pub fn spells(a: &Vec<char>, word: &str) -> (same: bool)
    ensures
        same == (a@ == word@),
{
    let b = chars_of(word);
    same_chars(a, &b)
}

} // verus!
