use vstd::prelude::*;
use crate::text::chars_of;

verus! {

/// Blank characters, which a size may hold anywhere.
pub open spec fn blank(c: char) -> bool {
    c == ' ' || c == '\t' || c == '\n' || c == '\r'
}

/// Decimal digits.
pub open spec fn numeral(c: char) -> bool {
    c == '0' || c == '1' || c == '2' || c == '3' || c == '4' || c == '5' || c == '6' || c == '7'
        || c == '8' || c == '9'
}

/// `c` is the letter `upper`, in either case.
pub open spec fn letter(c: char, lower: char, upper: char) -> bool {
    c == lower || c == upper
}

/// First letter of a unit above the byte: K, M, G, T, P or E, in either case.
pub open spec fn scale(c: char) -> bool {
    letter(c, 'k', 'K') || letter(c, 'm', 'M') || letter(c, 'g', 'G') || letter(c, 't', 'T')
        || letter(c, 'p', 'P') || letter(c, 'e', 'E')
}

/// The text without its blank characters.
pub open spec fn squeezed(s: Seq<char>) -> Seq<char>
    decreases s.len(),
{
    if s.len() == 0 {
        s
    } else if blank(s.last()) {
        squeezed(s.drop_last())
    } else {
        squeezed(s.drop_last()).push(s.last())
    }
}

/// Number of digits that `t` holds from `from` up to the first other character.
pub open spec fn digits_from(t: Seq<char>, from: int) -> int
    decreases t.len() - from,
{
    if from < 0 || from >= t.len() || !numeral(t[from]) {
        0
    } else {
        1 + digits_from(t, from + 1)
    }
}

/// A unit of size: `B`; one of K, M, G, T, P, E, alone or followed by `B` or
/// `iB`; or `%FREE`. Case does not count.
pub open spec fn unit(u: Seq<char>) -> bool {
    ||| (u.len() == 1 && (letter(u[0], 'b', 'B') || scale(u[0])))
    ||| (u.len() == 2 && scale(u[0]) && letter(u[1], 'b', 'B'))
    ||| (u.len() == 3 && scale(u[0]) && letter(u[1], 'i', 'I') && letter(u[2], 'b', 'B'))
    ||| (u.len() == 5 && u[0] == '%' && letter(u[1], 'f', 'F') && letter(u[2], 'r', 'R') && letter(
        u[3],
        'e',
        'E',
    ) && letter(u[4], 'e', 'E'))
}

/// A size as a manifest may state it: once the blanks are taken out, one or
/// more digits followed by a unit.
pub open spec fn size_ok(s: Seq<char>) -> bool {
    let t = squeezed(s);
    let n = digits_from(t, 0);
    n >= 1 && unit(t.skip(n))
}

fn is_blank(c: char) -> (r: bool)
    ensures
        r == blank(c),
{
    c == ' ' || c == '\t' || c == '\n' || c == '\r'
}

fn is_numeral(c: char) -> (r: bool)
    ensures
        r == numeral(c),
{
    c == '0' || c == '1' || c == '2' || c == '3' || c == '4' || c == '5' || c == '6' || c == '7'
        || c == '8' || c == '9'
}

fn is_letter(c: char, lower: char, upper: char) -> (r: bool)
    ensures
        r == letter(c, lower, upper),
{
    c == lower || c == upper
}

fn is_scale(c: char) -> (r: bool)
    ensures
        r == scale(c),
{
    is_letter(c, 'k', 'K') || is_letter(c, 'm', 'M') || is_letter(c, 'g', 'G') || is_letter(
        c,
        't',
        'T',
    ) || is_letter(c, 'p', 'P') || is_letter(c, 'e', 'E')
}

fn squeeze(s: &Vec<char>) -> (t: Vec<char>)
    ensures
        t@ == squeezed(s@),
{
    let mut t: Vec<char> = Vec::new();
    let mut i: usize = 0;
    assert(t@ =~= squeezed(s@.take(0)));
    while i < s.len()
        invariant
            i <= s.len(),
            t@ == squeezed(s@.take(i as int)),
        decreases s.len() - i,
    {
        assert(s@.take(i + 1).drop_last() =~= s@.take(i as int));
        if !is_blank(s[i]) {
            t.push(s[i]);
        }
        i += 1;
    }
    assert(s@.take(i as int) =~= s@);
    t
}

fn count_digits(t: &Vec<char>) -> (n: usize)
    ensures
        n == digits_from(t@, 0),
        n <= t.len(),
{
    let mut i: usize = 0;
    while i < t.len() && is_numeral(t[i])
        invariant
            i <= t.len(),
            digits_from(t@, 0) == i + digits_from(t@, i as int),
        decreases t.len() - i,
    {
        i += 1;
    }
    i
}

fn is_unit(t: &Vec<char>, from: usize) -> (r: bool)
    requires
        from <= t.len(),
    ensures
        r == unit(t@.skip(from as int)),
{
    let n = t.len() - from;
    let ghost u = t@.skip(from as int);
    assert(u.len() == n);
    assert(forall|k: int| 0 <= k < n ==> u[k] == t@[from + k]);
    if n == 1 {
        is_letter(t[from], 'b', 'B') || is_scale(t[from])
    } else if n == 2 {
        is_scale(t[from]) && is_letter(t[from + 1], 'b', 'B')
    } else if n == 3 {
        is_scale(t[from]) && is_letter(t[from + 1], 'i', 'I') && is_letter(t[from + 2], 'b', 'B')
    } else if n == 5 {
        t[from] == '%' && is_letter(t[from + 1], 'f', 'F') && is_letter(t[from + 2], 'r', 'R')
            && is_letter(t[from + 3], 'e', 'E') && is_letter(t[from + 4], 'e', 'E')
    } else {
        false
    }
}

/// Whether `s` states a size: digits and a unit (`B`, `K`, `M`, `G`, `T`,
/// `P`, `E`, each of the last six also with `B` or `iB`) or digits and
/// `%FREE`; blanks and case are ignored.
pub fn valid_size(s: &str) -> (r: bool)
    ensures
        r == size_ok(s@),
{
    let chars = chars_of(s);
    let t = squeeze(&chars);
    let n = count_digits(&t);
    n >= 1 && is_unit(&t, n)
}

} // verus!
