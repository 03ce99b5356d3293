use vstd::prelude::*;
use vstd::string::*;
use crate::state::names_view;

verus! {

/// `a` followed by `b`.
pub fn concat(a: &str, b: &str) -> (s: String)
    ensures
        s@ == a@ + b@,
{
    let mut s = String::from_str(a);
    s.append(b);
    s
}

/// `a`, `b` and `c` in a row.
pub fn concat3(a: &str, b: &str, c: &str) -> (s: String)
    ensures
        s@ == a@ + b@ + c@,
{
    let mut s = String::from_str(a);
    s.append(b);
    s.append(c);
    s
}

/// Whether two strings hold the same characters.
pub fn same(a: &str, b: &str) -> (r: bool)
    ensures
        r == (a@ == b@),
{
    let x = String::from_str(a);
    let y = String::from_str(b);
    x == y
}

/// The characters of a string, in order.
pub fn chars_of(s: &str) -> (v: Vec<char>)
    ensures
        v@ == s@,
{
    let n = s.unicode_len();
    let mut v: Vec<char> = Vec::new();
    let mut i: usize = 0;
    while i < n
        invariant
            n == s@.len(),
            i <= n,
            v@ == s@.subrange(0, i as int),
        decreases n - i,
    {
        v.push(s.get_char(i));
        i += 1;
        assert(v@ =~= s@.subrange(0, i as int));
    }
    assert(v@ =~= s@);
    v
}

/// Collects characters into a `String` with `String::from_iter`; the
/// resulting string holds exactly the given characters in the given order.
#[verifier::external_body]
pub(crate) fn string_of(v: &Vec<char>) -> (s: String)
    ensures
        s@ == v@,
{
    String::from_iter(v.iter())
}

/// `pat` occurs in `s` at offset `at`.
pub open spec fn occurs_at(s: Seq<char>, pat: Seq<char>, at: int) -> bool {
    0 <= at && at + pat.len() <= s.len() && s.subrange(at, at + pat.len()) == pat
}

/// `pat` occurs somewhere in `s`.
pub open spec fn has_sub(s: Seq<char>, pat: Seq<char>) -> bool {
    exists|at: int| occurs_at(s, pat, at)
}

/// Whether `pat` occurs in `s` at offset `at`.
pub fn matches_at(s: &Vec<char>, pat: &Vec<char>, at: usize) -> (r: bool)
    ensures
        r == occurs_at(s@, pat@, at as int),
{
    if pat.len() > s.len() || at > s.len() - pat.len() {
        return false;
    }
    let mut k: usize = 0;
    while k < pat.len()
        invariant
            at + pat.len() <= s.len(),
            k <= pat.len(),
            forall|j: int| 0 <= j < k ==> s@[at + j] == pat@[j],
        decreases pat.len() - k,
    {
        if s[at + k] != pat[k] {
            assert(s@.subrange(at as int, at + pat.len())[k as int] == s@[at + k]);
            return false;
        }
        k += 1;
    }
    assert(s@.subrange(at as int, at + pat.len()) =~= pat@);
    true
}

/// Whether `pat` occurs somewhere in `s`.
pub fn contains(s: &str, pat: &str) -> (r: bool)
    ensures
        r == has_sub(s@, pat@),
{
    let sv = chars_of(s);
    let pv = chars_of(pat);
    let mut at: usize = 0;
    while at < sv.len()
        invariant
            sv@ == s@,
            pv@ == pat@,
            at <= sv.len(),
            forall|j: int| 0 <= j < at ==> !occurs_at(sv@, pv@, j),
        decreases sv.len() - at,
    {
        if matches_at(&sv, &pv, at) {
            return true;
        }
        at += 1;
    }
    matches_at(&sv, &pv, at)
}

/// The decimal digit for a number below ten.
pub open spec fn digit(d: nat) -> char {
    if d == 0 {
        '0'
    } else if d == 1 {
        '1'
    } else if d == 2 {
        '2'
    } else if d == 3 {
        '3'
    } else if d == 4 {
        '4'
    } else if d == 5 {
        '5'
    } else if d == 6 {
        '6'
    } else if d == 7 {
        '7'
    } else if d == 8 {
        '8'
    } else {
        '9'
    }
}

/// Decimal notation of a natural number, without leading zeros.
pub open spec fn decimal(n: nat) -> Seq<char>
    decreases n,
{
    if n < 10 {
        seq![digit(n)]
    } else {
        decimal(n / 10).push(digit(n % 10))
    }
}

fn digit_char(d: usize) -> (c: char)
    requires
        d < 10,
    ensures
        c == digit(d as nat),
{
    if d == 0 {
        '0'
    } else if d == 1 {
        '1'
    } else if d == 2 {
        '2'
    } else if d == 3 {
        '3'
    } else if d == 4 {
        '4'
    } else if d == 5 {
        '5'
    } else if d == 6 {
        '6'
    } else if d == 7 {
        '7'
    } else if d == 8 {
        '8'
    } else {
        '9'
    }
}

fn decimal_chars(n: usize) -> (v: Vec<char>)
    ensures
        v@ == decimal(n as nat),
    decreases n,
{
    if n < 10 {
        let mut v: Vec<char> = Vec::new();
        v.push(digit_char(n));
        assert(v@ =~= seq![digit(n as nat)]);
        v
    } else {
        let mut v = decimal_chars(n / 10);
        v.push(digit_char(n % 10));
        v
    }
}

/// Decimal notation of `n`.
pub fn to_decimal(n: usize) -> (s: String)
    ensures
        s@ == decimal(n as nat),
{
    let v = decimal_chars(n);
    string_of(&v)
}

/// Whether a character is white space: one of the characters that Unicode
/// gives the property `White_Space`, as `char::is_whitespace` tells.
pub open spec fn white(c: char) -> bool {
    c == '\u{9}' || c == '\u{a}' || c == '\u{b}' || c == '\u{c}' || c == '\u{d}' || c == ' '
        || c == '\u{85}' || c == '\u{a0}' || c == '\u{1680}' || c == '\u{2000}' || c
        == '\u{2001}' || c == '\u{2002}' || c == '\u{2003}' || c == '\u{2004}' || c
        == '\u{2005}' || c == '\u{2006}' || c == '\u{2007}' || c == '\u{2008}' || c
        == '\u{2009}' || c == '\u{200a}' || c == '\u{2028}' || c == '\u{2029}' || c
        == '\u{202f}' || c == '\u{205f}' || c == '\u{3000}'
}

/// Whether a character is white space.
pub fn is_white(c: char) -> (r: bool)
    ensures
        r == white(c),
{
    c == '\u{9}' || c == '\u{a}' || c == '\u{b}' || c == '\u{c}' || c == '\u{d}' || c == ' '
        || c == '\u{85}' || c == '\u{a0}' || c == '\u{1680}' || c == '\u{2000}' || c
        == '\u{2001}' || c == '\u{2002}' || c == '\u{2003}' || c == '\u{2004}' || c
        == '\u{2005}' || c == '\u{2006}' || c == '\u{2007}' || c == '\u{2008}' || c
        == '\u{2009}' || c == '\u{200a}' || c == '\u{2028}' || c == '\u{2029}' || c
        == '\u{202f}' || c == '\u{205f}' || c == '\u{3000}'
}

/// What parts a text at: white space, or line ends only.
#[derive(Debug, Clone, Copy, PartialEq, Eq)]
pub enum Cut {
    Blanks,
    Lines,
}

/// The character parts a text that is cut this way.
pub open spec fn parts_at(cut: Cut, c: char) -> bool {
    match cut {
        Cut::Blanks => white(c),
        Cut::Lines => c == '\n',
    }
}

fn is_cut(cut: Cut, c: char) -> (r: bool)
    ensures
        r == parts_at(cut, c),
{
    match cut {
        Cut::Blanks => is_white(c),
        Cut::Lines => c == '\n',
    }
}

/// The pieces of a text: its longest runs of characters that do not part
/// it, in order.
pub open spec fn pieces(s: Seq<char>, cut: Cut) -> Seq<Seq<char>>
    decreases s.len(),
{
    if s.len() == 0 {
        Seq::empty()
    } else {
        let before = pieces(s.drop_last(), cut);
        if parts_at(cut, s.last()) {
            before
        } else if s.len() >= 2 && !parts_at(cut, s[s.len() - 2]) {
            before.drop_last().push(before.last().push(s.last()))
        } else {
            before.push(seq![s.last()])
        }
    }
}

/// The words of a text: its longest runs of characters that are not white
/// space, in order.
pub open spec fn words(s: Seq<char>) -> Seq<Seq<char>> {
    pieces(s, Cut::Blanks)
}

/// The lines of a text that are not empty, in order.
pub open spec fn lines(s: Seq<char>) -> Seq<Seq<char>> {
    pieces(s, Cut::Lines)
}

/// The pieces of a sequence of characters.
pub fn split_chars(chars: &Vec<char>, cut: Cut) -> (out: Vec<String>)
    ensures
        names_view(out@) == pieces(chars@, cut),
{
    let mut out: Vec<String> = Vec::new();
    let mut cur: Vec<char> = Vec::new();
    let mut i: usize = 0;
    assert(names_view(out@) =~= pieces(chars@.take(0), cut));
    while i < chars.len()
        invariant
            i <= chars.len(),
            i > 0 && !parts_at(cut, chars@[i - 1]) ==> cur@.len() > 0 && pieces(
                chars@.take(i as int),
                cut,
            ) == names_view(out@).push(cur@),
            !(i > 0 && !parts_at(cut, chars@[i - 1])) ==> cur@.len() == 0 && pieces(
                chars@.take(i as int),
                cut,
            ) == names_view(out@),
        decreases chars.len() - i,
    {
        let c = chars[i];
        let ghost done = names_view(out@);
        let ghost word = cur@;
        assert(chars@.take(i + 1).drop_last() =~= chars@.take(i as int));
        assert(chars@.take(i + 1).last() == c);
        assert(i > 0 ==> chars@.take(i + 1)[i - 1] == chars@[i - 1]);
        if is_cut(cut, c) {
            if cur.len() > 0 {
                out.push(string_of(&cur));
                cur = Vec::new();
                assert(names_view(out@) =~= done.push(word));
            }
        } else {
            cur.push(c);
            proof {
                if i > 0 && !parts_at(cut, chars@[i - 1]) {
                    assert(done.push(word).drop_last() =~= done);
                } else {
                    assert(cur@ =~= seq![c]);
                }
            }
        }
        i += 1;
    }
    assert(chars@.take(i as int) =~= chars@);
    if cur.len() > 0 {
        let ghost done = names_view(out@);
        out.push(string_of(&cur));
        assert(names_view(out@) =~= done.push(cur@));
    }
    out
}

/// The words of a text, split at white space.
pub fn split_words(s: &str) -> (out: Vec<String>)
    ensures
        names_view(out@) == words(s@),
{
    let chars = chars_of(s);
    split_chars(&chars, Cut::Blanks)
}

/// The lines of a text that are not empty.
pub fn split_lines(s: &str) -> (out: Vec<String>)
    ensures
        names_view(out@) == lines(s@),
{
    let chars = chars_of(s);
    split_chars(&chars, Cut::Lines)
}

/// The characters of `v` from `from` up to `to`.
pub fn slice_of(v: &Vec<char>, from: usize, to: usize) -> (out: Vec<char>)
    requires
        from <= to <= v.len(),
    ensures
        out@ == v@.subrange(from as int, to as int),
{
    let mut out: Vec<char> = Vec::new();
    let mut i: usize = from;
    while i < to
        invariant
            from <= i <= to <= v.len(),
            out@ == v@.subrange(from as int, i as int),
        decreases to - i,
    {
        out.push(v[i]);
        i += 1;
        assert(out@ =~= v@.subrange(from as int, i as int));
    }
    out
}

/// Where `c` stands first in `s` at or after `from`, or the length of `s`.
pub open spec fn first_of(s: Seq<char>, c: char, from: int) -> int
    decreases s.len() - from,
{
    if from < 0 || from >= s.len() {
        s.len() as int
    } else if s[from] == c {
        from
    } else {
        first_of(s, c, from + 1)
    }
}

/// Where `c` stands first in `v`, or the length of `v`.
pub fn find_char(v: &Vec<char>, c: char) -> (at: usize)
    ensures
        at == first_of(v@, c, 0),
        at <= v.len(),
{
    let mut i: usize = 0;
    while i < v.len()
        invariant
            i <= v.len(),
            first_of(v@, c, 0) == first_of(v@, c, i as int),
        decreases v.len() - i,
    {
        if v[i] == c {
            return i;
        }
        i += 1;
    }
    i
}

/// The text with every occurrence of `pat` replaced by `val`, found from
/// left to right and not overlapping. An empty pattern leaves the text as
/// it is.
pub open spec fn replace_all(s: Seq<char>, pat: Seq<char>, val: Seq<char>) -> Seq<char>
    decreases s.len(),
{
    if s.len() == 0 || pat.len() == 0 {
        s
    } else if occurs_at(s, pat, 0) {
        val + replace_all(s.skip(pat.len() as int), pat, val)
    } else {
        seq![s[0]] + replace_all(s.skip(1), pat, val)
    }
}

fn push_all(out: &mut Vec<char>, more: &Vec<char>)
    ensures
        final(out)@ == old(out)@ + more@,
{
    let ghost start = out@;
    let mut k: usize = 0;
    while k < more.len()
        invariant
            k <= more.len(),
            out@ == start + more@.take(k as int),
        decreases more.len() - k,
    {
        out.push(more[k]);
        k += 1;
        assert(out@ =~= start + more@.take(k as int));
    }
    assert(more@.take(k as int) =~= more@);
}

/// The text with every occurrence of the pattern replaced; an empty
/// pattern occurs nowhere.
pub fn replace(s: &str, pat: &str, val: &str) -> (r: String)
    ensures
        r@ == replace_all(s@, pat@, val@),
{
    let sv = chars_of(s);
    let pv = chars_of(pat);
    let vv = chars_of(val);
    if pv.len() == 0 {
        return string_of(&sv);
    }
    let mut out: Vec<char> = Vec::new();
    let mut i: usize = 0;
    assert(sv@.skip(0) =~= sv@);
    assert(out@ + replace_all(sv@.skip(0), pv@, vv@) =~= replace_all(sv@, pv@, vv@));
    while i < sv.len()
        invariant
            i <= sv.len(),
            pv@.len() > 0,
            out@ + replace_all(sv@.skip(i as int), pv@, vv@) == replace_all(sv@, pv@, vv@),
        decreases sv.len() - i,
    {
        let ghost rest = sv@.skip(i as int);
        let ghost before = out@;
        proof {
            if i + pv@.len() <= sv@.len() {
                assert(rest.subrange(0, pv@.len() as int) =~= sv@.subrange(
                    i as int,
                    i + pv@.len(),
                ));
            }
        }
        if matches_at(&sv, &pv, i) {
            assert(occurs_at(rest, pv@, 0));
            push_all(&mut out, &vv);
            assert(rest.skip(pv@.len() as int) =~= sv@.skip(i + pv@.len()));
            i += pv.len();
            assert((before + vv@) + replace_all(sv@.skip(i as int), pv@, vv@) =~= before + (vv@
                + replace_all(sv@.skip(i as int), pv@, vv@)));
        } else {
            assert(!occurs_at(rest, pv@, 0));
            out.push(sv[i]);
            assert(rest.skip(1) =~= sv@.skip(i + 1));
            i += 1;
            assert(before.push(rest[0]) + replace_all(sv@.skip(i as int), pv@, vv@) =~= before + (
            seq![rest[0]] + replace_all(sv@.skip(i as int), pv@, vv@)));
        }
    }
    assert(out@ + replace_all(sv@.skip(i as int), pv@, vv@) =~= out@);
    string_of(&out)
}

/// The words of a command line split as a POSIX shell splits it, quotes and
/// escapes resolved, or `None` where the line is malformed. It is what
/// `shlex::split` returns for the line.
pub uninterp spec fn shell_words(s: Seq<char>) -> Option<Seq<Seq<char>>>;

/// Splits a command line with `shlex::split`.
#[verifier::external_body]
pub(crate) fn shell_split(s: &str) -> (r: Option<Vec<String>>)
    ensures
        match r {
            Some(parts) => shell_words(s@) == Some(names_view(parts@)),
            None => shell_words(s@) is None,
        },
{
    shlex::split(s)
}

/// The parts in a row, with `sep` between each two.
pub open spec fn joined(parts: Seq<Seq<char>>, sep: Seq<char>) -> Seq<char>
    decreases parts.len(),
{
    if parts.len() == 0 {
        Seq::empty()
    } else if parts.len() == 1 {
        parts[0]
    } else {
        joined(parts.drop_last(), sep) + sep + parts.last()
    }
}

/// The parts in a row, with `sep` between each two.
pub fn join(parts: &Vec<String>, sep: &str) -> (s: String)
    ensures
        s@ == joined(names_view(parts@), sep@),
{
    let ghost all = names_view(parts@);
    let mut s = String::new();
    let mut i: usize = 0;
    assert(all.take(0) =~= Seq::<Seq<char>>::empty());
    while i < parts.len()
        invariant
            i <= parts.len(),
            all == names_view(parts@),
            s@ == joined(all.take(i as int), sep@),
        decreases parts.len() - i,
    {
        assert(all.take(i + 1).drop_last() =~= all.take(i as int));
        if i > 0 {
            s.append(sep);
            s.append(parts[i].as_str());
        } else {
            s.append(parts[i].as_str());
            assert(s@ =~= all[0]);
        }
        i += 1;
    }
    assert(all.take(i as int) =~= all);
    s
}

/// A copy of a list of names.
pub fn copy_names(names: &Vec<String>) -> (out: Vec<String>)
    ensures
        names_view(out@) == names_view(names@),
{
    let mut out: Vec<String> = Vec::new();
    let mut i: usize = 0;
    while i < names.len()
        invariant
            i <= names.len(),
            out@.len() == i,
            forall|k: int| 0 <= k < i ==> out@[k]@ == names@[k]@,
        decreases names.len() - i,
    {
        out.push(names[i].clone());
        i += 1;
    }
    assert(names_view(out@) =~= names_view(names@));
    out
}

} // verus!
