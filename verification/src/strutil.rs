//! Verified text utilities: comparison, searching, splitting and
//! decimal rendering, each specified over character sequences.

use vstd::prelude::*;

verus! {

/// The pattern `p` occurs in `s` at position `i`.
pub open spec fn occurs_at(s: Seq<char>, p: Seq<char>, i: int) -> bool {
    0 <= i && i + p.len() <= s.len() && s.subrange(i, i + p.len() as int) == p
}

/// The pattern `p` occurs somewhere in `s`.
pub open spec fn contains_seq(s: Seq<char>, p: Seq<char>) -> bool {
    exists|i: int| occurs_at(s, p, i)
}

/// Equality of two string slices, by character sequence.
pub fn str_eq(a: &str, b: &str) -> (r: bool)
    ensures
        r == (a@ == b@),
{
    let sa: String = a.to_owned();
    let sb: String = b.to_owned();
    sa == sb
}

/// Whether `s` begins with `prefix`.
pub fn starts_with(s: &str, prefix: &str) -> (r: bool)
    ensures
        r == (prefix@.len() <= s@.len() && s@.subrange(0, prefix@.len() as int) == prefix@),
{
    let n = prefix.unicode_len();
    if n > s.unicode_len() {
        return false;
    }
    let head = s.substring_char(0, n);
    str_eq(head, prefix)
}

/// Whether `s` ends with `suffix`.
pub fn ends_with(s: &str, suffix: &str) -> (r: bool)
    ensures
        r == (suffix@.len() <= s@.len() && s@.subrange(
            s@.len() - suffix@.len(),
            s@.len() as int,
        ) == suffix@),
{
    let n = suffix.unicode_len();
    let m = s.unicode_len();
    if n > m {
        return false;
    }
    let tail = s.substring_char(m - n, m);
    str_eq(tail, suffix)
}

/// Whether the pattern `p` occurs at position `i` of `s`.
pub fn occurs_at_exec(s: &str, p: &str, i: usize) -> (r: bool)
    requires
        i <= s@.len(),
    ensures
        r == occurs_at(s@, p@, i as int),
{
    let n = p.unicode_len();
    if s.unicode_len() - i < n {
        return false;
    }
    let part = s.substring_char(i, i + n);
    str_eq(part, p)
}

/// Index of the first occurrence of the pattern `p` in `s`, if any.
pub fn find_sub(s: &str, p: &str) -> (r: Option<usize>)
    ensures
        r matches Some(i) ==> occurs_at(s@, p@, i as int) && forall|j: int|
            0 <= j < i ==> !occurs_at(s@, p@, j),
        r is None ==> forall|j: int| !occurs_at(s@, p@, j),
{
    let m = s.unicode_len();
    let n = p.unicode_len();
    if n > m {
        assert(forall|i: int| !occurs_at(s@, p@, i));
        return None;
    }
    let mut i: usize = 0;
    loop
        invariant
            n <= m,
            m == s@.len(),
            n == p@.len(),
            i <= m - n,
            forall|j: int| 0 <= j < i ==> !occurs_at(s@, p@, j),
        decreases m - n - i,
    {
        if occurs_at_exec(s, p, i) {
            assert(occurs_at(s@, p@, i as int));
            return Some(i);
        }
        if i == m - n {
            assert(forall|j: int| !occurs_at(s@, p@, j));
            return None;
        }
        i = i + 1;
    }
}

/// Whether the pattern `p` occurs anywhere in `s`.
pub fn contains_sub(s: &str, p: &str) -> (r: bool)
    ensures
        r == contains_seq(s@, p@),
{
    match find_sub(s, p) {
        Some(i) => {
            assert(occurs_at(s@, p@, i as int));
            true
        },
        None => false,
    }
}

/// Index of the first occurrence of character `c` in `s`, if any.
pub fn find_char(s: &str, c: char) -> (r: Option<usize>)
    ensures
        match r {
            Some(i) => i < s@.len() && s@[i as int] == c && forall|j: int|
                0 <= j < i ==> s@[j] != c,
            None => forall|j: int| 0 <= j < s@.len() ==> s@[j] != c,
        },
{
    let m = s.unicode_len();
    let mut i: usize = 0;
    while i < m
        invariant
            m == s@.len(),
            i <= m,
            forall|j: int| 0 <= j < i ==> s@[j] != c,
        decreases m - i,
    {
        if s.get_char(i) == c {
            return Some(i);
        }
        i = i + 1;
    }
    None
}

/// Concatenation of two strings.
pub fn concat2(a: &str, b: &str) -> (r: String)
    ensures
        r@ == a@ + b@,
{
    let mut s: String = a.to_owned();
    s.append(b);
    s
}

/// Concatenation of three strings.
pub fn concat3(a: &str, b: &str, c: &str) -> (r: String)
    ensures
        r@ == a@ + b@ + c@,
{
    let mut s: String = a.to_owned();
    s.append(b);
    s.append(c);
    s
}

/// Concatenation of four strings.
pub fn concat4(a: &str, b: &str, c: &str, d: &str) -> (r: String)
    ensures
        r@ == a@ + b@ + c@ + d@,
{
    let mut s: String = a.to_owned();
    s.append(b);
    s.append(c);
    s.append(d);
    s
}

/// The character for one decimal digit.
pub open spec fn digit_char_of(d: nat) -> char {
    if d == 0 {
        '0'
    } else if d == 1 {
        '1'
    } else if d == 2 {
        '2'
    } else if d == 3 {
        '3'
    } else if d == 4 {
        '4'
    } else if d == 5 {
        '5'
    } else if d == 6 {
        '6'
    } else if d == 7 {
        '7'
    } else if d == 8 {
        '8'
    } else {
        '9'
    }
}

/// Decimal rendering of a natural number, most significant digit first.
pub open spec fn dec_str(n: nat) -> Seq<char>
    decreases n,
{
    if n < 10 {
        seq![digit_char_of(n)]
    } else {
        dec_str(n / 10).push(digit_char_of(n % 10))
    }
}

/// One decimal digit as a string slice.
fn digit_str(d: u64) -> (r: &'static str)
    requires
        d < 10,
    ensures
        r@ == seq![digit_char_of(d as nat)],
{
    proof {
        reveal_strlit("0");
        reveal_strlit("1");
        reveal_strlit("2");
        reveal_strlit("3");
        reveal_strlit("4");
        reveal_strlit("5");
        reveal_strlit("6");
        reveal_strlit("7");
        reveal_strlit("8");
        reveal_strlit("9");
    }
    let r: &'static str = match d {
        0 => "0",
        1 => "1",
        2 => "2",
        3 => "3",
        4 => "4",
        5 => "5",
        6 => "6",
        7 => "7",
        8 => "8",
        _ => "9",
    };
    proof {
        assert(r@ =~= seq![digit_char_of(d as nat)]);
    }
    r
}

/// Decimal rendering of an unsigned number.
pub fn u64_to_string(n: u64) -> (r: String)
    ensures
        r@ == dec_str(n as nat),
    decreases n,
{
    if n < 10 {
        digit_str(n).to_owned()
    } else {
        let mut s = u64_to_string(n / 10);
        s.append(digit_str(n % 10));
        proof {
            assert(s@ =~= dec_str(n as nat));
        }
        s
    }
}

/// Decimal rendering of a 32-bit unsigned number.
pub fn u32_to_string(n: u32) -> (r: String)
    ensures
        r@ == dec_str(n as nat),
{
    u64_to_string(n as u64)
}

/// Index of the first newline in `s`, or its length if there is none.
pub open spec fn first_nl(s: Seq<char>) -> int
    decreases s.len(),
{
    if s.len() == 0 {
        0
    } else if s[0] == '\n' {
        0
    } else {
        1 + first_nl(s.skip(1))
    }
}

/// `first_nl` lies in range, points at a newline when one exists, and no
/// newline precedes it.
pub proof fn lemma_first_nl(s: Seq<char>)
    ensures
        0 <= first_nl(s) <= s.len(),
        first_nl(s) < s.len() ==> s[first_nl(s)] == '\n',
        forall|j: int| 0 <= j < first_nl(s) ==> s[j] != '\n',
    decreases s.len(),
{
    if s.len() == 0 {
    } else if s[0] == '\n' {
    } else {
        lemma_first_nl(s.skip(1));
        assert forall|j: int| 0 <= j < first_nl(s) implies s[j] != '\n' by {
            if j > 0 {
                assert(s.skip(1)[j - 1] == s[j]);
            }
        }
    }
}

/// The lines of a text: maximal runs between newline characters, with a
/// trailing newline producing no empty final line.
pub open spec fn lines_of(s: Seq<char>) -> Seq<Seq<char>>
    decreases s.len(),
{
    if s.len() == 0 {
        seq![]
    } else {
        let i = first_nl(s);
        if i == s.len() {
            seq![s]
        } else if 0 <= i < s.len() {
            seq![s.take(i)] + lines_of(s.skip(i + 1))
        } else {
            seq![]
        }
    }
}

/// Split a text into its lines.
pub fn split_lines(s: &str) -> (r: Vec<String>)
    ensures
        r.deep_view() == lines_of(s@),
    decreases s@.len(),
{
    proof {
        lemma_first_nl(s@);
    }
    let m = s.unicode_len();
    if m == 0 {
        let r: Vec<String> = Vec::new();
        assert(r.deep_view() =~= lines_of(s@));
        r
    } else {
        match find_char(s, '\n') {
            None => {
                proof {
                    if first_nl(s@) < s@.len() {
                        assert(s@[first_nl(s@)] == '\n');
                    }
                }
                let mut r: Vec<String> = Vec::new();
                r.push(s.to_owned());
                assert(r.deep_view() =~= lines_of(s@));
                r
            },
            Some(i) => {
                proof {
                    if first_nl(s@) < i {
                        assert(s@[first_nl(s@)] == '\n');
                    }
                    if i < first_nl(s@) {
                        assert(s@[i as int] == '\n');
                    }
                    assert(first_nl(s@) == i);
                }
                let first: String = s.substring_char(0, i).to_owned();
                let rest: &str = s.substring_char(i + 1, m);
                let mut tail = split_lines(rest);
                let ghost tail_dv = tail.deep_view();
                let ghost tail_v = tail@;
                let mut r: Vec<String> = Vec::new();
                r.push(first);
                r.append(&mut tail);
                proof {
                    assert(forall|j: int|
                        0 <= j < tail_v.len() ==> #[trigger] tail_v[j].deep_view()
                            == tail_dv[j]);
                    assert(r.deep_view() =~= seq![s@.take(i as int)] + lines_of(s@.skip(i + 1)));
                }
                r
            },
        }
    }
}

/// Index of the first occurrence of `sep` in `s`, or its length if
/// there is none.
pub open spec fn first_sep(s: Seq<char>, sep: char) -> int
    decreases s.len(),
{
    if s.len() == 0 {
        0
    } else if s[0] == sep {
        0
    } else {
        1 + first_sep(s.skip(1), sep)
    }
}

/// `first_sep` lies in range, points at the separator when one exists,
/// and no separator precedes it.
pub proof fn lemma_first_sep(s: Seq<char>, sep: char)
    ensures
        0 <= first_sep(s, sep) <= s.len(),
        first_sep(s, sep) < s.len() ==> s[first_sep(s, sep)] == sep,
        forall|j: int| 0 <= j < first_sep(s, sep) ==> s[j] != sep,
    decreases s.len(),
{
    if s.len() == 0 {
    } else if s[0] == sep {
    } else {
        lemma_first_sep(s.skip(1), sep);
        assert forall|j: int| 0 <= j < first_sep(s, sep) implies s[j] != sep by {
            if j > 0 {
                assert(s.skip(1)[j - 1] == s[j]);
            }
        }
    }
}

/// The fields of a text split on a separator character; a trailing
/// separator yields no empty final field.
pub open spec fn fields_of(s: Seq<char>, sep: char) -> Seq<Seq<char>>
    decreases s.len(),
{
    if s.len() == 0 {
        seq![]
    } else {
        let i = first_sep(s, sep);
        if i == s.len() {
            seq![s]
        } else if 0 <= i < s.len() {
            seq![s.take(i)] + fields_of(s.skip(i + 1), sep)
        } else {
            seq![]
        }
    }
}

/// Split a text on a separator character.
pub fn split_sep(s: &str, sep: char) -> (r: Vec<String>)
    ensures
        r.deep_view() == fields_of(s@, sep),
    decreases s@.len(),
{
    proof {
        lemma_first_sep(s@, sep);
    }
    let m = s.unicode_len();
    if m == 0 {
        let r: Vec<String> = Vec::new();
        assert(r.deep_view() =~= fields_of(s@, sep));
        r
    } else {
        match find_char(s, sep) {
            None => {
                proof {
                    if first_sep(s@, sep) < s@.len() {
                        assert(s@[first_sep(s@, sep)] == sep);
                    }
                }
                let mut r: Vec<String> = Vec::new();
                r.push(s.to_owned());
                assert(r.deep_view() =~= fields_of(s@, sep));
                r
            },
            Some(i) => {
                proof {
                    if first_sep(s@, sep) < i {
                        assert(s@[first_sep(s@, sep)] == sep);
                    }
                    if i < first_sep(s@, sep) {
                        assert(s@[i as int] == sep);
                    }
                    assert(first_sep(s@, sep) == i);
                }
                let first: String = s.substring_char(0, i).to_owned();
                let rest: &str = s.substring_char(i + 1, m);
                let mut tail = split_sep(rest, sep);
                let ghost tail_dv = tail.deep_view();
                let ghost tail_v = tail@;
                let mut r: Vec<String> = Vec::new();
                r.push(first);
                r.append(&mut tail);
                proof {
                    assert(forall|j: int|
                        0 <= j < tail_v.len() ==> #[trigger] tail_v[j].deep_view()
                            == tail_dv[j]);
                    assert(r.deep_view() =~= seq![s@.take(i as int)] + fields_of(
                        s@.skip(i + 1),
                        sep,
                    ));
                }
                r
            },
        }
    }
}

} // verus!
