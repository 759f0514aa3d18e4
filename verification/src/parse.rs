//! Reading numbers and pieces out of text.
use crate::text::digit;
use vstd::prelude::*;

verus! {

/// The characters of a text.
pub fn chars_of(s: &str) -> (v: Vec<char>)
    ensures
        v@ == s@,
{
    let mut v: Vec<char> = Vec::new();
    for c in it: s.chars()
        invariant
            v@ == it.seq().take(it.index() as int),
            it.seq() == s@,
    {
        v.push(c);
        assert(it.seq().take(it.index() + 1) == it.seq().take(it.index() as int).push(c));
    }
    assert(s@.take(s@.len() as int) == s@);
    v
}

/// The text of `v[from..to]`.
pub fn text_of(v: &Vec<char>, from: usize, to: usize) -> (s: String)
    requires
        from <= to <= v.len(),
    ensures
        s@ == v@.subrange(from as int, to as int),
{
    let mut s = String::new();
    let mut i: usize = from;
    while i < to
        invariant
            from <= i <= to <= v.len(),
            s@ == v@.subrange(from as int, i as int),
        decreases to - i,
    {
        s.push(v[i]);
        i = i + 1;
        assert(v@.subrange(from as int, i as int) == v@.subrange(from as int, i - 1).push(
            v@[i - 1],
        ));
    }
    s
}

/// The characters with the Unicode property White_Space.
pub open spec fn white(c: char) -> bool {
    ('\u{9}' <= c && c <= '\u{d}') || c == ' ' || c == '\u{85}' || c == '\u{a0}' || c == '\u{1680}'
        || ('\u{2000}' <= c && c <= '\u{200a}') || c == '\u{2028}' || c == '\u{2029}' || c
        == '\u{202f}' || c == '\u{205f}' || c == '\u{3000}'
}

pub fn is_white(c: char) -> (b: bool)
    ensures
        b == white(c),
{
    ('\u{9}' <= c && c <= '\u{d}') || c == ' ' || c == '\u{85}' || c == '\u{a0}' || c == '\u{1680}'
        || ('\u{2000}' <= c && c <= '\u{200a}') || c == '\u{2028}' || c == '\u{2029}' || c
        == '\u{202f}' || c == '\u{205f}' || c == '\u{3000}'
}

/// `s` without the white space in front.
pub open spec fn trim_front(s: Seq<char>) -> Seq<char>
    decreases s.len(),
{
    if s.len() > 0 && white(s[0]) {
        trim_front(s.drop_first())
    } else {
        s
    }
}

/// `s` without the white space at its end.
pub open spec fn trim_back(s: Seq<char>) -> Seq<char>
    decreases s.len(),
{
    if s.len() > 0 && white(s.last()) {
        trim_back(s.drop_last())
    } else {
        s
    }
}

/// `s` without the white space around it.
pub open spec fn trimmed(s: Seq<char>) -> Seq<char> {
    trim_back(trim_front(s))
}

fn front_of(v: &Vec<char>) -> (i: usize)
    ensures
        i <= v.len(),
        trim_front(v@) == v@.skip(i as int),
{
    let mut i: usize = 0;
    assert(v@.skip(0) == v@);
    while i < v.len() && is_white(v[i])
        invariant
            i <= v.len(),
            trim_front(v@) == trim_front(v@.skip(i as int)),
        decreases v.len() - i,
    {
        assert(v@.skip(i as int).drop_first() == v@.skip(i + 1));
        i = i + 1;
    }
    i
}

fn back_of(v: &Vec<char>, from: usize) -> (j: usize)
    requires
        from <= v.len(),
    ensures
        from <= j <= v.len(),
        trim_back(v@.skip(from as int)) == v@.subrange(from as int, j as int),
{
    let mut j: usize = v.len();
    assert(v@.skip(from as int) == v@.subrange(from as int, j as int));
    while j > from && is_white(v[j - 1])
        invariant
            from <= j <= v.len(),
            trim_back(v@.skip(from as int)) == trim_back(v@.subrange(from as int, j as int)),
        decreases j,
    {
        assert(v@.subrange(from as int, j as int).drop_last() == v@.subrange(from as int, j - 1));
        assert(v@.subrange(from as int, j as int).last() == v@[j - 1]);
        j = j - 1;
    }
    proof {
        if j > from {
            assert(v@.subrange(from as int, j as int).last() == v@[j - 1]);
        }
    }
    j
}

/// The text without the white space around it.
pub fn trim(s: &str) -> (r: String)
    ensures
        r@ == trimmed(s@),
{
    let v = chars_of(s);
    let i: usize = front_of(&v);
    let j: usize = back_of(&v, i);
    text_of(&v, i, j)
}

/// The text without the white space in front.
pub fn trim_start(s: &str) -> (r: String)
    ensures
        r@ == trim_front(s@),
{
    let v = chars_of(s);
    let i: usize = front_of(&v);
    assert(v@.subrange(i as int, v@.len() as int) == v@.skip(i as int));
    text_of(&v, i, v.len())
}

/// The text without the white space at its end.
pub fn trim_end(s: &str) -> (r: String)
    ensures
        r@ == trim_back(s@),
{
    let v = chars_of(s);
    let j: usize = back_of(&v, 0);
    assert(v@.skip(0) == v@);
    text_of(&v, 0, j)
}

pub open spec fn is_digit(c: char) -> bool {
    '0' <= c && c <= '9'
}

pub open spec fn all_digits(s: Seq<char>) -> bool {
    forall|i: int| 0 <= i < s.len() ==> is_digit(#[trigger] s[i])
}

/// The number that decimal digits stand for.
pub open spec fn digits_value(s: Seq<char>) -> int
    decreases s.len(),
{
    if s.len() == 0 {
        0
    } else {
        digits_value(s.drop_last()) * 10 + (s.last() as int - 0x30)
    }
}

/// A natural number in decimal: one or more digits, perhaps behind a plus.
pub open spec fn natural(s: Seq<char>) -> Option<int> {
    let d = if s.len() > 0 && s[0] == '+' {
        s.drop_first()
    } else {
        s
    };
    if d.len() > 0 && all_digits(d) {
        Some(digits_value(d))
    } else {
        None
    }
}

/// An integer in decimal: one or more digits, perhaps behind a sign.
pub open spec fn signed_value(s: Seq<char>) -> Option<int> {
    if s.len() > 0 && s[0] == '-' {
        let d = s.drop_first();
        if d.len() > 0 && all_digits(d) {
            Some(-digits_value(d))
        } else {
            None
        }
    } else {
        natural(s)
    }
}

proof fn digits_value_bounds(s: Seq<char>)
    requires
        all_digits(s),
    ensures
        digits_value(s) >= 0,
    decreases s.len(),
{
    if s.len() > 0 {
        assert forall|i: int| 0 <= i < s.drop_last().len() implies is_digit(
            #[trigger] s.drop_last()[i],
        ) by {
            assert(s.drop_last()[i] == s[i]);
        }
        digits_value_bounds(s.drop_last());
        assert(is_digit(s[s.len() - 1]));
    }
}

/// A longer digit sequence has no smaller value.
proof fn digits_value_grows(s: Seq<char>, i: int)
    requires
        all_digits(s),
        0 <= i <= s.len(),
    ensures
        digits_value(s.take(i)) <= digits_value(s),
    decreases s.len() - i,
{
    if i == s.len() {
        assert(s.take(i) == s);
    } else {
        digits_value_grows(s, i + 1);
        assert(s.take(i + 1).drop_last() == s.take(i));
        assert(is_digit(s[i]));
        assert forall|k: int| 0 <= k < s.take(i).len() implies is_digit(#[trigger] s.take(i)[k]) by {
            assert(s.take(i)[k] == s[k]);
        }
        digits_value_bounds(s.take(i));
    }
}

/// What the digits from `from` on stand for; `None` where they are no digits
/// or the value is beyond `limit`.
fn read_digits(v: &Vec<char>, from: usize, limit: u64) -> (r: Option<u64>)
    requires
        from <= v.len(),
    ensures
        ({
            let d = v@.skip(from as int);
            match r {
                Some(n) => d.len() > 0 && all_digits(d) && n == digits_value(d) && n <= limit,
                None => d.len() == 0 || !all_digits(d) || digits_value(d) > limit,
            }
        }),
{
    let ghost d = v@.skip(from as int);
    if from == v.len() {
        return None;
    }
    let mut k: usize = from;
    while k < v.len()
        invariant
            from <= k <= v.len(),
            d == v@.skip(from as int),
            forall|j: int| 0 <= j < k - from ==> is_digit(#[trigger] d[j]),
        decreases v.len() - k,
    {
        let c = v[k];
        if !('0' <= c && c <= '9') {
            assert(!is_digit(d[k - from]));
            return None;
        }
        k = k + 1;
    }
    assert(all_digits(d));
    let mut i: usize = from;
    let mut n: u64 = 0;
    assert(d.take(0) == Seq::<char>::empty());
    while i < v.len()
        invariant
            from <= i <= v.len(),
            d == v@.skip(from as int),
            all_digits(d),
            n == digits_value(d.take(i - from)),
            n <= limit,
        decreases v.len() - i,
    {
        let c = v[i];
        proof {
            assert(is_digit(d[i - from]));
            assert(d.take(i - from + 1).drop_last() == d.take(i - from));
            digits_value_grows(d, i - from + 1);
        }
        let digit: u64 = (c as u32 - 0x30) as u64;
        if n > (limit - if digit <= limit { digit } else { limit }) / 10 || digit > limit {
            return None;
        }
        n = n * 10 + digit;
        i = i + 1;
    }
    assert(d.take(i - from) == d);
    Some(n)
}

/// Reads a 64-bit natural number.
pub fn parse_u64(s: &str) -> (r: Option<u64>)
    ensures
        match natural(s@) {
            Some(n) => r == (if n <= u64::MAX {
                Some(n as u64)
            } else {
                None
            }),
            None => r is None,
        },
        natural(s@) matches Some(n) ==> n >= 0,
{
    let v = chars_of(s);
    proof {
        if natural(s@) is Some {
            digits_value_bounds(
                if s@.len() > 0 && s@[0] == '+' {
                    s@.drop_first()
                } else {
                    s@
                },
            );
        }
    }
    if v.len() > 0 && v[0] == '+' {
        assert(v@.skip(1) == s@.drop_first());
        read_digits(&v, 1, u64::MAX)
    } else {
        assert(v@.skip(0) == s@);
        read_digits(&v, 0, u64::MAX)
    }
}

/// Reads a 64-bit integer.
pub fn parse_i64(s: &str) -> (r: Option<i64>)
    ensures
        match signed_value(s@) {
            Some(n) => r == (if i64::MIN <= n <= i64::MAX {
                Some(n as i64)
            } else {
                None
            }),
            None => r is None,
        },
{
    let v = chars_of(s);
    if v.len() > 0 && v[0] == '-' {
        assert(v@.skip(1) == s@.drop_first());
        match read_digits(&v, 1, 0x8000_0000_0000_0000) {
            Some(n) => if n == 0x8000_0000_0000_0000 {
                Some(i64::MIN)
            } else {
                Some(-(n as i64))
            },
            None => None,
        }
    } else {
        let max: u64 = 0x7FFF_FFFF_FFFF_FFFF;
        if v.len() > 0 && v[0] == '+' {
            assert(v@.skip(1) == s@.drop_first());
            proof {
                if all_digits(s@.drop_first()) {
                    digits_value_bounds(s@.drop_first());
                }
            }
            match read_digits(&v, 1, max) {
                Some(n) => Some(n as i64),
                None => None,
            }
        } else {
            assert(v@.skip(0) == s@);
            proof {
                if all_digits(s@) {
                    digits_value_bounds(s@);
                }
            }
            match read_digits(&v, 0, max) {
                Some(n) => Some(n as i64),
                None => None,
            }
        }
    }
}

/// `d` stands in `s` from `i` on.
pub open spec fn occurs_at(s: Seq<char>, d: Seq<char>, i: int) -> bool {
    0 <= i && i + d.len() <= s.len() && s.subrange(i, i + d.len()) == d
}

/// The first place from `from` on where `d` stands, or the length.
pub open spec fn first_place(s: Seq<char>, d: Seq<char>, from: int) -> int
    decreases s.len() - from,
{
    if from >= s.len() {
        s.len() as int
    } else if occurs_at(s, d, from) {
        from
    } else {
        first_place(s, d, from + 1)
    }
}

/// The non-empty pieces of `s` from `from` on between occurrences of `d`; an
/// empty `d` parts all characters.
pub open spec fn pieces(s: Seq<char>, d: Seq<char>, from: int) -> Seq<Seq<char>>
    decreases s.len() - from,
{
    if from >= s.len() || from < 0 {
        Seq::empty()
    } else if d.len() == 0 {
        seq![seq![s[from]]] + pieces(s, d, from + 1)
    } else {
        let i = first_place(s, d, from);
        let rest = if i < from || i + d.len() > s.len() {
            Seq::empty()
        } else {
            pieces(s, d, i + d.len())
        };
        if i > from {
            seq![s.subrange(from, i)] + rest
        } else {
            rest
        }
    }
}

pub fn stands(s: &Vec<char>, d: &Vec<char>, i: usize) -> (b: bool)
    requires
        i <= s.len(),
    ensures
        b == occurs_at(s@, d@, i as int),
{
    if d.len() > s.len() - i {
        return false;
    }
    let mut k: usize = 0;
    while k < d.len()
        invariant
            k <= d.len(),
            i + d.len() <= s.len(),
            forall|j: int| 0 <= j < k ==> s@[i + j] == d@[j],
        decreases d.len() - k,
    {
        if s[i + k] != d[k] {
            assert(s@.subrange(i as int, i + d@.len())[k as int] != d@[k as int]);
            return false;
        }
        k = k + 1;
    }
    assert(s@.subrange(i as int, i + d@.len()) == d@);
    true
}

pub fn find_place(s: &Vec<char>, d: &Vec<char>, from: usize) -> (i: usize)
    requires
        from <= s.len(),
    ensures
        i == first_place(s@, d@, from as int),
        from <= i <= s.len(),
{
    let mut i: usize = from;
    while i < s.len()
        invariant
            from <= i <= s.len(),
            first_place(s@, d@, from as int) == first_place(s@, d@, i as int),
        decreases s.len() - i,
    {
        if stands(s, d, i) {
            return i;
        }
        i = i + 1;
    }
    i
}

/// The non-empty pieces of a text between occurrences of a delimiter.
pub fn split_pieces(s: &str, d: &str) -> (r: Vec<String>)
    ensures
        r@.map_values(|t: String| t@) == pieces(s@, d@, 0),
{
    let v = chars_of(s);
    let e = chars_of(d);
    let mut r: Vec<String> = Vec::new();
    let mut from: usize = 0;
    let ghost view = |t: String| t@;
    assert(r@.map_values(view) + pieces(s@, d@, 0) == pieces(s@, d@, 0));
    while from < v.len()
        invariant
            v@ == s@,
            e@ == d@,
            view == (|t: String| t@),
            r@.map_values(view) + pieces(s@, d@, from as int) == pieces(s@, d@, 0),
        decreases v.len() - from,
    {
        let ghost before = r@;
        let ghost here = pieces(s@, d@, from as int);
        if e.len() == 0 {
            let piece = text_of(&v, from, from + 1);
            proof {
                assert(piece@ == seq![s@[from as int]]);
            }
            r.push(piece);
            assert(r@.map_values(view) == before.map_values(view).push(piece@));
            from = from + 1;
            assert(here == seq![piece@] + pieces(s@, d@, from as int));
            assert(before.map_values(view) + here == r@.map_values(view) + pieces(
                s@,
                d@,
                from as int,
            ));
        } else {
            let i: usize = find_place(&v, &e, from);
            let ghost rest = if i + d@.len() > s@.len() {
                Seq::empty()
            } else {
                pieces(s@, d@, i + d@.len())
            };
            if i > from {
                let piece = text_of(&v, from, i);
                r.push(piece);
                assert(r@.map_values(view) == before.map_values(view).push(piece@));
                assert(here == seq![piece@] + rest);
            }
            assert(before.map_values(view) + here == r@.map_values(view) + rest);
            if e.len() >= v.len() - i {
                from = v.len();
                assert(rest == Seq::<Seq<char>>::empty());
            } else {
                from = i + e.len();
            }
        }
    }
    assert(r@.map_values(view) + Seq::<Seq<char>>::empty() == r@.map_values(view));
    r
}

} // verus!
