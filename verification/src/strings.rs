//! Joining, splitting and comparing texts.
use crate::parse::{chars_of, is_white, occurs_at, stands, text_of, white};
use crate::values::texts;
use vstd::prelude::*;
use vstd::string::StringExecFns;

verus! {

pub fn cat2(a: &str, b: &str) -> (r: String)
    ensures
        r@ == a@ + b@,
{
    let mut r = String::from_str(a);
    r.append(b);
    r
}

pub fn cat3(a: &str, b: &str, c: &str) -> (r: String)
    ensures
        r@ == a@ + b@ + c@,
{
    let mut r = cat2(a, b);
    r.append(c);
    r
}

pub fn cat4(a: &str, b: &str, c: &str, d: &str) -> (r: String)
    ensures
        r@ == a@ + b@ + c@ + d@,
{
    let mut r = cat3(a, b, c);
    r.append(d);
    r
}

pub fn cat5(a: &str, b: &str, c: &str, d: &str, e: &str) -> (r: String)
    ensures
        r@ == a@ + b@ + c@ + d@ + e@,
{
    let mut r = cat4(a, b, c, d);
    r.append(e);
    r
}

/// `s` begins with `p`.
pub open spec fn begins(s: Seq<char>, p: Seq<char>) -> bool {
    p.len() <= s.len() && s.take(p.len() as int) == p
}

/// `s` ends with `p`.
pub open spec fn ends(s: Seq<char>, p: Seq<char>) -> bool {
    p.len() <= s.len() && s.skip(s.len() - p.len()) == p
}

/// `p` stands somewhere in `s`.
pub open spec fn has_within(s: Seq<char>, p: Seq<char>) -> bool {
    exists|i: int| occurs_at(s, p, i)
}

pub fn starts_with(s: &str, p: &str) -> (b: bool)
    ensures
        b == begins(s@, p@),
{
    let v = chars_of(s);
    let w = chars_of(p);
    if w.len() > v.len() {
        return false;
    }
    let b = stands(&v, &w, 0);
    assert(s@.take(p@.len() as int) == s@.subrange(0, p@.len() as int));
    b
}

pub fn ends_with(s: &str, p: &str) -> (b: bool)
    ensures
        b == ends(s@, p@),
{
    let v = chars_of(s);
    let w = chars_of(p);
    if w.len() > v.len() {
        return false;
    }
    let at: usize = v.len() - w.len();
    let b = stands(&v, &w, at);
    assert(s@.skip(at as int) == s@.subrange(at as int, at + p@.len()));
    b
}

pub fn contains(s: &str, p: &str) -> (b: bool)
    ensures
        b == has_within(s@, p@),
{
    let v = chars_of(s);
    let w = chars_of(p);
    let mut i: usize = 0;
    while i <= v.len()
        invariant
            v@ == s@,
            w@ == p@,
            i <= v.len() + 1,
            forall|k: int| 0 <= k < i ==> !occurs_at(s@, p@, k),
        decreases v.len() + 1 - i,
    {
        if stands(&v, &w, i) {
            assert(occurs_at(s@, p@, i as int));
            return true;
        }
        if i == v.len() {
            assert(forall|k: int| occurs_at(s@, p@, k) ==> 0 <= k <= i);
            return false;
        }
        i = i + 1;
    }
    false
}

/// The text from character `from` on.
pub fn text_from(s: &str, from: usize) -> (r: String)
    requires
        from <= s@.len(),
    ensures
        r@ == s@.skip(from as int),
{
    let v = chars_of(s);
    assert(v@.subrange(from as int, v@.len() as int) == v@.skip(from as int));
    text_of(&v, from, v.len())
}

/// The number of characters of a text.
pub fn char_count(s: &str) -> (n: usize)
    ensures
        n == s@.len(),
{
    chars_of(s).len()
}

/// The parts of `s` between occurrences of `c`, the empty ones too.
pub open spec fn parts(s: Seq<char>, c: char) -> Seq<Seq<char>>
    decreases s.len(),
{
    if s.len() == 0 {
        seq![Seq::empty()]
    } else {
        let p = parts(s.drop_last(), c);
        if s.last() == c {
            p.push(Seq::empty())
        } else {
            p.drop_last().push(p.last().push(s.last()))
        }
    }
}

pub proof fn texts_push(s: Seq<String>, t: String)
    ensures
        texts(s.push(t)) == texts(s).push(t@),
        texts(s).len() == s.len(),
{
    assert(texts(s.push(t)) =~= texts(s).push(t@));
}

/// The parts of a text between occurrences of a character.
pub fn split_char(s: &str, c: char) -> (r: Vec<String>)
    ensures
        texts(r@) == parts(s@, c),
        r@.len() >= 1,
{
    let v = chars_of(s);
    let mut done: Vec<String> = Vec::new();
    let mut from: usize = 0;
    let mut i: usize = 0;
    proof {
        assert(v@.take(0) == Seq::<char>::empty());
        assert(v@.subrange(0, 0) == Seq::<char>::empty());
        assert(texts(done@).push(v@.subrange(0, 0)) =~= seq![Seq::<char>::empty()]);
    }
    while i < v.len()
        invariant
            from <= i <= v.len(),
            parts(v@.take(i as int), c) == texts(done@).push(
                v@.subrange(from as int, i as int),
            ),
        decreases v.len() - i,
    {
        assert(v@.take(i + 1).drop_last() == v@.take(i as int));
        let ghost p = parts(v@.take(i as int), c);
        if v[i] == c {
            let t = text_of(&v, from, i);
            proof {
                texts_push(done@, t);
                assert(v@.subrange(i + 1, i + 1) == Seq::<char>::empty());
            }
            done.push(t);
            from = i + 1;
        } else {
            assert(p.drop_last() == texts(done@));
            assert(v@.subrange(from as int, i + 1) == v@.subrange(from as int, i as int).push(
                v@[i as int],
            ));
        }
        i = i + 1;
    }
    assert(v@.take(i as int) == v@);
    let t = text_of(&v, from, v.len());
    proof {
        texts_push(done@, t);
    }
    done.push(t);
    done
}

/// The words read so far and the word that is being read.
pub open spec fn words_read(s: Seq<char>) -> (Seq<Seq<char>>, Seq<char>)
    decreases s.len(),
{
    if s.len() == 0 {
        (Seq::empty(), Seq::empty())
    } else {
        let (done, word) = words_read(s.drop_last());
        if !white(s.last()) {
            (done, word.push(s.last()))
        } else if word.len() > 0 {
            (done.push(word), Seq::empty())
        } else {
            (done, word)
        }
    }
}

/// The words of `s`: its longest runs without white space.
pub open spec fn words(s: Seq<char>) -> Seq<Seq<char>> {
    let (done, word) = words_read(s);
    if word.len() > 0 {
        done.push(word)
    } else {
        done
    }
}

/// The words of a text.
pub fn split_words(s: &str) -> (r: Vec<String>)
    ensures
        texts(r@) == words(s@),
{
    let v = chars_of(s);
    let mut done: Vec<String> = Vec::new();
    let mut from: usize = 0;
    let mut i: usize = 0;
    proof {
        assert(v@.take(0) == Seq::<char>::empty());
        assert(v@.subrange(0, 0) == Seq::<char>::empty());
        assert(texts(done@) =~= Seq::<Seq<char>>::empty());
    }
    while i < v.len()
        invariant
            from <= i <= v.len(),
            words_read(v@.take(i as int)) == (texts(done@), v@.subrange(from as int, i as int)),
        decreases v.len() - i,
    {
        assert(v@.take(i + 1).drop_last() == v@.take(i as int));
        if is_white(v[i]) {
            if from < i {
                let t = text_of(&v, from, i);
                proof {
                    texts_push(done@, t);
                }
                done.push(t);
            }
            from = i + 1;
            assert(v@.subrange(i + 1, i + 1) == Seq::<char>::empty());
            assert(v@.subrange(i as int, i as int) == Seq::<char>::empty());
        } else {
            assert(v@.subrange(from as int, i + 1) == v@.subrange(from as int, i as int).push(
                v@[i as int],
            ));
        }
        i = i + 1;
    }
    assert(v@.take(i as int) == v@);
    if from < v.len() {
        let t = text_of(&v, from, v.len());
        proof {
            texts_push(done@, t);
        }
        done.push(t);
    }
    done
}

/// `s` without a carriage return at its end.
pub open spec fn without_return(s: Seq<char>) -> Seq<char> {
    if s.len() > 0 && s.last() == '\r' {
        s.drop_last()
    } else {
        s
    }
}

/// The lines of `s`; an empty last one does not count.
pub open spec fn lines(s: Seq<char>) -> Seq<Seq<char>> {
    let p = parts(s, '\n');
    let q = if p.last().len() == 0 {
        p.drop_last()
    } else {
        p
    };
    q.map_values(|l: Seq<char>| without_return(l))
}

/// The lines of a text.
pub fn split_lines(s: &str) -> (r: Vec<String>)
    ensures
        texts(r@) == lines(s@),
{
    let p = split_char(s, '\n');
    let ghost all = parts(s@, '\n');
    proof {
        assert(all.len() == p@.len());
        assert(all[p@.len() - 1] == p@[p@.len() - 1]@);
    }
    let n: usize = if char_count(p[p.len() - 1].as_str()) == 0 {
        p.len() - 1
    } else {
        p.len()
    };
    let mut r: Vec<String> = Vec::new();
    let mut i: usize = 0;
    while i < n
        invariant
            i <= n <= p.len(),
            texts(p@) == all,
            r@.len() == i,
            forall|k: int| 0 <= k < i ==> r@[k]@ == without_return(all[k]),
        decreases n - i,
    {
        assert(all[i as int] == p@[i as int]@);
        let v = chars_of(p[i].as_str());
        if v.len() > 0 && v[v.len() - 1] == '\r' {
            r.push(text_of(&v, 0, v.len() - 1));
            assert(v@.subrange(0, v@.len() - 1) == v@.drop_last());
        } else {
            r.push(p[i].clone());
        }
        i = i + 1;
    }
    assert(texts(r@) =~= lines(s@));
    r
}

/// The texts one after another with `mid` between them.
pub open spec fn joined(s: Seq<Seq<char>>, mid: Seq<char>) -> Seq<char>
    decreases s.len(),
{
    if s.len() == 0 {
        Seq::empty()
    } else if s.len() == 1 {
        s[0]
    } else {
        joined(s.drop_last(), mid) + mid + s.last()
    }
}

/// The texts one after another with `mid` between them.
pub fn join(v: &Vec<String>, mid: &str) -> (r: String)
    ensures
        r@ == joined(texts(v@), mid@),
{
    let ghost all = texts(v@);
    if v.len() == 0 {
        return String::new();
    }
    let mut r = v[0].clone();
    let mut i: usize = 1;
    assert(all.take(1)[0] == v@[0]@);
    while i < v.len()
        invariant
            1 <= i <= v.len(),
            all == texts(v@),
            r@ == joined(all.take(i as int), mid@),
        decreases v.len() - i,
    {
        assert(all.take(i + 1).drop_last() == all.take(i as int));
        assert(all.take(i + 1).last() == v@[i as int]@);
        r.append(mid);
        r.append(v[i].as_str());
        i = i + 1;
    }
    assert(all.take(i as int) == all);
    r
}

/// A letter in lower case, where it is an ASCII one.
pub open spec fn lower_char(c: char) -> char {
    if 'A' <= c && c <= 'Z' {
        (c as u32 + 32) as char
    } else {
        c
    }
}

/// The text with its ASCII letters in lower case.
pub open spec fn lower(s: Seq<char>) -> Seq<char> {
    s.map_values(|c: char| lower_char(c))
}

/// The text with its ASCII letters in lower case.
pub fn to_lower(s: &str) -> (r: String)
    ensures
        r@ == lower(s@),
{
    let v = chars_of(s);
    let mut r = String::new();
    let mut i: usize = 0;
    while i < v.len()
        invariant
            i <= v.len(),
            r@ == lower(v@.take(i as int)),
        decreases v.len() - i,
    {
        let c: char = v[i];
        assert(v@.take(i + 1) == v@.take(i as int).push(c));
        if 'A' <= c && c <= 'Z' {
            let d = (c as u8 + 32) as char;
            r.push(d);
        } else {
            r.push(c);
        }
        assert(lower(v@.take(i + 1)) =~= lower(v@.take(i as int)).push(lower_char(c)));
        i = i + 1;
    }
    assert(v@.take(i as int) == v@);
    r
}

} // verus!
