//! Messages that hold numbers, which the host renders.
use crate::number::Real;
use vstd::prelude::*;
use vstd::string::StringExecFns;

verus! {

/// A part of a message.
#[derive(Debug)]
pub enum Piece {
    Text(String),
    /// A number in its shortest form.
    Number(Real),
    /// A number with so many digits behind the point.
    Fixed(Real, u8),
    /// The first number over the second times the third, with so many digits
    /// behind the point.
    Ratio(Real, Real, Real, u8),
}

/// A part with its text as a sequence.
pub enum Part {
    Text(Seq<char>),
    Number(Real),
    Fixed(Real, u8),
    Ratio(Real, Real, Real, u8),
}

pub open spec fn part(p: Piece) -> Part {
    match p {
        Piece::Text(s) => Part::Text(s@),
        Piece::Number(r) => Part::Number(r),
        Piece::Fixed(r, n) => Part::Fixed(r, n),
        Piece::Ratio(a, b, c, n) => Part::Ratio(a, b, c, n),
    }
}

pub open spec fn message_parts(s: Seq<Piece>) -> Seq<Part> {
    s.map_values(|p: Piece| part(p))
}

/// A message without numbers.
pub fn told(s: String) -> (m: Vec<Piece>)
    ensures
        message_parts(m@) == seq![Part::Text(s@)],
{
    let mut m: Vec<Piece> = Vec::new();
    m.push(Piece::Text(s));
    assert(message_parts(m@) =~= seq![Part::Text(s@)]);
    m
}

/// A text, a number, and a text behind it.
pub fn told_number(a: String, n: Real, b: &str) -> (m: Vec<Piece>)
    ensures
        message_parts(m@) == seq![Part::Text(a@), Part::Number(n), Part::Text(b@)],
{
    let mut m: Vec<Piece> = Vec::new();
    m.push(Piece::Text(a));
    m.push(Piece::Number(n));
    m.push(Piece::Text(String::from_str(b)));
    assert(message_parts(m@) =~= seq![Part::Text(a@), Part::Number(n), Part::Text(b@)]);
    m
}

/// Two numbers with texts around them.
pub fn told_numbers(a: String, n: Real, b: &str, k: Real, c: &str) -> (m: Vec<Piece>)
    ensures
        message_parts(m@) == seq![
            Part::Text(a@),
            Part::Number(n),
            Part::Text(b@),
            Part::Number(k),
            Part::Text(c@),
        ],
{
    let mut m: Vec<Piece> = Vec::new();
    m.push(Piece::Text(a));
    m.push(Piece::Number(n));
    m.push(Piece::Text(String::from_str(b)));
    m.push(Piece::Number(k));
    m.push(Piece::Text(String::from_str(c)));
    assert(message_parts(m@) =~= seq![
        Part::Text(a@),
        Part::Number(n),
        Part::Text(b@),
        Part::Number(k),
        Part::Text(c@),
    ]);
    m
}

/// A message of one text.
pub open spec fn t(s: Seq<char>) -> Seq<Part> {
    seq![Part::Text(s)]
}

/// A message of one number.
pub open spec fn fixed(r: Real, digits: u8) -> Seq<Part> {
    seq![Part::Fixed(r, digits)]
}

/// Adds a text to a message.
pub fn say(out: &mut Vec<Piece>, s: &str)
    ensures
        message_parts(final(out)@) == message_parts(old(out)@) + t(s@),
{
    let ghost before = out@;
    out.push(Piece::Text(String::from_str(s)));
    assert(message_parts(out@) =~= message_parts(before) + t(s@));
}

/// Adds a number in its shortest form to a message.
pub fn say_number(out: &mut Vec<Piece>, r: Real)
    ensures
        message_parts(final(out)@) == message_parts(old(out)@) + seq![Part::Number(r)],
{
    let ghost before = out@;
    out.push(Piece::Number(r));
    assert(message_parts(out@) =~= message_parts(before) + seq![Part::Number(r)]);
}

/// Adds a number with so many digits behind the point to a message.
pub fn say_fixed(out: &mut Vec<Piece>, r: Real, digits: u8)
    ensures
        message_parts(final(out)@) == message_parts(old(out)@) + fixed(r, digits),
{
    let ghost before = out@;
    out.push(Piece::Fixed(r, digits));
    assert(message_parts(out@) =~= message_parts(before) + fixed(r, digits));
}

/// A message of one ratio.
pub open spec fn ratio(a: Real, b: Real, c: Real, digits: u8) -> Seq<Part> {
    seq![Part::Ratio(a, b, c, digits)]
}

/// Adds a ratio to a message.
pub fn say_ratio(out: &mut Vec<Piece>, a: Real, b: Real, c: Real, digits: u8)
    ensures
        message_parts(final(out)@) == message_parts(old(out)@) + ratio(a, b, c, digits),
{
    let ghost before = out@;
    out.push(Piece::Ratio(a, b, c, digits));
    assert(message_parts(out@) =~= message_parts(before) + ratio(a, b, c, digits));
}

/// Numbers with commas between them.
pub open spec fn number_list(s: Seq<Real>, digits: u8) -> Seq<Part>
    decreases s.len(),
{
    if s.len() == 0 {
        Seq::empty()
    } else if s.len() == 1 {
        fixed(s[0], digits)
    } else {
        number_list(s.drop_last(), digits) + t(", "@) + fixed(s.last(), digits)
    }
}

/// The order of adding parts does not matter.
pub broadcast proof fn parts_assoc(a: Seq<Part>, b: Seq<Part>, c: Seq<Part>)
    ensures
        #[trigger] ((a + b) + c) == a + (b + c),
{
    assert((a + b) + c =~= a + (b + c));
}

/// Adds numbers with commas between them to a message.
pub fn say_list(out: &mut Vec<Piece>, v: &Vec<Real>, digits: u8)
    ensures
        message_parts(final(out)@) == message_parts(old(out)@) + number_list(v@, digits),
{
    let ghost before = message_parts(out@);
    if v.len() == 0 {
        assert(before + Seq::<Part>::empty() =~= before);
        return ;
    }
    say_fixed(out, v[0], digits);
    let mut i: usize = 1;
    assert(v@.take(1)[0] == v@[0]);
    while i < v.len()
        invariant
            1 <= i <= v.len(),
            message_parts(out@) == before + number_list(v@.take(i as int), digits),
        decreases v.len() - i,
    {
        broadcast use parts_assoc;

        assert(v@.take(i + 1).drop_last() =~= v@.take(i as int));
        say(out, ", ");
        say_fixed(out, v[i], digits);
        i = i + 1;
    }
    assert(v@.take(i as int) =~= v@);
}

} // verus!
