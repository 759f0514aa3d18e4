//! Tables of state vectors: those of an ephemeris file and those that NASA/JPL
//! Horizons answers with.
use crate::number::Real;
use crate::parse::{chars_of, find_place, first_place, occurs_at, text_of, trim, trimmed};
use crate::real_constants::R_1EM09;
use crate::sorting::{ascending, by_key, no_nan, sort_by_key};
use crate::strings::{cat2, cat3, cat4, cat5, char_count, contains, has_within, lines, split_lines, split_words, words};
use crate::text::{dec, same, u64_text};
use crate::values::texts;
use vstd::prelude::*;
use vstd::string::StringExecFns;

verus! {

/// What is read next from a table: a number, or a fault that ends the reading.
#[derive(Debug)]
pub enum Reading {
    Number { token: String, wrong: String, infinite: Option<String> },
    Fault(String),
}

/// A reading with its texts as sequences.
pub enum Read {
    Number { token: Seq<char>, wrong: Seq<char>, infinite: Option<Seq<char>> },
    Fault(Seq<char>),
}

pub open spec fn read_of(r: Reading) -> Read {
    match r {
        Reading::Number { token, wrong, infinite } => Read::Number {
            token: token@,
            wrong: wrong@,
            infinite: match infinite {
                Some(m) => Some(m@),
                None => None,
            },
        },
        Reading::Fault(m) => Read::Fault(m@),
    }
}

/// What the host makes of the text of a number: the number, or why it is none.
pub open spec fn parse_of(r: Result<Real, String>) -> Result<Real, Seq<char>> {
    match r {
        Ok(x) => Ok(x),
        Err(e) => Err(e@),
    }
}

/// A number that was read, or what is wrong with it; `with_cause` says whether
/// the host's reason is told.
pub open spec fn settled_one(
    r: Read,
    parsed: Result<Real, Seq<char>>,
    with_cause: bool,
) -> Result<Real, Seq<char>> {
    match r {
        Read::Fault(m) => Err(m),
        Read::Number { wrong, infinite, .. } => match parsed {
            Err(e) => Err(
                if with_cause {
                    wrong + ": "@ + e
                } else {
                    wrong
                },
            ),
            Ok(x) => if infinite is Some && !x.spec_is_finite() {
                Err(infinite->Some_0)
            } else {
                Ok(x)
            },
        },
    }
}

/// The numbers that were read, or what is wrong with the first that is wrong.
pub open spec fn settled(
    s: Seq<Read>,
    parsed: Seq<Result<Real, Seq<char>>>,
    with_cause: bool,
) -> Result<Seq<Real>, Seq<char>>
    decreases s.len(),
{
    if s.len() == 0 {
        Ok(Seq::empty())
    } else {
        match settled(s.drop_last(), parsed, with_cause) {
            Err(m) => Err(m),
            Ok(front) => match settled_one(s.last(), parsed[s.len() - 1], with_cause) {
                Err(m) => Err(m),
                Ok(x) => Ok(front.push(x)),
            },
        }
    }
}

proof fn settling_fails(
    s: Seq<Read>,
    i: int,
    parsed: Seq<Result<Real, Seq<char>>>,
    with_cause: bool,
)
    requires
        0 <= i <= s.len(),
        settled(s.take(i), parsed, with_cause) is Err,
    ensures
        settled(s, parsed, with_cause) == settled(s.take(i), parsed, with_cause),
    decreases s.len(),
{
    if i < s.len() {
        assert(s.drop_last().take(i) =~= s.take(i));
        settling_fails(s.drop_last(), i, parsed, with_cause);
    } else {
        assert(s.take(i) =~= s);
    }
}

/// The numbers of the readings, or what is wrong with the first that is wrong;
/// `parsed` is what the host made of their texts.
pub fn settle_readings(
    readings: &Vec<Reading>,
    parsed: &Vec<Result<Real, String>>,
    with_cause: bool,
) -> (r: Result<Vec<Real>, String>)
    requires
        parsed@.len() == readings@.len(),
    ensures
        match settled(
            reads(readings@),
            parsed@.map_values(|p: Result<Real, String>| parse_of(p)),
            with_cause,
        ) {
            Ok(v) => r is Ok && r->Ok_0@ == v,
            Err(m) => r is Err && r->Err_0@ == m,
        },
{
    let ghost all = reads(readings@);
    let ghost found = parsed@.map_values(|p: Result<Real, String>| parse_of(p));
    let mut out: Vec<Real> = Vec::new();
    let mut i: usize = 0;
    assert(all.take(0) =~= Seq::<Read>::empty());
    while i < readings.len()
        invariant
            i <= readings.len(),
            parsed@.len() == readings@.len(),
            all == reads(readings@),
            found == parsed@.map_values(|p: Result<Real, String>| parse_of(p)),
            settled(all.take(i as int), found, with_cause) == Ok::<Seq<Real>, Seq<char>>(out@),
        decreases readings.len() - i,
    {
        let ghost front = all.take(i + 1);
        proof {
            assert(front.drop_last() =~= all.take(i as int));
            assert(front.last() == read_of(readings@[i as int]));
            assert(found[i as int] == parse_of(parsed@[i as int]));
        }
        let one: Result<Real, String> = match &readings[i] {
            Reading::Fault(m) => Err(m.clone()),
            Reading::Number { wrong, infinite, .. } => match &parsed[i] {
                Err(e) => if with_cause {
                    Err(cat3(wrong.as_str(), ": ", e.as_str()))
                } else {
                    Err(wrong.clone())
                },
                Ok(x) => match infinite {
                    Some(m) => if x.is_finite() {
                        Ok(*x)
                    } else {
                        Err(m.clone())
                    },
                    None => Ok(*x),
                },
            },
        };
        match one {
            Ok(x) => out.push(x),
            Err(m) => {
                proof {
                    settling_fails(all, i + 1, found, with_cause);
                }
                return Err(m);
            },
        }
        i = i + 1;
    }
    assert(all.take(i as int) =~= all);
    Ok(out)
}

pub open spec fn reads(s: Seq<Reading>) -> Seq<Read> {
    s.map_values(|r: Reading| read_of(r))
}

proof fn reads_push(s: Seq<Reading>, r: Reading)
    ensures
        reads(s.push(r)) == reads(s).push(read_of(r)),
{
    assert(reads(s.push(r)) =~= reads(s).push(read_of(r)));
}

// Horizons

/// The value behind a label.
pub open spec fn component(line: Seq<char>, label: Seq<char>, capability: Seq<char>) -> Read {
    let i = first_place(line, label, 0);
    if i >= line.len() {
        Read::Fault(capability + " Horizons row missing "@ + label)
    } else {
        let w = words(line.skip(i + label.len()));
        if w.len() == 0 {
            Read::Fault(capability + " Horizons row missing value after "@ + label)
        } else {
            Read::Number {
                token: w[0],
                wrong: capability + " invalid Horizons value after "@ + label,
                infinite: None,
            }
        }
    }
}

/// The day number at the front of a row.
pub open spec fn day_number(line: Seq<char>, capability: Seq<char>) -> Read {
    let w = words(line);
    if w.len() == 0 {
        Read::Fault(capability + " could not read Horizons JD"@)
    } else {
        Read::Number { token: w[0], wrong: capability + " invalid Horizons JD"@, infinite: None }
    }
}

/// The six components of a state vector.
pub open spec fn six(pos: Seq<char>, vel: Seq<char>, capability: Seq<char>) -> Seq<Read> {
    seq![
        component(pos, "X ="@, capability),
        component(pos, "Y ="@, capability),
        component(pos, "Z ="@, capability),
        component(vel, "VX="@, capability),
        component(vel, "VY="@, capability),
        component(vel, "VZ="@, capability),
    ]
}

/// What the lines from `i` on hold, between the marks of the table. A row is a
/// line with ` = ` in it and the two lines after it.
pub open spec fn vector_reads(
    ls: Seq<Seq<char>>,
    i: int,
    in_table: bool,
    any: bool,
    capability: Seq<char>,
) -> Seq<Read>
    decreases ls.len() - i,
{
    let end = if any {
        Seq::empty()
    } else {
        seq![Read::Fault(capability + " Horizons result contained no vector rows"@)]
    };
    if i >= ls.len() || i < 0 {
        end
    } else {
        let t = trimmed(ls[i]);
        if t == "$$SOE"@ {
            vector_reads(ls, i + 1, true, any, capability)
        } else if t == "$$EOE"@ {
            end
        } else if !in_table || t.len() == 0 || !has_within(t, " = "@) {
            vector_reads(ls, i + 1, in_table, any, capability)
        } else if i + 1 >= ls.len() {
            seq![
                day_number(t, capability),
                Read::Fault(capability + " Horizons vector missing position line"@),
            ]
        } else if i + 2 >= ls.len() {
            seq![
                day_number(t, capability),
                Read::Fault(capability + " Horizons vector missing velocity line"@),
            ]
        } else {
            seq![day_number(t, capability)] + six(ls[i + 1], ls[i + 2], capability)
                + vector_reads(ls, i + 3, in_table, true, capability)
        }
    }
}

proof fn place_leaves_room(s: Seq<char>, d: Seq<char>, from: int)
    requires
        0 <= from <= s.len(),
    ensures
        from <= first_place(s, d, from) <= s.len(),
        first_place(s, d, from) < s.len() ==> first_place(s, d, from) + d.len() <= s.len(),
    decreases s.len() - from,
{
    if from < s.len() && !occurs_at(s, d, from) {
        place_leaves_room(s, d, from + 1);
    }
}

fn read_component(line: &str, label: &str, capability: &str) -> (r: Reading)
    ensures
        read_of(r) == component(line@, label@, capability@),
{
    let v = chars_of(line);
    let d = chars_of(label);
    let i: usize = find_place(&v, &d, 0);
    if i >= v.len() {
        return Reading::Fault(cat3(capability, " Horizons row missing ", label));
    }
    proof {
        place_leaves_room(v@, d@, 0);
    }
    let from: usize = i + d.len();
    assert(v@.subrange(from as int, v@.len() as int) == line@.skip(from as int));
    let w = split_words(text_of(&v, from, v.len()).as_str());
    if w.len() == 0 {
        return Reading::Fault(cat3(capability, " Horizons row missing value after ", label));
    }
    assert(texts(w@)[0] == w@[0]@);
    Reading::Number {
        token: w[0].clone(),
        wrong: cat3(capability, " invalid Horizons value after ", label),
        infinite: None,
    }
}

fn read_day(line: &str, capability: &str) -> (r: Reading)
    ensures
        read_of(r) == day_number(line@, capability@),
{
    let w = split_words(line);
    if w.len() == 0 {
        return Reading::Fault(cat2(capability, " could not read Horizons JD"));
    }
    assert(texts(w@)[0] == w@[0]@);
    Reading::Number {
        token: w[0].clone(),
        wrong: cat2(capability, " invalid Horizons JD"),
        infinite: None,
    }
}

/// Takes the rows of state vectors out of the text that Horizons answers with.
/// The numbers are read in order; the first fault, or the first token that is
/// no number, decides.
pub fn parse_horizons_vector_result(result: &str, capability: &str) -> (r: Vec<Reading>)
    ensures
        reads(r@) == vector_reads(lines(result@), 0, false, false, capability@),
{
    let ls = split_lines(result);
    let ghost all = texts(ls@);
    let ghost total = vector_reads(all, 0, false, false, capability@);
    let mut out: Vec<Reading> = Vec::new();
    let mut in_table = false;
    let mut any = false;
    let mut i: usize = 0;
    let mut ended = false;
    assert(reads(out@) + total =~= total);
    while !ended && i < ls.len()
        invariant
            i <= ls.len(),
            all == texts(ls@),
            all == lines(result@),
            total == vector_reads(all, 0, false, false, capability@),
            !ended ==> reads(out@) + vector_reads(all, i as int, in_table, any, capability@)
                == total,
            ended ==> reads(out@) + (if any {
                Seq::empty()
            } else {
                seq![Read::Fault(capability@ + " Horizons result contained no vector rows"@)]
            }) == total,
        decreases ls.len() - i, if ended { 0int } else { 1int },
    {
        let ghost before = reads(out@);
        assert(all[i as int] == ls@[i as int]@);
        let t = trim(ls[i].as_str());
        if same(t.as_str(), "$$SOE") {
            in_table = true;
            i = i + 1;
        } else if same(t.as_str(), "$$EOE") {
            ended = true;
        } else if !in_table || char_count(t.as_str()) == 0 || !contains(t.as_str(), " = ") {
            i = i + 1;
        } else {
            let day = read_day(t.as_str(), capability);
            proof {
                reads_push(out@, day);
            }
            out.push(day);
            if ls.len() - i <= 1 {
                let f = Reading::Fault(cat2(capability, " Horizons vector missing position line"));
                proof {
                    reads_push(out@, f);
                }
                out.push(f);
                assert(reads(out@) =~= total);
                return out;
            }
            if ls.len() - i <= 2 {
                let f = Reading::Fault(cat2(capability, " Horizons vector missing velocity line"));
                proof {
                    reads_push(out@, f);
                }
                out.push(f);
                assert(reads(out@) =~= total);
                return out;
            }
            let pos = ls[i + 1].as_str();
            let vel = ls[i + 2].as_str();
            proof {
                assert(all[i + 1] == pos@);
                assert(all[i + 2] == vel@);
            }
            let ghost six_before = out@;
            let c0 = read_component(pos, "X =", capability);
            let c1 = read_component(pos, "Y =", capability);
            let c2 = read_component(pos, "Z =", capability);
            let c3 = read_component(vel, "VX=", capability);
            let c4 = read_component(vel, "VY=", capability);
            let c5 = read_component(vel, "VZ=", capability);
            out.push(c0);
            out.push(c1);
            out.push(c2);
            out.push(c3);
            out.push(c4);
            out.push(c5);
            proof {
                assert(reads(out@) =~= reads(six_before) + six(pos@, vel@, capability@));
                let rest = vector_reads(all, i + 3, in_table, true, capability@);
                assert(reads(out@) + rest =~= before + (seq![day_number(t@, capability@)] + six(
                    pos@,
                    vel@,
                    capability@,
                ) + rest));
            }
            any = true;
            i = i + 3;
        }
    }
    if !any {
        let f = Reading::Fault(cat2(capability, " Horizons result contained no vector rows"));
        proof {
            reads_push(out@, f);
        }
        out.push(f);
    }
    assert(reads(out@) =~= total);
    out
}

// Ephemeris files

/// A line that is neither empty nor a comment.
pub open spec fn is_content(line: Seq<char>) -> bool {
    let t = trimmed(line);
    t.len() > 0 && t[0] != '#'
}

pub open spec fn is_letter(c: char) -> bool {
    ('a' <= c && c <= 'z') || ('A' <= c && c <= 'Z')
}

/// The body that the lines before `n` declare; the last declaration counts.
pub open spec fn declared(ls: Seq<Seq<char>>, n: int) -> Option<Seq<char>>
    decreases n,
{
    if n <= 0 || n > ls.len() {
        None
    } else {
        let w = words(trimmed(ls[n - 1]));
        if is_content(ls[n - 1]) && w.len() >= 2 && w[0] == "BODY"@ {
            Some(w[1])
        } else {
            declared(ls, n - 1)
        }
    }
}

/// The numbers of a row, each with what is said of it where it is wrong.
pub open spec fn row_reads(w: Seq<Seq<char>>, line_no: int) -> Seq<Read> {
    w.map_values(
        |token: Seq<char>|
            Read::Number {
                token,
                wrong: "invalid ephemeris number '"@ + token + "' on line "@ + dec(line_no),
                infinite: Some("non-finite ephemeris number on line "@ + dec(line_no)),
            },
    )
}

/// What one line holds.
pub open spec fn line_reads(line: Seq<char>, line_no: int, path: Seq<char>) -> Seq<Read> {
    let w = words(trimmed(line));
    if !is_content(line) {
        Seq::empty()
    } else if w.len() > 0 && w[0] == "BODY"@ {
        if w.len() < 2 {
            seq![
                Read::Fault(
                    "invalid ephemeris BODY line "@ + dec(line_no) + " in '"@ + path + "'"@,
                ),
            ]
        } else {
            Seq::empty()
        }
    } else if w.len() > 0 && w[0].len() > 0 && is_letter(w[0][0]) {
        Seq::empty()
    } else if w.len() != 7 {
        seq![Read::Fault("invalid ephemeris row "@ + dec(line_no) + " in '"@ + path + "'"@)]
    } else {
        row_reads(w, line_no)
    }
}

/// What the first `n` lines hold.
pub open spec fn table_reads(ls: Seq<Seq<char>>, n: nat, path: Seq<char>) -> Seq<Read>
    decreases n,
{
    if n == 0 {
        Seq::empty()
    } else {
        table_reads(ls, (n - 1) as nat, path) + line_reads(ls[n - 1], n as int, path)
    }
}

/// The body and the numbers of an ephemeris file.
#[derive(Debug)]
pub struct EphemerisTable {
    pub body: Option<String>,
    pub readings: Vec<Reading>,
}

fn push_row(out: &mut Vec<Reading>, w: &Vec<String>, line_no: usize)
    ensures
        reads(final(out)@) == reads(old(out)@) + row_reads(texts(w@), line_no as int),
{
    let ghost before = out@;
    let ghost full = row_reads(texts(w@), line_no as int);
    let no = u64_text(line_no as u64);
    let mut i: usize = 0;
    assert(reads(before) + full.take(0) =~= reads(before));
    while i < w.len()
        invariant
            i <= w.len(),
            full == row_reads(texts(w@), line_no as int),
            no@ == dec(line_no as int),
            reads(out@) == reads(before) + full.take(i as int),
        decreases w.len() - i,
    {
        let r = Reading::Number {
            token: w[i].clone(),
            wrong: cat4(
                "invalid ephemeris number '",
                w[i].as_str(),
                "' on line ",
                no.as_str(),
            ),
            infinite: Some(cat2("non-finite ephemeris number on line ", no.as_str())),
        };
        proof {
            reads_push(out@, r);
            assert(texts(w@)[i as int] == w@[i as int]@);
            assert(read_of(r) == full[i as int]);
            assert(full.take(i + 1) =~= full.take(i as int).push(full[i as int]));
            assert((reads(before) + full.take(i as int)).push(full[i as int]) =~= reads(before)
                + full.take(i + 1));
        }
        out.push(r);
        i = i + 1;
    }
    assert(full.take(i as int) =~= full);
}

fn read_line(out: &mut Vec<Reading>, line: &str, line_no: usize, path: &str) -> (body: Option<
    String,
>)
    ensures
        reads(final(out)@) == reads(old(out)@) + line_reads(line@, line_no as int, path@),
        ({
            let w = words(trimmed(line@));
            if is_content(line@) && w.len() >= 2 && w[0] == "BODY"@ {
                body is Some && body->Some_0@ == w[1]
            } else {
                body is None
            }
        }),
{
    let ghost before = reads(out@);
    let t = trim(line);
    let c = chars_of(t.as_str());
    assert(before + Seq::<Read>::empty() =~= before);
    if c.len() == 0 || c[0] == '#' {
        return None;
    }
    let w = split_words(t.as_str());
    assert(texts(w@).len() == w@.len());
    let no = u64_text(line_no as u64);
    if w.len() > 0 {
        assert(texts(w@)[0] == w@[0]@);
        if same(w[0].as_str(), "BODY") {
            if w.len() < 2 {
                let f = Reading::Fault(
                    cat5("invalid ephemeris BODY line ", no.as_str(), " in '", path, "'"),
                );
                proof {
                    reads_push(out@, f);
                    assert(before.push(read_of(f)) =~= before + seq![read_of(f)]);
                }
                out.push(f);
                return None;
            }
            assert(texts(w@)[1] == w@[1]@);
            return Some(w[1].clone());
        }
        let h = chars_of(w[0].as_str());
        if h.len() > 0 && (('a' <= h[0] && h[0] <= 'z') || ('A' <= h[0] && h[0] <= 'Z')) {
            return None;
        }
    }
    if w.len() != 7 {
        let f = Reading::Fault(cat5("invalid ephemeris row ", no.as_str(), " in '", path, "'"));
        proof {
            reads_push(out@, f);
            assert(before.push(read_of(f)) =~= before + seq![read_of(f)]);
        }
        out.push(f);
        return None;
    }
    push_row(out, &w, line_no);
    None
}

/// Takes the body and the rows out of an ephemeris file. The numbers are read in
/// order; the first fault, or the first token that is no finite number, decides.
pub fn read_ephemeris(table: &str, path: &str) -> (r: EphemerisTable)
    ensures
        reads(r.readings@) == table_reads(lines(table@), lines(table@).len(), path@),
        match declared(lines(table@), lines(table@).len() as int) {
            Some(b) => r.body is Some && r.body->Some_0@ == b,
            None => r.body is None,
        },
{
    let ls = split_lines(table);
    let ghost all = texts(ls@);
    let mut out: Vec<Reading> = Vec::new();
    let mut body: Option<String> = None;
    let mut i: usize = 0;
    assert(reads(out@) =~= Seq::<Read>::empty());
    while i < ls.len()
        invariant
            i <= ls.len(),
            all == texts(ls@),
            reads(out@) == table_reads(all, i as nat, path@),
            match declared(all, i as int) {
                Some(b) => body is Some && body->Some_0@ == b,
                None => body is None,
            },
        decreases ls.len() - i,
    {
        assert(all[i as int] == ls@[i as int]@);
        let found = read_line(&mut out, ls[i].as_str(), i + 1, path);
        if found.is_some() {
            body = found;
        }
        i = i + 1;
    }
    EphemerisTable { body, readings: out }
}

/// A time and the state at it.
pub type StateRow = (Real, Vec<Real>);

/// The numbers taken seven at a time: a time, and the six of a state.
pub open spec fn is_rows(rows: Seq<StateRow>, flat: Seq<Real>) -> bool {
    &&& rows.len() == flat.len() / 7
    &&& forall|k: int|
        0 <= k < rows.len() ==> (#[trigger] rows[k]).0 == flat[7 * k] && rows[k].1@
            == flat.subrange(7 * k + 1, 7 * k + 7)
}

/// The rows of a table, from all its numbers.
pub fn state_rows(flat: &Vec<Real>) -> (rows: Vec<StateRow>)
    ensures
        is_rows(rows@, flat@),
{
    let len: usize = flat.len();
    let n: usize = len / 7;
    let mut rows: Vec<StateRow> = Vec::new();
    let mut k: usize = 0;
    while k < n
        invariant
            k <= n,
            len == flat@.len(),
            n == len / 7,
            rows@.len() == k,
            forall|j: int|
                0 <= j < k ==> (#[trigger] rows@[j]).0 == flat@[7 * j] && rows@[j].1@
                    == flat@.subrange(7 * j + 1, 7 * j + 7),
        decreases n - k,
    {
        assert(7 * k + 7 <= len);
        let at: usize = 7 * k;
        let mut state: Vec<Real> = Vec::new();
        state.push(flat[at + 1]);
        state.push(flat[at + 2]);
        state.push(flat[at + 3]);
        state.push(flat[at + 4]);
        state.push(flat[at + 5]);
        state.push(flat[at + 6]);
        assert(state@ =~= flat@.subrange(7 * k + 1, 7 * k + 7));
        rows.push((flat[at], state));
        k = k + 1;
    }
    rows
}

/// The rows in order of time, or why there is nothing to look up.
pub open spec fn lookup_fault(
    path: Seq<char>,
    declared: Option<Seq<char>>,
    body: Seq<char>,
    n: nat,
) -> Option<Seq<char>> {
    if declared is Some && declared->Some_0 != body {
        Some(
            "ephemeris body mismatch: file has "@ + declared->Some_0 + ", requested "@ + body,
        )
    } else if n == 0 {
        Some("ephemeris '"@ + path + "' contains no state rows"@)
    } else {
        None
    }
}

/// Checks the body and puts the rows in order of time.
pub fn order_rows(path: &str, declared: &Option<String>, body: &str, rows: Vec<StateRow>) -> (r:
    Result<Vec<StateRow>, String>)
    ensures
        match lookup_fault(
            path@,
            match *declared {
                Some(d) => Some(d@),
                None => None,
            },
            body@,
            rows@.len(),
        ) {
            Some(e) => r is Err && r->Err_0@ == e,
            None => r is Ok && r->Ok_0@ == by_key(rows@) && r->Ok_0@.len() > 0,
        },
{
    if let Some(d) = declared {
        if !same(d.as_str(), body) {
            return Err(
                cat4("ephemeris body mismatch: file has ", d.as_str(), ", requested ", body),
            );
        }
    }
    if rows.len() == 0 {
        return Err(cat3("ephemeris '", path, "' contains no state rows"));
    }
    Ok(sort_by_key(rows))
}

/// Whether a time lies within the rows.
pub open spec fn covered(rows: Seq<StateRow>, et: Real) -> bool {
    !et.below(rows[0].0) && !rows.last().0.below(et)
}

/// Whether a time lies within the rows.
pub fn covers(rows: &Vec<StateRow>, et: Real) -> (b: bool)
    requires
        rows@.len() > 0,
    ensures
        b == covered(rows@, et),
{
    !et.lt(rows[0].0) && !rows[rows.len() - 1].0.lt(et)
}

/// What answers for a time: a row, the rows around it, or nothing.
#[derive(Clone, Copy, Debug, PartialEq, Eq, Structural)]
pub enum Pick {
    Row(usize),
    Between(usize),
    Lost,
}

/// Whether a time that lies so far from another counts as the same.
pub open spec fn near(gap: Real) -> bool {
    gap.spec_abs().below(Real { bits: R_1EM09 })
}

/// The first gap that is near.
pub open spec fn first_near(s: Seq<Real>, i: int) -> int
    decreases s.len() - i,
{
    if i >= s.len() || near(s[i]) {
        i
    } else {
        first_near(s, i + 1)
    }
}

/// The first row at or after `i` from which the time lies no later than the
/// next one; the number of rows where there is none.
pub open spec fn first_around(rows: Seq<StateRow>, et: Real, i: int) -> int
    decreases rows.len() - i,
{
    if i + 1 >= rows.len() {
        rows.len() as int
    } else if rows[i].0.at_most(et) && et.at_most(rows[i + 1].0) {
        i
    } else {
        first_around(rows, et, i + 1)
    }
}

/// The first row that is near the time answers; without one, the first two
/// neighbours that the time lies between. `gaps` are the times of the rows less
/// the time.
pub open spec fn picked(rows: Seq<StateRow>, gaps: Seq<Real>, et: Real) -> Pick {
    if first_near(gaps, 0) < gaps.len() {
        Pick::Row(first_near(gaps, 0) as usize)
    } else if first_around(rows, et, 0) < rows.len() {
        Pick::Between(first_around(rows, et, 0) as usize)
    } else {
        Pick::Lost
    }
}

/// Finds what answers for a time, given the times of the rows less the time.
pub fn pick_state(rows: &Vec<StateRow>, gaps: &Vec<Real>, et: Real) -> (p: Pick)
    ensures
        p == picked(rows@, gaps@, et),
{
    let mut i: usize = 0;
    while i < gaps.len()
        invariant
            i <= gaps.len(),
            first_near(gaps@, 0) == first_near(gaps@, i as int),
        decreases gaps.len() - i,
    {
        if gaps[i].abs().lt(Real { bits: R_1EM09 }) {
            return Pick::Row(i);
        }
        i = i + 1;
    }
    let mut j: usize = 0;
    if rows.len() > 0 {
        while j < rows.len() - 1
            invariant
                j <= rows.len() - 1,
                first_near(gaps@, 0) >= gaps@.len(),
                first_around(rows@, et, 0) == first_around(rows@, et, j as int),
            decreases rows.len() - j,
        {
            if rows[j].0.le(et) && et.le(rows[j + 1].0) {
                return Pick::Between(j);
            }
            j = j + 1;
        }
    }
    Pick::Lost
}

proof fn around_is_found(rows: Seq<StateRow>, et: Real, i: int)
    requires
        ascending(rows),
        no_nan(rows),
        0 <= i < rows.len(),
        rows[i].0.at_most(et),
        et.at_most(rows.last().0),
        i + 1 < rows.len(),
    ensures
        first_around(rows, et, i) < rows.len(),
    decreases rows.len() - i,
{
    assert(!rows[i + 1].0.spec_is_nan());
    if !et.at_most(rows[i + 1].0) {
        assert(rows[i + 1].0.at_most(et));
        if i + 2 < rows.len() {
            around_is_found(rows, et, i + 1);
        }
    }
}

/// Rows in order of time answer for every time that they cover. Of the gaps only
/// this is needed: that between equal times there is none.
pub proof fn covered_times_are_answered(rows: Seq<StateRow>, gaps: Seq<Real>, et: Real)
    requires
        rows.len() > 0,
        gaps.len() == rows.len(),
        ascending(rows),
        no_nan(rows),
        !et.spec_is_nan(),
        covered(rows, et),
        forall|i: int|
            0 <= i < rows.len() && rows[i].0.same_value(et) ==> (#[trigger] gaps[i]).same_value(
                Real { bits: 0 },
            ),
    ensures
        !(picked(rows, gaps, et) is Lost),
{
    assert(!rows[0].0.spec_is_nan());
    assert(!rows[rows.len() - 1].0.spec_is_nan());
    if rows.len() == 1 {
        assert(rows[0].0.same_value(et));
        assert(gaps[0].same_value(Real { bits: 0 }));
        assert(near(gaps[0]));
    } else {
        around_is_found(rows, et, 0);
    }
}

} // verus!
