//! How texts are taken apart and put together.

use crate::backup::{Backup, BackupFile, alpha, backup_fault, enc_tail, first_unsafe, quad, sextet, unsafe_path};
use crate::capabilities::escaped;
use crate::inspect::quote_escaped;
use crate::parse::{first_place, occurs_at, pieces, white};
use crate::sandbox::{PathFacts, admitted, inside, looks_only, under};
use crate::strings::{joined, lines, parts, without_return, words, words_read};
use vstd::prelude::*;

verus! {

/// The parts of a text, put together again, are the text; no part holds what parts
/// them.
pub proof fn parts_join_to_the_whole(s: Seq<char>, c: char)
    ensures
        parts(s, c).len() > 0,
        joined(parts(s, c), seq![c]) == s,
        forall|i: int| 0 <= i < parts(s, c).len() ==> !(#[trigger] parts(s, c)[i]).contains(c),
    decreases s.len(),
{
    if s.len() == 0 {
        assert(s =~= Seq::<char>::empty());
        assert(parts(s, c) =~= seq![Seq::empty()]);
    } else {
        let front = s.drop_last();
        parts_join_to_the_whole(front, c);
        let p = parts(front, c);
        let q = parts(s, c);
        assert(s =~= front.push(s.last()));
        if s.last() == c {
            assert(q.drop_last() =~= p);
            assert(joined(q, seq![c]) =~= s);
        } else {
            let last = p.last().push(s.last());
            assert(q.drop_last() =~= p.drop_last());
            assert(q.last() == last);
            assert(p[p.len() - 1] == p.last());
            if p.len() == 1 {
                assert(q[0] == last);
                assert(joined(p, seq![c]) == p[0]);
            } else {
                assert(joined(p, seq![c]) == joined(p.drop_last(), seq![c]) + seq![c] + p.last());
                assert(joined(q, seq![c]) =~= s);
            }
            assert forall|i: int| 0 <= i < q.len() implies !(#[trigger] q[i]).contains(c) by {
                if i < q.len() - 1 {
                    assert(q[i] == p[i]);
                } else {
                    if last.contains(c) {
                        let k = choose|k: int| 0 <= k < last.len() && last[k] == c;
                        if k < p.last().len() {
                            assert(p.last()[k] == c);
                        }
                    }
                }
            }
        }
    }
}

/// A text is parted at the first mark, and what is behind it again.
pub proof fn parts_begin_at_the_front(a: Seq<char>, c: char, b: Seq<char>)
    requires
        !a.contains(c),
    ensures
        parts(a, c) == seq![a],
        parts(a + seq![c] + b, c) == seq![a] + parts(b, c),
    decreases a.len() + b.len(),
{
    if b.len() > 0 {
        let front = b.drop_last();
        parts_begin_at_the_front(a, c, front);
        parts_join_to_the_whole(front, c);
        let s = a + seq![c] + b;
        assert(s.drop_last() =~= a + seq![c] + front);
        assert(s.last() == b.last());
        let p = seq![a] + parts(front, c);
        assert(p.last() == parts(front, c).last());
        assert(p.drop_last() =~= seq![a] + parts(front, c).drop_last());
        assert(parts(s, c) =~= seq![a] + parts(b, c));
    } else {
        if a.len() > 0 {
            let front = a.drop_last();
            if front.contains(c) {
                let i = choose|i: int| 0 <= i < front.len() && front[i] == c;
                assert(a[i] == c);
            }
            parts_begin_at_the_front(front, c, Seq::empty());
            assert(a[a.len() - 1] == a.last());
            assert(front.push(a.last()) =~= a);
            assert(parts(a, c) =~= seq![a]);
        } else {
            assert(a =~= Seq::<char>::empty());
        }
        let s = a + seq![c] + b;
        assert(s.drop_last() =~= a);
        assert(s.last() == c);
        assert(parts(b, c) =~= seq![Seq::empty()]);
        assert(parts(s, c) == parts(a, c).push(Seq::empty()));
        assert(parts(s, c) =~= seq![a] + parts(b, c));
    }
}

/// Lines end with a line feed, a carriage return before it not counting; what is
/// behind the last is a line only where there is something.
pub proof fn lines_end_with_feeds(a: Seq<char>, b: Seq<char>)
    requires
        !a.contains('\n'),
    ensures
        lines(a + seq!['\n'] + b) == seq![without_return(a)] + lines(b),
        a.len() > 0 ==> lines(a) == seq![without_return(a)],
        lines(Seq::empty()).len() == 0,
{
    parts_begin_at_the_front(a, '\n', b);
    parts_join_to_the_whole(b, '\n');
    let p = parts(b, '\n');
    let q = seq![a] + p;
    assert(q.last() == p.last());
    assert(q.drop_last() =~= seq![a] + p.drop_last());
    assert(lines(a + seq!['\n'] + b) =~= seq![without_return(a)] + lines(b));
    if a.len() > 0 {
        assert(seq![a].last() == a);
        assert(lines(a) =~= seq![without_return(a)]);
    }
}

/// A text of no white space is one word; white space parts the words before it from
/// those behind it.
pub proof fn white_space_parts_words(a: Seq<char>, w: char, b: Seq<char>)
    requires
        white(w),
    ensures
        words(a + seq![w] + b) == words(a) + words(b),
        a.len() > 0 && (forall|i: int| 0 <= i < a.len() ==> !white(#[trigger] a[i])) ==> words(a)
            == seq![a],
        words(Seq::empty()).len() == 0,
{
    words_go_on(a, w, b);
    let (done, word) = words_read(b);
    assert(words(a + seq![w] + b) =~= words(a) + words(b));
    if a.len() > 0 && (forall|i: int| 0 <= i < a.len() ==> !white(#[trigger] a[i])) {
        one_word(a);
        assert(words(a) =~= seq![a]);
    }
}

proof fn one_word(a: Seq<char>)
    requires
        forall|i: int| 0 <= i < a.len() ==> !white(#[trigger] a[i]),
    ensures
        words_read(a) == (Seq::<Seq<char>>::empty(), a),
    decreases a.len(),
{
    if a.len() > 0 {
        let front = a.drop_last();
        assert forall|i: int| 0 <= i < front.len() implies !white(#[trigger] front[i]) by {
            assert(front[i] == a[i]);
        }
        one_word(front);
        assert(!white(a[a.len() - 1]));
        assert(front.push(a.last()) =~= a);
    } else {
        assert(a =~= Seq::<char>::empty());
    }
}

proof fn words_go_on(a: Seq<char>, w: char, b: Seq<char>)
    requires
        white(w),
    ensures
        words_read(a + seq![w] + b).0 == words(a) + words_read(b).0,
        words_read(a + seq![w] + b).1 == words_read(b).1,
    decreases b.len(),
{
    let s = a + seq![w] + b;
    if b.len() > 0 {
        words_go_on(a, w, b.drop_last());
        assert(s.drop_last() =~= a + seq![w] + b.drop_last());
        assert(s.last() == b.last());
        let (done, word) = words_read(b.drop_last());
        assert((words(a) + done).push(word) =~= words(a) + done.push(word));
    } else {
        assert(s.drop_last() =~= a);
        assert(s.last() == w);
        assert(words_read(s).0 =~= words(a) + words_read(b).0);
    }
}

proof fn places_shift(s: Seq<char>, d: Seq<char>, k: int, from: int)
    requires
        0 <= k,
        0 <= from,
        k + from <= s.len(),
    ensures
        first_place(s.skip(k), d, from) == first_place(s, d, k + from) - k,
    decreases s.len() - from,
{
    let r = s.skip(k);
    if k + from < s.len() {
        if from + d.len() <= r.len() {
            assert(r.subrange(from, from + d.len()) =~= s.subrange(k + from, k + from + d.len()));
        }
        assert(occurs_at(r, d, from) == occurs_at(s, d, k + from));
        places_shift(s, d, k, from + 1);
    }
}

proof fn places_are_right(s: Seq<char>, d: Seq<char>, from: int)
    requires
        0 <= from <= s.len(),
    ensures
        from <= first_place(s, d, from) <= s.len(),
        first_place(s, d, from) < s.len() ==> occurs_at(s, d, first_place(s, d, from)),
        forall|i: int| from <= i < first_place(s, d, from) ==> !#[trigger] occurs_at(s, d, i),
    decreases s.len() - from,
{
    if from < s.len() && !occurs_at(s, d, from) {
        places_are_right(s, d, from + 1);
    }
}

proof fn pieces_shift(s: Seq<char>, d: Seq<char>, k: int, from: int)
    requires
        d.len() > 0,
        0 <= k,
        0 <= from,
        k + from <= s.len(),
    ensures
        pieces(s.skip(k), d, from) == pieces(s, d, k + from),
    decreases s.len() - from,
{
    let r = s.skip(k);
    if k + from < s.len() {
        places_shift(s, d, k, from);
        places_are_right(s, d, k + from);
        let i = first_place(s, d, k + from);
        if i < s.len() {
            pieces_shift(s, d, k, i - k + d.len());
        }
        assert(r.subrange(from, i - k) =~= s.subrange(k + from, i));
    }
}

/// A text is cut at the first mark; the piece before it counts where it is not empty,
/// and what is behind it is cut again.
pub proof fn pieces_are_cut_at_marks(a: Seq<char>, d: Seq<char>, b: Seq<char>)
    requires
        d.len() > 0,
        forall|i: int| 0 <= i < a.len() ==> !#[trigger] occurs_at(a + d + b, d, i),
    ensures
        pieces(a + d + b, d, 0) == (if a.len() > 0 {
            seq![a]
        } else {
            Seq::empty()
        }) + pieces(b, d, 0),
{
    let s = a + d + b;
    places_are_right(s, d, 0);
    assert(s.subrange(a.len() as int, a.len() as int + d.len()) =~= d);
    assert(occurs_at(s, d, a.len() as int));
    assert(first_place(s, d, 0) == a.len());
    let k = (a.len() + d.len()) as int;
    assert(s.skip(k) =~= b);
    pieces_shift(s, d, k, 0);
    assert(s.subrange(0, a.len() as int) =~= a);
    if a.len() == 0 {
        assert(Seq::<Seq<char>>::empty() + pieces(b, d, 0) =~= pieces(b, d, 0));
    }
}

/// A text without the mark is one piece, unless it is empty.
pub proof fn unmarked_texts_are_whole(a: Seq<char>, d: Seq<char>)
    requires
        d.len() > 0,
        forall|i: int| !#[trigger] occurs_at(a, d, i),
    ensures
        a.len() > 0 ==> pieces(a, d, 0) == seq![a],
        a.len() == 0 ==> pieces(a, d, 0).len() == 0,
{
    places_are_right(a, d, 0);
    if a.len() > 0 {
        assert(a.subrange(0, a.len() as int) =~= a);
        assert(pieces(a, d, 0) =~= seq![a]);
    }
}

/// Escaping goes character by character: a backslash comes before each backslash and
/// each quotation mark, and nothing else changes.
pub proof fn escapes_go_by_character(a: Seq<char>, b: Seq<char>, c: char)
    ensures
        escaped(a + b) == escaped(a) + escaped(b),
        escaped(seq![c]) == (if c == '\\' || c == '"' {
            seq!['\\', c]
        } else {
            seq![c]
        }),
        quote_escaped(a + b) == quote_escaped(a) + quote_escaped(b),
        quote_escaped(seq![c]) == (if c == '"' {
            seq!['\\', c]
        } else {
            seq![c]
        }),
    decreases b.len(),
{
    assert(seq![c].drop_last() =~= Seq::<char>::empty());
    assert(escaped(Seq::<char>::empty()) =~= Seq::<char>::empty());
    assert(quote_escaped(Seq::<char>::empty()) =~= Seq::<char>::empty());
    assert(escaped(seq![c]) =~= (if c == '\\' || c == '"' {
        seq!['\\', c]
    } else {
        seq![c]
    }));
    assert(quote_escaped(seq![c]) =~= (if c == '"' {
        seq!['\\', c]
    } else {
        seq![c]
    }));
    if b.len() > 0 {
        let s = a + b;
        escapes_go_by_character(a, b.drop_last(), c);
        assert(s.drop_last() =~= a + b.drop_last());
        assert(s.last() == b.last());
        assert(escaped(s) =~= escaped(a) + escaped(b));
        assert(quote_escaped(s) =~= quote_escaped(a) + quote_escaped(b));
    } else {
        assert(a + b =~= a);
        assert(b =~= Seq::<char>::empty());
        assert(escaped(a) + escaped(b) =~= escaped(a));
        assert(quote_escaped(a) + quote_escaped(b) =~= quote_escaped(a));
    }
}

/// The alphabet of Base64: capital letters, small letters, digits, plus and slash.
pub proof fn the_alphabet_is_in_order(i: int)
    requires
        0 <= i < 64,
    ensures
        sextet(alpha(i)) == Some(i),
        i < 26 ==> alpha(i) == 'A' as u8 + i,
        26 <= i < 52 ==> alpha(i) == 'a' as u8 + (i - 26),
        52 <= i < 62 ==> alpha(i) == '0' as u8 + (i - 52),
        i == 62 ==> alpha(i) == '+' as u8,
        i == 63 ==> alpha(i) == '/' as u8,
{
}

/// Four characters of Base64 are one number in base 64, and its three bytes are the
/// same number in base 256.
pub proof fn groups_are_the_same_number(a: u8, b: u8, c: u8)
    ensures
        ({
            let q = quad(a, b, c);
            &&& q.len() == 4
            &&& sextet(q[0]) is Some && sextet(q[1]) is Some && sextet(q[2]) is Some && sextet(
                q[3],
            ) is Some
            &&& sextet(q[0])->Some_0 * 0x4_0000 + sextet(q[1])->Some_0 * 0x1000 + sextet(
                q[2],
            )->Some_0 * 0x40 + sextet(q[3])->Some_0 == a * 0x1_0000 + b * 0x100 + c
        }),
{
}

/// Texts of Base64 come in groups of four, a rest filled up with equals signs.
pub proof fn rests_are_filled_up(s: Seq<u8>)
    requires
        s.len() == 1 || s.len() == 2,
    ensures
        enc_tail(s).len() == 4,
        enc_tail(s)[3] == '=' as u8,
        s.len() == 1 <==> enc_tail(s)[2] == '=' as u8,
{
}

/// A backup is restored where it has the first version and every path is there, is
/// relative and climbs nowhere; and nowhere else.
pub proof fn backups_are_restored_inside(b: Backup)
    ensures
        backup_fault(b) is None <==> b.v == 1 && forall|i: int|
            0 <= i < b.files@.len() ==> {
                let p = (#[trigger] b.files@[i]).path@;
                &&& p.len() > 0
                &&& p[0] != '/'
                &&& !exists|k: int| occurs_at(p, ".."@, k)
            },
{
    unsafe_is_found(b.files@);
    assert forall|i: int| 0 <= i < b.files@.len() implies (unsafe_path((#[trigger] b.files@[i]).path@)
        <==> !({
        let p = b.files@[i].path@;
        &&& p.len() > 0
        &&& p[0] != '/'
        &&& !exists|k: int| occurs_at(p, ".."@, k)
    })) by {}
}

proof fn unsafe_is_found(s: Seq<BackupFile>)
    ensures
        first_unsafe(s) is None <==> forall|i: int|
            0 <= i < s.len() ==> !unsafe_path((#[trigger] s[i]).path@),
    decreases s.len(),
{
    if s.len() > 0 {
        let rest = s.drop_first();
        unsafe_is_found(rest);
        if first_unsafe(s) is None {
            assert forall|i: int| 0 <= i < s.len() implies !unsafe_path(
                (#[trigger] s[i]).path@,
            ) by {
                if i > 0 {
                    assert(rest[i - 1] == s[i]);
                }
            }
        }
        if forall|i: int| 0 <= i < s.len() ==> !unsafe_path((#[trigger] s[i]).path@) {
            assert forall|i: int| 0 <= i < rest.len() implies !unsafe_path(
                (#[trigger] rest[i]).path@,
            ) by {
                assert(rest[i] == s[i + 1]);
            }
            assert(!unsafe_path(s[0].path@));
        }
    }
}

/// A path is admitted only inside the root: what exists by where it really lies, what
/// is to be made by where its directory lies. What is only looked for and is not there
/// leads nowhere else.
pub proof fn admitted_paths_lie_inside(target: Seq<char>, effect: Seq<char>, facts: PathFacts)
    requires
        admitted(target, effect, facts) is Ok,
    ensures
        ({
            let p = admitted(target, effect, facts)->Ok_0;
            &&& facts.exists ==> facts.root is Ok && facts.target is Ok && p == facts.target->Ok_0@
                && inside(p, facts.root->Ok_0@)
            &&& !facts.exists && looks_only(effect) ==> p == target
            &&& !facts.exists && !looks_only(effect) ==> (facts.parent matches Some(d)
                && facts.root is Ok && d.0 && d.1 is Ok && inside(d.1->Ok_0@, facts.root->Ok_0@)
                && facts.file_name is Some && p == under(d.1->Ok_0@, facts.file_name->Some_0@))
        }),
{
}

} // verus!
