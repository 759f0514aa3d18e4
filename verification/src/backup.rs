//! Backups of a store: what they hold, and which are accepted.
use crate::parse::{chars_of, occurs_at};
use crate::strings::{begins, cat2, cat3, cat4, contains, has_within, starts_with};
use crate::text::{debug_str, debug_text, dec_nat, labelled, same, u64_text};
use vstd::prelude::*;
use vstd::string::StringExecFns;
use vstd::utf8::*;

verus! {

/// The version of backups that is written and read.
pub const BACKUP_VERSION: u32 = 1;

/// A file of a backup.
#[derive(Debug)]
pub struct BackupFile {
    pub path: String,
    pub content_b64: String,
}

/// A backup.
#[derive(Debug)]
pub struct Backup {
    pub v: u32,
    pub created_at: u64,
    pub files: Vec<BackupFile>,
}

// Base64

/// The character of a number below sixty-four.
pub open spec fn alpha(i: int) -> u8 {
    if i < 26 {
        (65 + i) as u8
    } else if i < 52 {
        (71 + i) as u8
    } else if i < 62 {
        (i - 4) as u8
    } else if i == 62 {
        43
    } else {
        47
    }
}

fn alpha_of(i: u32) -> (c: u8)
    requires
        i < 64,
    ensures
        c == alpha(i as int),
{
    if i < 26 {
        (65 + i) as u8
    } else if i < 52 {
        (71 + i) as u8
    } else if i < 62 {
        (i - 4) as u8
    } else if i == 62 {
        43
    } else {
        47
    }
}

/// The number of a character; nothing where it is none of the alphabet.
pub open spec fn sextet(c: u8) -> Option<int> {
    if 65 <= c <= 90 {
        Some(c - 65)
    } else if 97 <= c <= 122 {
        Some(c - 71)
    } else if 48 <= c <= 57 {
        Some(c + 4)
    } else if c == 43 {
        Some(62)
    } else if c == 47 {
        Some(63)
    } else {
        None
    }
}

fn sextet_of(c: u8) -> (r: Result<u32, String>)
    ensures
        match sextet(c) {
            Some(i) => r is Ok && r->Ok_0 == i && r->Ok_0 < 64,
            None => r is Err && r->Err_0@ == bad_byte(c),
        },
{
    if 65 <= c && c <= 90 {
        Ok((c - 65) as u32)
    } else if 97 <= c && c <= 122 {
        Ok((c - 71) as u32)
    } else if 48 <= c && c <= 57 {
        Ok((c + 4) as u32)
    } else if c == 43 {
        Ok(62)
    } else if c == 47 {
        Ok(63)
    } else {
        Err(labelled("invalid base64 byte: ", c as u64))
    }
}

pub open spec fn bad_byte(c: u8) -> Seq<char> {
    "invalid base64 byte: "@ + dec_nat(c as nat)
}

/// Three bytes as four characters.
pub open spec fn quad(a: u8, b: u8, c: u8) -> Seq<u8> {
    seq![
        alpha((a / 4) as int),
        alpha((a % 4) * 16 + b / 16),
        alpha((b % 16) * 4 + c / 64),
        alpha((c % 64) as int),
    ]
}

/// Whole groups of three bytes.
pub open spec fn enc_groups(s: Seq<u8>) -> Seq<u8>
    decreases s.len(),
{
    if s.len() < 3 {
        Seq::empty()
    } else {
        let n = s.len();
        enc_groups(s.take(n - 3)) + quad(s[n - 3], s[n - 2], s[n - 1])
    }
}

/// What is left of a group, filled up with `=`.
pub open spec fn enc_tail(s: Seq<u8>) -> Seq<u8> {
    if s.len() == 1 {
        seq![alpha((s[0] / 4) as int), alpha(((s[0] % 4) * 16) as int), 61u8, 61u8]
    } else if s.len() == 2 {
        seq![
            alpha((s[0] / 4) as int),
            alpha((s[0] % 4) * 16 + s[1] / 16),
            alpha(((s[1] % 16) * 4) as int),
            61u8,
        ]
    } else {
        Seq::empty()
    }
}

/// The Base64 characters of bytes.
pub open spec fn base64(s: Seq<u8>) -> Seq<u8> {
    let full = s.len() - s.len() % 3;
    enc_groups(s.take(full)) + enc_tail(s.skip(full))
}

/// Bytes below 128 as characters.
pub open spec fn ascii_text(s: Seq<u8>) -> Seq<char> {
    s.map_values(|b: u8| b as char)
}

fn push_ascii(out: &mut String, b: u8)
    requires
        b < 128,
    ensures
        final(out)@ == old(out)@.push(b as char),
{
    out.push(b as char);
}

/// The bytes in Base64.
pub fn b64_encode(bytes: &[u8]) -> (r: String)
    ensures
        r@ == ascii_text(base64(bytes@)),
{
    let n: usize = bytes.len();
    let full: usize = n - n % 3;
    let mut out = String::new();
    let mut i: usize = 0;
    assert(ascii_text(enc_groups(bytes@.take(0))) =~= Seq::<char>::empty());
    while i < full
        invariant
            i <= full <= n,
            n == bytes@.len(),
            full % 3 == 0,
            i % 3 == 0,
            out@ == ascii_text(enc_groups(bytes@.take(i as int))),
        decreases full - i,
    {
        let ghost before = out@;
        let a: u8 = bytes[i];
        let b: u8 = bytes[i + 1];
        let c: u8 = bytes[i + 2];
        push_ascii(&mut out, alpha_of((a / 4) as u32));
        push_ascii(&mut out, alpha_of(((a % 4) * 16 + b / 16) as u32));
        push_ascii(&mut out, alpha_of(((b % 16) * 4 + c / 64) as u32));
        push_ascii(&mut out, alpha_of((c % 64) as u32));
        proof {
            let s = bytes@.take(i + 3);
            assert(s.take(i as int) =~= bytes@.take(i as int));
            assert(out@ =~= before + ascii_text(quad(a, b, c)));
            assert(ascii_text(enc_groups(s)) =~= ascii_text(enc_groups(bytes@.take(i as int)))
                + ascii_text(quad(a, b, c)));
        }
        i = i + 3;
    }
    let ghost head = out@;
    let ghost tail = bytes@.skip(full as int);
    if n - full == 1 {
        let a: u8 = bytes[full];
        push_ascii(&mut out, alpha_of((a / 4) as u32));
        push_ascii(&mut out, alpha_of(((a % 4) * 16) as u32));
        out.push('=');
        out.push('=');
    } else if n - full == 2 {
        let a: u8 = bytes[full];
        let b: u8 = bytes[full + 1];
        push_ascii(&mut out, alpha_of((a / 4) as u32));
        push_ascii(&mut out, alpha_of(((a % 4) * 16 + b / 16) as u32));
        push_ascii(&mut out, alpha_of(((b % 16) * 4) as u32));
        out.push('=');
    }
    proof {
        assert(out@ =~= head + ascii_text(enc_tail(tail)));
        assert(ascii_text(base64(bytes@)) =~= ascii_text(enc_groups(bytes@.take(full as int)))
            + ascii_text(enc_tail(tail)));
    }
    out
}

pub open spec fn ascii_white(b: u8) -> bool {
    b == 32 || b == 9 || b == 10 || b == 12 || b == 13
}

/// The bytes without white space.
pub open spec fn dense(s: Seq<u8>) -> Seq<u8>
    decreases s.len(),
{
    if s.len() == 0 {
        s
    } else if ascii_white(s.last()) {
        dense(s.drop_last())
    } else {
        dense(s.drop_last()).push(s.last())
    }
}

/// The number of a character, or zero for a filler.
pub open spec fn filled(c: u8) -> Option<int> {
    if c == 61 {
        Some(0)
    } else {
        sextet(c)
    }
}

/// The bytes of four characters.
#[verifier::opaque]
pub open spec fn dec_group(p: u8, q: u8, r: u8, s: u8) -> Result<Seq<u8>, Seq<char>> {
    match (sextet(p), sextet(q)) {
        (None, _) => Err(bad_byte(p)),
        (_, None) => Err(bad_byte(q)),
        (Some(a), Some(b)) => match (filled(r), filled(s)) {
            (None, _) => Err(bad_byte(r)),
            (_, None) => Err(bad_byte(s)),
            (Some(c), Some(d)) => {
                let first = seq![(a * 4 + b / 16) as u8];
                let second = if r == 61 {
                    first
                } else {
                    first.push(((b % 16) * 16 + c / 4) as u8)
                };
                Ok(
                    if s == 61 {
                        second
                    } else {
                        second.push(((c % 4) * 64 + d) as u8)
                    },
                )
            },
        },
    }
}

/// The bytes of whole groups of four characters, or the first fault.
pub open spec fn dec_groups(s: Seq<u8>) -> Result<Seq<u8>, Seq<char>>
    decreases s.len(),
{
    let n = s.len();
    if n < 4 {
        Ok(Seq::empty())
    } else {
        match dec_groups(s.take(n - 4)) {
            Err(e) => Err(e),
            Ok(front) => match dec_group(s[n - 4], s[n - 3], s[n - 2], s[n - 1]) {
                Err(e) => Err(e),
                Ok(back) => Ok(front + back),
            },
        }
    }
}

/// The bytes that Base64 characters stand for.
pub open spec fn unbase64(s: Seq<u8>) -> Result<Seq<u8>, Seq<char>> {
    let d = dense(s);
    if d.len() % 4 != 0 {
        Err("base64 length not divisible by 4"@)
    } else {
        dec_groups(d)
    }
}

proof fn groups_fail(s: Seq<u8>, i: int)
    requires
        0 <= i <= s.len(),
        i % 4 == 0,
        s.len() % 4 == 0,
        dec_groups(s.take(i)) is Err,
    ensures
        dec_groups(s) == dec_groups(s.take(i)),
    decreases s.len(),
{
    if i < s.len() {
        assert(s.take(s.len() - 4).take(i) =~= s.take(i));
        groups_fail(s.take(s.len() - 4), i);
    } else {
        assert(s.take(i) =~= s);
    }
}

fn decode_group(p: u8, q: u8, r: u8, s: u8, out: &mut Vec<u8>) -> (res: Result<(), String>)
    ensures
        match dec_group(p, q, r, s) {
            Ok(b) => res is Ok && final(out)@ == old(out)@ + b,
            Err(e) => res is Err && res->Err_0@ == e,
        },
{
    let ghost before = out@;
    proof {
        reveal(dec_group);
    }
    let a: u32 = match sextet_of(p) {
        Ok(x) => x,
        Err(e) => {
            return Err(e);
        },
    };
    let b: u32 = match sextet_of(q) {
        Ok(x) => x,
        Err(e) => {
            return Err(e);
        },
    };
    let c: u32 = if r == 61 {
        0
    } else {
        match sextet_of(r) {
            Ok(x) => x,
            Err(e) => {
                return Err(e);
            },
        }
    };
    let d: u32 = if s == 61 {
        0
    } else {
        match sextet_of(s) {
            Ok(x) => x,
            Err(e) => {
                return Err(e);
            },
        }
    };
    out.push((a * 4 + b / 16) as u8);
    if r != 61 {
        out.push(((b % 16) * 16 + c / 4) as u8);
    }
    if s != 61 {
        out.push(((c % 4) * 64 + d) as u8);
    }
    assert(out@ =~= before + dec_group(p, q, r, s)->Ok_0);
    Ok(())
}

/// The bytes that a Base64 text stands for. White space does not count.
pub fn b64_decode(s: &str) -> (res: Result<Vec<u8>, String>)
    ensures
        match unbase64(encode_utf8(s@)) {
            Ok(b) => res is Ok && res->Ok_0@ == b,
            Err(e) => res is Err && res->Err_0@ == e,
        },
{
    let raw = s.as_bytes();
    let mut d: Vec<u8> = Vec::new();
    let mut i: usize = 0;
    assert(raw@.take(0) =~= Seq::<u8>::empty());
    while i < raw.len()
        invariant
            i <= raw.len(),
            d@ == dense(raw@.take(i as int)),
        decreases raw.len() - i,
    {
        assert(raw@.take(i + 1).drop_last() =~= raw@.take(i as int));
        let b: u8 = raw[i];
        if !(b == 32 || b == 9 || b == 10 || b == 12 || b == 13) {
            d.push(b);
        }
        i = i + 1;
    }
    assert(raw@.take(i as int) =~= raw@);
    if d.len() % 4 != 0 {
        return Err(String::from_str("base64 length not divisible by 4"));
    }
    let mut out: Vec<u8> = Vec::new();
    let mut k: usize = 0;
    while k < d.len()
        invariant
            k <= d.len(),
            k % 4 == 0,
            d@.len() % 4 == 0,
            d@ == dense(encode_utf8(s@)),
            dec_groups(d@.take(k as int)) == Ok::<Seq<u8>, Seq<char>>(out@),
        decreases d.len() - k,
    {
        assert(d@.take(k + 4).take(k as int) =~= d@.take(k as int));
        match decode_group(d[k], d[k + 1], d[k + 2], d[k + 3], &mut out) {
            Ok(_) => {},
            Err(e) => {
                proof {
                    groups_fail(d@, k + 4);
                }
                return Err(e);
            },
        }
        k = k + 4;
    }
    assert(d@.take(k as int) =~= d@);
    Ok(out)
}

proof fn alpha_round_trip(i: int)
    requires
        0 <= i < 64,
    ensures
        sextet(alpha(i)) == Some(i),
        alpha(i) != 61,
        !ascii_white(alpha(i)),
        alpha(i) < 128,
{
}

proof fn quad_round_trip(a: u8, b: u8, c: u8)
    ensures
        ({
            let q = quad(a, b, c);
            dec_group(q[0], q[1], q[2], q[3]) == Ok::<Seq<u8>, Seq<char>>(seq![a, b, c])
        }),
{
    reveal(dec_group);
    let q = quad(a, b, c);
    alpha_round_trip((a / 4) as int);
    alpha_round_trip((a % 4) * 16 + b / 16);
    alpha_round_trip((b % 16) * 4 + c / 64);
    alpha_round_trip((c % 64) as int);
    assert(dec_group(q[0], q[1], q[2], q[3])->Ok_0 =~= seq![a, b, c]);
}

proof fn groups_round_trip(s: Seq<u8>)
    requires
        s.len() % 3 == 0,
    ensures
        dec_groups(enc_groups(s)) == Ok::<Seq<u8>, Seq<char>>(s),
        enc_groups(s).len() % 4 == 0,
        forall|i: int|
            0 <= i < enc_groups(s).len() ==> (#[trigger] enc_groups(s)[i]) < 128 && !ascii_white(
                enc_groups(s)[i],
            ),
    decreases s.len(),
{
    if s.len() >= 3 {
        let n = s.len();
        let front = s.take(n - 3);
        groups_round_trip(front);
        let q = quad(s[n - 3], s[n - 2], s[n - 1]);
        quad_round_trip(s[n - 3], s[n - 2], s[n - 1]);
        alpha_round_trip((s[n - 3] / 4) as int);
        alpha_round_trip((s[n - 3] % 4) * 16 + s[n - 2] / 16);
        alpha_round_trip((s[n - 2] % 16) * 4 + s[n - 1] / 64);
        alpha_round_trip((s[n - 1] % 64) as int);
        let e = enc_groups(s);
        assert(e.take(e.len() - 4) =~= enc_groups(front));
        assert(e[e.len() - 4] == q[0] && e[e.len() - 3] == q[1] && e[e.len() - 2] == q[2] && e[
            e.len() - 1] == q[3]);
        assert(front + seq![s[n - 3], s[n - 2], s[n - 1]] =~= s);
        assert forall|i: int| 0 <= i < e.len() implies (#[trigger] e[i]) < 128 && !ascii_white(
            e[i],
        ) by {
            if i < e.len() - 4 {
                assert(e[i] == enc_groups(front)[i]);
            } else {
                assert(e[i] == q[i - (e.len() - 4)]);
            }
        }
    } else {
        assert(s =~= Seq::<u8>::empty());
    }
}

proof fn dense_is_same(s: Seq<u8>)
    requires
        forall|i: int| 0 <= i < s.len() ==> !ascii_white(#[trigger] s[i]),
    ensures
        dense(s) == s,
    decreases s.len(),
{
    if s.len() > 0 {
        dense_is_same(s.drop_last());
        assert(!ascii_white(s[s.len() - 1]));
        assert(s.drop_last().push(s.last()) =~= s);
    }
}

proof fn tail_round_trip(t: Seq<u8>)
    requires
        0 < t.len() < 3,
    ensures
        enc_tail(t).len() == 4,
        dec_group(enc_tail(t)[0], enc_tail(t)[1], enc_tail(t)[2], enc_tail(t)[3]) == Ok::<
            Seq<u8>,
            Seq<char>,
        >(t),
        forall|i: int|
            0 <= i < 4 ==> (#[trigger] enc_tail(t)[i]) < 128 && !ascii_white(enc_tail(t)[i]),
{
    reveal(dec_group);
    let e = enc_tail(t);
    if t.len() == 1 {
        alpha_round_trip((t[0] / 4) as int);
        alpha_round_trip(((t[0] % 4) * 16) as int);
    } else {
        alpha_round_trip((t[0] / 4) as int);
        alpha_round_trip((t[0] % 4) * 16 + t[1] / 16);
        alpha_round_trip(((t[1] % 16) * 4) as int);
    }
    assert(dec_group(e[0], e[1], e[2], e[3])->Ok_0 =~= t);
}

proof fn ascii_bytes(e: Seq<u8>)
    requires
        forall|i: int| 0 <= i < e.len() ==> (#[trigger] e[i]) < 128,
    ensures
        encode_utf8(ascii_text(e)) == e,
{
    let chars = ascii_text(e);
    assert forall|i: int| 0 <= i < chars.len() implies '\0' <= #[trigger] chars[i] && chars[i]
        <= '\u{7f}' by {
        assert(e[i] < 128);
    }
    is_ascii_chars_encode_utf8(chars);
    assert forall|i: int| 0 <= i < e.len() implies encode_utf8(chars)[i] == e[i] by {
        assert(e[i] < 128);
        assert(chars[i] as u8 == encode_utf8(chars)[i]);
    }
    assert(encode_utf8(chars) =~= e);
}

/// Bytes that are written in Base64 are read back unchanged.
pub proof fn base64_round_trip(s: Seq<u8>)
    ensures
        unbase64(encode_utf8(ascii_text(base64(s)))) == Ok::<Seq<u8>, Seq<char>>(s),
{
    let full = s.len() - s.len() % 3;
    let head = s.take(full);
    let tail = s.skip(full);
    groups_round_trip(head);
    let h = enc_groups(head);
    let t = enc_tail(tail);
    let e = base64(s);
    if tail.len() > 0 {
        tail_round_trip(tail);
    }
    assert forall|i: int| 0 <= i < e.len() implies (#[trigger] e[i]) < 128 && !ascii_white(e[i]) by {
        if i < h.len() {
            assert(e[i] == h[i]);
        } else {
            assert(e[i] == t[i - h.len()]);
        }
    }
    ascii_bytes(e);
    dense_is_same(e);
    if tail.len() > 0 {
        let n = e.len();
        assert(e.take(n - 4) =~= h);
        assert(e[n - 4] == t[0] && e[n - 3] == t[1] && e[n - 2] == t[2] && e[n - 1] == t[3]);
        assert(head + tail =~= s);
    } else {
        assert(e =~= h);
        assert(head =~= s);
    }
}

// Restoring

/// A path that could lead out of the store.
pub open spec fn unsafe_path(p: Seq<char>) -> bool {
    p.len() == 0 || p[0] == '/' || has_within(p, ".."@)
}

/// The first path that could lead out of the store.
pub open spec fn first_unsafe(s: Seq<BackupFile>) -> Option<Seq<char>>
    decreases s.len(),
{
    if s.len() == 0 {
        None
    } else if unsafe_path(s[0].path@) {
        Some(s[0].path@)
    } else {
        first_unsafe(s.drop_first())
    }
}

/// Why a backup is not restored.
pub open spec fn backup_fault(b: Backup) -> Option<Seq<char>> {
    if b.v != BACKUP_VERSION {
        Some(
            "backup version "@ + dec_nat(b.v as nat)
                + " not supported by this server (expected 1)"@,
        )
    } else {
        match first_unsafe(b.files@) {
            Some(p) => Some("refusing unsafe path in backup: "@ + debug_text(p)),
            None => None,
        }
    }
}

/// Checks the version and the paths of a backup before anything is written.
pub fn check_backup(b: &Backup) -> (r: Result<(), String>)
    ensures
        match backup_fault(*b) {
            Some(e) => r is Err && r->Err_0@ == e,
            None => r is Ok,
        },
{
    if b.v != BACKUP_VERSION {
        return Err(
            cat3(
                "backup version ",
                u64_text(b.v as u64).as_str(),
                " not supported by this server (expected 1)",
            ),
        );
    }
    let ghost all = b.files@;
    let mut i: usize = 0;
    assert(all.skip(0) == all);
    while i < b.files.len()
        invariant
            i <= b.files.len(),
            all == b.files@,
            b.v == BACKUP_VERSION,
            first_unsafe(all) == first_unsafe(all.skip(i as int)),
        decreases b.files.len() - i,
    {
        assert(all.skip(i as int)[0] == all[i as int]);
        let p = b.files[i].path.as_str();
        let v = chars_of(p);
        if v.len() == 0 || v[0] == '/' || contains(p, "..") {
            return Err(cat2("refusing unsafe path in backup: ", debug_str(p).as_str()));
        }
        assert(all.skip(i as int).drop_first() == all.skip(i + 1));
        i = i + 1;
    }
    Ok(())
}

/// Every file of a backup that is restored stays in the store: its path is
/// relative and leads nowhere up.
pub proof fn accepted_paths_are_safe(b: Backup, i: int)
    requires
        backup_fault(b) is None,
        0 <= i < b.files@.len(),
    ensures
        !unsafe_path(b.files@[i].path@),
{
    safe_all(b.files@, i);
}

proof fn safe_all(s: Seq<BackupFile>, i: int)
    requires
        first_unsafe(s) is None,
        0 <= i < s.len(),
    ensures
        !unsafe_path(s[i].path@),
    decreases s.len(),
{
    if i > 0 {
        safe_all(s.drop_first(), i - 1);
    }
}

/// The contents of a file of a backup.
pub fn file_content(f: &BackupFile) -> (r: Result<Vec<u8>, String>)
    ensures
        match unbase64(encode_utf8(f.content_b64@)) {
            Ok(b) => r is Ok && r->Ok_0@ == b,
            Err(e) => r is Err && r->Err_0@ == "decode "@ + f.path@ + ": "@ + e,
        },
{
    match b64_decode(f.content_b64.as_str()) {
        Ok(b) => Ok(b),
        Err(e) => Err(cat4("decode ", f.path.as_str(), ": ", e.as_str())),
    }
}

/// A file as a backup keeps it.
pub fn backup_file(path: &str, bytes: &[u8]) -> (f: BackupFile)
    ensures
        f.path@ == path@,
        f.content_b64@ == ascii_text(base64(bytes@)),
{
    BackupFile { path: String::from_str(path), content_b64: b64_encode(bytes) }
}

/// A file that is backed up and restored has the contents that it had.
pub proof fn files_survive(path: Seq<char>, bytes: Seq<u8>, f: BackupFile)
    requires
        f.path@ == path,
        f.content_b64@ == ascii_text(base64(bytes)),
    ensures
        unbase64(encode_utf8(f.content_b64@)) == Ok::<Seq<u8>, Seq<char>>(bytes),
{
    base64_round_trip(bytes);
}

/// Names that are not backed up: a probe, and what restoring leaves behind.
pub open spec fn skipped(name: Seq<char>) -> bool {
    ||| name == ".readiness_probe"@
    ||| begins(name, "restore-staging-"@)
    ||| begins(name, "restore-backup-"@)
    ||| has_within(name, ".restore-staging-"@)
    ||| has_within(name, ".restore-backup-"@)
}

/// Whether a name is left out of backups.
pub fn skip_name(name: &str) -> (b: bool)
    ensures
        b == skipped(name@),
{
    same(name, ".readiness_probe") || starts_with(name, "restore-staging-") || starts_with(
        name,
        "restore-backup-",
    ) || contains(name, ".restore-staging-") || contains(name, ".restore-backup-")
}

/// The name of the directory that a restore is staged in.
pub fn staging_name(leaf: &str, suffix: &str) -> (r: String)
    ensures
        r@ == leaf@ + ".restore-staging-"@ + suffix@,
{
    cat3(leaf, ".restore-staging-", suffix)
}

/// The name of the directory that the old store is moved to.
pub fn rollback_name(leaf: &str, suffix: &str) -> (r: String)
    ensures
        r@ == leaf@ + ".restore-backup-"@ + suffix@,
{
    cat3(leaf, ".restore-backup-", suffix)
}

/// What a restore leaves behind is never backed up.
pub proof fn leftovers_are_skipped(leaf: Seq<char>, suffix: Seq<char>)
    ensures
        skipped(leaf + ".restore-staging-"@ + suffix),
        skipped(leaf + ".restore-backup-"@ + suffix),
{
    let a = leaf + ".restore-staging-"@ + suffix;
    let b = leaf + ".restore-backup-"@ + suffix;
    assert(a.subrange(leaf.len() as int, leaf.len() as int + ".restore-staging-"@.len() as int)
        =~= ".restore-staging-"@);
    assert(occurs_at(a, ".restore-staging-"@, leaf.len() as int));
    assert(b.subrange(leaf.len() as int, leaf.len() as int + ".restore-backup-"@.len() as int)
        =~= ".restore-backup-"@);
    assert(occurs_at(b, ".restore-backup-"@, leaf.len() as int));
}

} // verus!
