//! Who may do what, and which places and hosts a program may reach.

use crate::auth_tokens::{ActionView, RecordView, ScopeView, issued};
use crate::context::{ExecutionContext, ExecutionPolicy};
use crate::parse::{first_place, occurs_at, trim_back, trim_front, trimmed, white};
use crate::sandbox::{Addr, GateView, HostFacts, Spot, absolute, after_scheme, before_char, file_root, first_private, gate_for, host_fault, host_in, host_matches, inside, place_for, private, under};
use crate::strings::{begins, ends, lower, parts};
use crate::values::texts;
use vstd::prelude::*;

verus! {

/// An administrator may do everything; a tenant's administrator whatever concerns
/// the tenant, and nothing else; a reader may read and decide with one capsule, and
/// nothing else.
pub proof fn scopes_permit_what_they_name(
    tenant: Seq<char>,
    job: Seq<char>,
    capsule: Seq<char>,
    a: ActionView,
)
    ensures
        ScopeView::Admin.permits(a),
        (ScopeView::TenantAdmin { tenant }).permits(a) <==> match a {
            ActionView::AdminGlobal => false,
            ActionView::TenantOp { tenant: t } => t == tenant,
            ActionView::CapsuleRead { tenant: t, .. } => t == tenant,
            ActionView::CapsuleDecide { tenant: t, .. } => t == tenant,
            ActionView::CapsuleMutate { tenant: t, .. } => t == tenant,
        },
        (ScopeView::Read { tenant, job, capsule }).permits(a) <==> match a {
            ActionView::CapsuleRead { tenant: t, job: j, capsule: c } => t == tenant && j == job
                && c == capsule,
            ActionView::CapsuleDecide { tenant: t, job: j, capsule: c } => t == tenant && j == job
                && c == capsule,
            _ => false,
        },
{
}

/// A token is over from the second on at which it expires; one without an end never
/// is.
pub proof fn tokens_expire_on_time(r: RecordView, now: u64)
    ensures
        r.expires_at is None ==> !r.expired(now),
        r.expires_at is Some ==> (r.expired(now) <==> now >= r.expires_at->Some_0),
{
}

/// A token lasts as long as was asked for, from when it was issued.
pub proof fn tokens_last_as_asked(
    scope: ScopeView,
    ttl: Option<u64>,
    label: Seq<char>,
    now: u64,
    later: u64,
)
    requires
        ttl is Some ==> now + ttl->Some_0 <= u64::MAX,
    ensures
        ({
            let r = issued(scope, ttl, label, now);
            &&& r.scope == scope && r.label == label && r.created_at == now
            &&& ttl is None ==> !r.expired(later)
            &&& ttl is Some ==> (r.expired(later) <==> later - now >= ttl->Some_0)
        }),
{
}

/// What lies beside a root, though its name begins alike, does not lie inside; what
/// lies below does, and so does the root itself.
pub proof fn neighbours_are_outside(root: Seq<char>, rest: Seq<char>)
    requires
        root.len() > 0,
        root.last() != '/',
    ensures
        inside(root, root),
        inside(root + seq!['/'] + rest, root),
        rest.len() > 0 && rest[0] != '/' ==> !inside(root + rest, root),
{
    let p = root.push('/');
    assert((root + seq!['/'] + rest).take(p.len() as int) =~= p);
    if rest.len() > 0 && rest[0] != '/' {
        let x = root + rest;
        assert(x[root.len() as int] == rest[0]);
        if begins(x, p) {
            assert(x.take(p.len() as int)[root.len() as int] == p[root.len() as int]);
        }
        assert(x.len() != root.len());
    }
}

/// Under a policy a path is refused where it is absolute, climbs, or has no root to
/// lie under; any other is confined to the root.
pub proof fn paths_are_confined(ctx: ExecutionContext, path: Seq<char>, effect: Seq<char>)
    requires
        ctx.policy is Some,
    ensures
        ({
            let root = file_root(ctx.policy->Some_0, ctx.working_dir);
            let climbs = exists|i: int| #[trigger]
                occurs_at(path, ".."@, i);
            let free = path.len() == 0 || (path[0] != '/' && path[0] != '\\');
            match place_for(Some(ctx), path, effect) {
                Ok(spot) => root is Some && free && !climbs && spot == (Spot::Confined {
                    root: root->Some_0,
                    target: under(root->Some_0, path),
                }),
                Err(_) => root is None || !free || climbs,
            }
        }),
{
}

/// The root is the policy's own, below the working directory where it is relative,
/// or else the working directory.
pub proof fn roots_lie_below_the_working_directory(p: ExecutionPolicy, dir: Option<String>)
    ensures
        p.file_root is None ==> file_root(p, dir) == (match dir {
            Some(d) => Some(d@),
            None => None,
        }),
        p.file_root is Some && dir is None ==> file_root(p, dir) == Some(p.file_root->Some_0@),
        p.file_root is Some && dir is Some && absolute(p.file_root->Some_0@) ==> file_root(p, dir)
            == Some(p.file_root->Some_0@),
        p.file_root is Some && dir is Some && !absolute(p.file_root->Some_0@)
            && dir->Some_0@.len() > 0 && dir->Some_0@.last() != '/' ==> file_root(p, dir) == Some(
            dir->Some_0@ + "/"@ + p.file_root->Some_0@,
        ),
{
}

proof fn first_part_ends_at(a: Seq<char>, c: char, b: Seq<char>)
    requires
        !a.contains(c),
    ensures
        before_char(a + seq![c] + b, c) == a,
        before_char(a, c) == a,
        parts(a + seq![c] + b, c).len() >= 2,
        parts(a, c).len() == 1,
    decreases a.len() + b.len(),
{
    if b.len() > 0 {
        first_part_ends_at(a, c, b.drop_last());
        let s = a + seq![c] + b;
        assert(s.drop_last() =~= a + seq![c] + b.drop_last());
        let p = parts(s.drop_last(), c);
        if s.last() == c {
            assert(p.push(Seq::empty())[0] == p[0]);
        } else {
            assert(p.drop_last().push(p.last().push(s.last()))[0] == p[0]);
        }
    } else {
        if a.len() > 0 {
            let front = a.drop_last();
            assert(!front.contains(c)) by {
                if front.contains(c) {
                    let i = choose|i: int| 0 <= i < front.len() && front[i] == c;
                    assert(a[i] == c);
                }
            }
            first_part_ends_at(front, c, Seq::empty());
            assert(a.last() != c) by {
                assert(a[a.len() - 1] == a.last());
            }
            let p = parts(front, c);
            assert(p.drop_last().push(p.last().push(a.last())) =~= seq![front.push(a.last())]);
            assert(front.push(a.last()) =~= a);
        } else {
            assert(a =~= Seq::<char>::empty());
        }
        let s = a + seq![c] + b;
        assert(s.drop_last() =~= a);
        assert(parts(a, c)[0] == a);
        assert(parts(a, c).push(Seq::empty())[0] == a);
    }
}

/// What stands before the first of a character is everything up to it.
pub proof fn texts_are_cut_at_the_first(a: Seq<char>, c: char, b: Seq<char>)
    requires
        !a.contains(c),
    ensures
        before_char(a + seq![c] + b, c) == a,
        before_char(a, c) == a,
{
    first_part_ends_at(a, c, b);
}

/// A listed host is matched by itself alone, and a listed `*.` and domain by the
/// domain and by everything below it, but not by what only ends alike.
pub proof fn hosts_match_what_is_listed(host: Seq<char>, domain: Seq<char>, sub: Seq<char>)
    requires
        domain.len() > 0,
        !(domain[0] == '*' && domain.len() > 1 && domain[1] == '.'),
    ensures
        host_matches(host, domain) <==> host == domain,
        host_matches(domain, "*."@ + domain),
        host_matches(sub + "."@ + domain, "*."@ + domain),
        sub.len() > 0 && sub.last() != '.' && host == sub + domain ==> !host_matches(
            host,
            "*."@ + domain,
        ),
{
    reveal_strlit("*.");
    reveal_strlit(".");
    let star = "*."@ + domain;
    assert(star.take(2) =~= "*."@);
    assert(star.skip(2) =~= domain);
    let dotted = "."@ + domain;
    assert(star.skip(1) =~= dotted);
    if begins(domain, "*."@) {
        assert(domain.take(2)[0] == '*' && domain.take(2)[1] == '.');
        assert(domain[0] == domain.take(2)[0] && domain[1] == domain.take(2)[1]);
    }
    let x = sub + "."@ + domain;
    assert(x.skip(x.len() - dotted.len()) =~= dotted);
    if sub.len() > 0 && sub.last() != '.' && host == sub + domain {
        assert(host.len() > domain.len());
        if ends(host, dotted) {
            let t = host.skip(host.len() - dotted.len());
            assert(t[0] == host[host.len() - dotted.len()]);
            assert(host[sub.len() - 1] == sub.last());
            assert(dotted[0] == '.');
        }
    }
}

/// An address of four numbers as one number.
pub open spec fn as_number(o: Seq<u8>) -> int {
    o[0] * 0x100_0000 + o[1] * 0x1_0000 + o[2] * 0x100 + o[3]
}

/// Addresses are private in the blocks of 10, 127, 172.16 to 172.31, 192.168 and
/// 169.254, in the multicast block from 224 to 239, and where all numbers are 0 or
/// 255; no other address of four numbers is.
pub proof fn private_addresses_lie_in_blocks(o: [u8; 4])
    ensures
        ({
            let n = as_number(o@);
            private(Addr::V4(o)) <==> {
                ||| 0x0A00_0000 <= n <= 0x0AFF_FFFF
                ||| 0x7F00_0000 <= n <= 0x7FFF_FFFF
                ||| 0xAC10_0000 <= n <= 0xAC1F_FFFF
                ||| 0xC0A8_0000 <= n <= 0xC0A8_FFFF
                ||| 0xA9FE_0000 <= n <= 0xA9FE_FFFF
                ||| 0xE000_0000 <= n <= 0xEFFF_FFFF
                ||| n == 0
                ||| n == 0xFFFF_FFFF
            }
        }),
{
    assert(o@.len() == 4);
    if o@[0] == 0 && o@[1] == 0 && o@[2] == 0 && o@[3] == 0 {
        assert(o@ =~= seq![0u8, 0, 0, 0]);
    }
    if o@[0] == 255 && o@[1] == 255 && o@[2] == 255 && o@[3] == 255 {
        assert(o@ =~= seq![255u8, 255, 255, 255]);
    }
}

/// Of the addresses of eight numbers those are private that are local to a site or
/// a link, those that go to many, and the first two of all.
pub proof fn longer_private_addresses(s: [u16; 8])
    ensures
        private(Addr::V6(s)) <==> {
            ||| s@[0] / 0x200 == 0x7e
            ||| s@[0] / 0x40 == 0x3fa
            ||| s@[0] / 0x100 == 0xff
            ||| (forall|i: int| 0 <= i < 7 ==> s@[i] == 0) && s@[7] <= 1
        },
{
    assert(s@.len() == 8);
    if (forall|i: int| 0 <= i < 7 ==> s@[i] == 0) && s@[7] == 0 {
        assert(s@ =~= seq![0u16, 0, 0, 0, 0, 0, 0, 0]);
    }
    if (forall|i: int| 0 <= i < 7 ==> s@[i] == 0) && s@[7] == 1 {
        assert(s@ =~= seq![0u16, 0, 0, 0, 0, 0, 0, 1]);
    }
}

/// A host that leads somewhere private is refused, by itself or by any of its
/// addresses; every other is let through.
pub proof fn hosts_are_judged_by_where_they_lead(
    capability: Seq<char>,
    host: Seq<char>,
    facts: HostFacts,
)
    ensures
        host_fault(capability, host, facts) is Some <==> match facts {
            HostFacts::Literal(a) => private(a),
            HostFacts::Resolved(s) => exists|i: int|
                0 <= i < s@.len() && private((#[trigger] s@[i]).0),
            HostFacts::Unresolved => false,
        },
{
    if let HostFacts::Resolved(s) = facts {
        private_is_found(s@);
    }
}

proof fn private_is_found(s: Seq<(Addr, String)>)
    ensures
        first_private(s) is Some <==> exists|i: int| 0 <= i < s.len() && private((#[trigger] s[i]).0),
    decreases s.len(),
{
    if s.len() > 0 {
        let rest = s.drop_first();
        private_is_found(rest);
        if first_private(rest) is Some {
            let i = choose|i: int| 0 <= i < rest.len() && private((#[trigger] rest[i]).0);
            assert(s[i + 1] == rest[i]);
        }
        if exists|i: int| 0 <= i < s.len() && private((#[trigger] s[i]).0) {
            let i = choose|i: int| 0 <= i < s.len() && private((#[trigger] s[i]).0);
            if i > 0 {
                assert(rest[i - 1] == s[i]);
            }
        }
    }
}

proof fn mark_is_found(a: Seq<char>, d: Seq<char>, b: Seq<char>, from: int)
    requires
        d.len() > 0,
        0 <= from <= a.len(),
        !a.contains(d[0]),
    ensures
        first_place(a + d + b, d, from) == a.len(),
    decreases a.len() - from,
{
    let s = a + d + b;
    if from < a.len() {
        assert(s[from] == a[from]);
        if occurs_at(s, d, from) {
            assert(s.subrange(from, from + d.len())[0] == s[from]);
        }
        mark_is_found(a, d, b, from + 1);
    } else {
        assert(s.subrange(from, from + d.len()) =~= d);
    }
}

/// The host of an address stands behind the scheme and before the path or the port.
pub proof fn hosts_stand_behind_the_scheme(
    scheme: Seq<char>,
    host: Seq<char>,
    port: Seq<char>,
    path: Seq<char>,
)
    requires
        !scheme.contains(':'),
        !host.contains(':'),
        !host.contains('/'),
        !port.contains('/'),
        host.len() > 0 && host[0] != '[',
        ({
            let rest = host + seq![':'] + port + seq!['/'] + path;
            first_place(rest, "://"@, 0) == rest.len()
        }),
    ensures
        host_in(scheme + "://"@ + (host + seq![':'] + port + seq!['/'] + path)) == host,
{
    reveal_strlit("://");
    let rest = host + seq![':'] + port + seq!['/'] + path;
    let url = scheme + "://"@ + rest;
    mark_is_found(scheme, "://"@, rest, 0);
    assert(url.skip(scheme.len() as int + 3) =~= rest);
    assert(rest.take(rest.len() as int) =~= rest);
    assert(after_scheme(url) == rest);
    let authority = host + seq![':'] + port;
    assert(!authority.contains('/')) by {
        if authority.contains('/') {
            let i = choose|i: int| 0 <= i < authority.len() && authority[i] == '/';
            if i < host.len() {
                assert(host[i] == '/');
            } else {
                assert(i > host.len());
                assert(port[i - host.len() - 1] == '/');
            }
        }
    }
    texts_are_cut_at_the_first(authority, '/', path);
    assert(authority[0] == host[0]);
    texts_are_cut_at_the_first(host, ':', port);
}

/// Under a policy a host is let through only where it is listed, and never a local
/// one where private networks are denied; without a policy every host is.
pub proof fn gates_open_for_listed_hosts(
    ctx: ExecutionContext,
    url: Seq<char>,
    capability: Seq<char>,
)
    requires
        ctx.policy is Some,
    ensures
        ({
            let p = ctx.policy->Some_0;
            let host = host_in(url);
            let listed = exists|i: int|
                0 <= i < p.allowed_hosts@.len() && host_matches(
                    host,
                    #[trigger] texts(p.allowed_hosts@)[i],
                );
            gate_for(Some(ctx), url, capability) is Ok <==> host.len() > 0 && listed && !(
            p.deny_private_networks && lower(host) == "localhost"@)
        }),
        gate_for(None, url, capability) == Ok::<GateView, Seq<char>>(GateView::Open),
{
    let p = ctx.policy->Some_0;
    let host = host_in(url);
    assert(texts(p.allowed_hosts@).len() == p.allowed_hosts@.len());
}

/// Trimmed text begins and ends with something that is not white space, and is all
/// of the text but white space around it.
pub proof fn trimming_takes_white_space_alone(s: Seq<char>)
    ensures
        trimmed(s).len() > 0 ==> !white(trimmed(s)[0]) && !white(trimmed(s).last()),
        exists|i: int, j: int|
            0 <= i <= j <= s.len() && #[trigger] s.subrange(i, j) == trimmed(s) && (forall|k: int|
                0 <= k < i || j <= k < s.len() ==> white(#[trigger] s[k])),
{
    front_is_trimmed(s);
    let f = trim_front(s);
    back_is_trimmed(f);
    let i = s.len() - f.len();
    let j = i + trim_back(f).len();
    assert(s.subrange(i, j) =~= trimmed(s));
    assert forall|k: int| 0 <= k < i || j <= k < s.len() implies white(#[trigger] s[k]) by {
        if j <= k {
            assert(f[k - i] == s[k]);
        }
    }
    if trimmed(s).len() > 0 {
        assert(trimmed(s)[0] == f[0]);
    }
}

proof fn front_is_trimmed(s: Seq<char>)
    ensures
        ({
            let f = trim_front(s);
            &&& f.len() <= s.len()
            &&& f == s.skip(s.len() - f.len())
            &&& f.len() > 0 ==> !white(f[0])
            &&& forall|k: int| 0 <= k < s.len() - f.len() ==> white(#[trigger] s[k])
        }),
    decreases s.len(),
{
    if s.len() > 0 && white(s[0]) {
        let rest = s.drop_first();
        front_is_trimmed(rest);
        let f = trim_front(s);
        assert(f =~= s.skip(s.len() - f.len()));
        assert forall|k: int| 0 <= k < s.len() - f.len() implies white(#[trigger] s[k]) by {
            if k > 0 {
                assert(rest[k - 1] == s[k]);
            }
        }
    } else {
        assert(s.skip(0) =~= s);
    }
}

proof fn back_is_trimmed(s: Seq<char>)
    ensures
        ({
            let f = trim_back(s);
            &&& f.len() <= s.len()
            &&& f == s.take(f.len() as int)
            &&& f.len() > 0 ==> !white(f.last())
            &&& forall|k: int| f.len() <= k < s.len() ==> white(#[trigger] s[k])
        }),
    decreases s.len(),
{
    if s.len() > 0 && white(s.last()) {
        let front = s.drop_last();
        back_is_trimmed(front);
        let f = trim_back(s);
        assert(f =~= s.take(f.len() as int));
        assert forall|k: int| f.len() <= k < s.len() implies white(#[trigger] s[k]) by {
            if k < front.len() {
                assert(front[k] == s[k]);
            }
        }
    } else {
        assert(s.take(s.len() as int) =~= s);
    }
}

} // verus!
