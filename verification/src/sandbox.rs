//! Where files and hosts may be reached from.
use crate::context::{ExecutionContext, ExecutionPolicy};
use crate::parse::{chars_of, find_place, first_place, occurs_at, text_of};
use crate::strings::{begins, cat2, cat3, cat4, cat5, char_count, contains, ends, ends_with, has_within, lower, parts, split_char, starts_with, text_from, to_lower};
use crate::text::same;
use crate::values::texts;
use vstd::prelude::*;
use vstd::string::StringExecFns;

verus! {

/// A refusal of a capability.
pub open spec fn refusal(capability: Seq<char>, told: Seq<char>) -> Seq<char> {
    "capability="@ + capability + ": "@ + told
}

fn refuse(capability: &str, told: &str) -> (s: String)
    ensures
        s@ == refusal(capability@, told@),
{
    cat4("capability=", capability, ": ", told)
}

// Paths

pub open spec fn absolute(path: Seq<char>) -> bool {
    path.len() > 0 && path[0] == '/'
}

/// `rest` under `root`; an absolute path stands for itself.
pub open spec fn under(root: Seq<char>, rest: Seq<char>) -> Seq<char> {
    if absolute(rest) {
        rest
    } else if root.len() == 0 || root.last() == '/' {
        root + rest
    } else {
        root + "/"@ + rest
    }
}

/// Joins two paths; an absolute second one stands for itself.
pub fn join_path(root: &str, rest: &str) -> (r: String)
    ensures
        r@ == under(root@, rest@),
{
    let a = chars_of(root);
    let b = chars_of(rest);
    if b.len() > 0 && b[0] == '/' {
        String::from_str(rest)
    } else if a.len() == 0 || a[a.len() - 1] == '/' {
        cat2(root, rest)
    } else {
        cat3(root, "/", rest)
    }
}

/// Where a path leads.
#[derive(Debug)]
pub enum Place {
    /// The path as it was given.
    Free(String),
    /// A path under a root that it may not leave.
    Confined { root: String, target: String },
}

/// A place with its texts as sequences.
pub enum Spot {
    Free(Seq<char>),
    Confined { root: Seq<char>, target: Seq<char> },
}

impl Place {
    pub open spec fn spot(self) -> Spot {
        match self {
            Place::Free(p) => Spot::Free(p@),
            Place::Confined { root, target } => Spot::Confined { root: root@, target: target@ },
        }
    }
}

/// The root of a policy's files: its own, under the working directory where it
/// is relative, else the working directory.
pub open spec fn file_root(policy: ExecutionPolicy, working_dir: Option<String>) -> Option<
    Seq<char>,
> {
    match (policy.file_root, working_dir) {
        (Some(root), Some(dir)) => Some(under(dir@, root@)),
        (Some(root), None) => Some(root@),
        (None, Some(dir)) => Some(dir@),
        (None, None) => None,
    }
}

/// Where a requested path leads, by what the context allows.
pub open spec fn place_for(
    ctx: Option<ExecutionContext>,
    requested: Seq<char>,
    effect: Seq<char>,
) -> Result<Spot, Seq<char>> {
    if ctx is None || ctx->Some_0.policy is None {
        Ok(Spot::Free(requested))
    } else {
        match file_root(ctx->Some_0.policy->Some_0, ctx->Some_0.working_dir) {
            None => Err(refusal(effect, "no file_root or working_dir configured"@)),
            Some(root) => if requested.len() > 0 && (requested[0] == '/' || requested[0] == '\\') {
                Err(refusal(effect, "absolute paths denied by sandbox"@))
            } else if has_within(requested, ".."@) {
                Err(refusal(effect, "path traversal denied by sandbox"@))
            } else {
                Ok(Spot::Confined { root, target: under(root, requested) })
            },
        }
    }
}

fn root_of(policy: &ExecutionPolicy, working_dir: &Option<String>) -> (r: Option<String>)
    ensures
        match file_root(*policy, *working_dir) {
            Some(p) => r is Some && r->Some_0@ == p,
            None => r is None,
        },
{
    match &policy.file_root {
        Some(root) => match working_dir {
            Some(dir) => Some(join_path(dir.as_str(), root.as_str())),
            None => Some(root.clone()),
        },
        None => match working_dir {
            Some(dir) => Some(dir.clone()),
            None => None,
        },
    }
}

/// Decides where a requested path leads. Without a policy it is taken as it is;
/// with one it is held under the policy's root.
pub fn resolve_sandbox_path(
    ctx: Option<&ExecutionContext>,
    requested: &str,
    effect: &str,
) -> (r: Result<Place, String>)
    ensures
        match place_for(given(ctx), requested@, effect@) {
            Ok(p) => r is Ok && r->Ok_0.spot() == p,
            Err(e) => r is Err && r->Err_0@ == e,
        },
{
    let root = match ctx {
        Some(context) => match &context.policy {
            Some(policy) => match root_of(policy, &context.working_dir) {
                Some(root) => root,
                None => {
                    return Err(refuse(effect, "no file_root or working_dir configured"));
                },
            },
            None => {
                return Ok(Place::Free(String::from_str(requested)));
            },
        },
        None => {
            return Ok(Place::Free(String::from_str(requested)));
        },
    };
    let v = chars_of(requested);
    if v.len() > 0 && (v[0] == '/' || v[0] == '\\') {
        return Err(refuse(effect, "absolute paths denied by sandbox"));
    }
    if contains(requested, "..") {
        return Err(refuse(effect, "path traversal denied by sandbox"));
    }
    let target = join_path(root.as_str(), requested);
    Ok(Place::Confined { root, target })
}

/// The context behind a reference.
pub open spec fn given(ctx: Option<&ExecutionContext>) -> Option<ExecutionContext> {
    match ctx {
        Some(c) => Some(*c),
        None => None,
    }
}

/// Whether an effect only looks at what is there.
pub open spec fn looks_only(effect: Seq<char>) -> bool {
    has_within(effect, "read"@) || effect == "file.exists"@ || effect == "nav.ephemerisState"@
}

/// A canonical path lies at a canonical root or below it.
pub open spec fn inside(path: Seq<char>, root: Seq<char>) -> bool {
    path == root || (if root.len() > 0 && root.last() == '/' {
        begins(path, root)
    } else {
        begins(path, root.push('/'))
    })
}

fn lies_inside(path: &str, root: &str) -> (b: bool)
    ensures
        b == inside(path@, root@),
{
    if same(path, root) {
        return true;
    }
    let v = chars_of(root);
    if v.len() > 0 && v[v.len() - 1] == '/' {
        starts_with(path, root)
    } else {
        let mut p = String::from_str(root);
        p.push('/');
        starts_with(path, p.as_str())
    }
}

/// What the file system says of a confined path: canonical paths, or the
/// message of the failure to find them.
#[derive(Debug)]
pub struct PathFacts {
    pub root: Result<String, String>,
    pub exists: bool,
    pub target: Result<String, String>,
    /// Whether the directory of the target exists, and its canonical path;
    /// nothing where the target has none.
    pub parent: Option<(bool, Result<String, String>)>,
    pub file_name: Option<String>,
}

/// The path to use for a confined target, by what the file system says of it.
pub open spec fn admitted(target: Seq<char>, effect: Seq<char>, facts: PathFacts) -> Result<
    Seq<char>,
    Seq<char>,
> {
    if looks_only(effect) && !facts.exists {
        Ok(target)
    } else if looks_only(effect) && facts.target is Err {
        Err(refusal(effect, "cannot resolve path: "@ + facts.target->Err_0@))
    } else if facts.root is Err {
        Err(refusal(effect, "cannot resolve root: "@ + facts.root->Err_0@))
    } else if facts.exists {
        match facts.target {
            Err(e) => Err(refusal(effect, "cannot resolve path: "@ + e@)),
            Ok(p) => if inside(p@, facts.root->Ok_0@) {
                Ok(p@)
            } else {
                Err(refusal(effect, "path escapes sandbox"@))
            },
        }
    } else {
        match facts.parent {
            None => Err(refusal(effect, "target has no parent directory"@)),
            Some((there, canonical)) => if !there {
                Err(refusal(effect, "parent directory does not exist"@))
            } else {
                match canonical {
                    Err(e) => Err(refusal(effect, "cannot resolve parent: "@ + e@)),
                    Ok(p) => if !inside(p@, facts.root->Ok_0@) {
                        Err(refusal(effect, "path escapes sandbox"@))
                    } else {
                        match facts.file_name {
                            None => Err(refusal(effect, "target has no filename"@)),
                            Some(name) => Ok(under(p@, name@)),
                        }
                    },
                }
            },
        }
    }
}

/// Decides which path stands for a confined target. What exists is taken by its
/// canonical path, and what is to be created by that of its directory: either
/// must lie inside the root, whatever links lead there.
pub fn admit_path(target: &str, effect: &str, facts: &PathFacts) -> (r: Result<String, String>)
    ensures
        match admitted(target@, effect@, *facts) {
            Ok(p) => r is Ok && r->Ok_0@ == p,
            Err(e) => r is Err && r->Err_0@ == e,
        },
{
    let looking = contains(effect, "read") || same(effect, "file.exists") || same(
        effect,
        "nav.ephemerisState",
    );
    if looking && !facts.exists {
        return Ok(String::from_str(target));
    }
    if looking {
        if let Err(e) = &facts.target {
            return Err(refuse(effect, cat2("cannot resolve path: ", e.as_str()).as_str()));
        }
    }
    let root = match &facts.root {
        Ok(root) => root,
        Err(e) => {
            return Err(refuse(effect, cat2("cannot resolve root: ", e.as_str()).as_str()));
        },
    };
    if facts.exists {
        return match &facts.target {
            Err(e) => Err(refuse(effect, cat2("cannot resolve path: ", e.as_str()).as_str())),
            Ok(p) => if lies_inside(p.as_str(), root.as_str()) {
                Ok(p.clone())
            } else {
                Err(refuse(effect, "path escapes sandbox"))
            },
        };
    }
    match &facts.parent {
        None => Err(refuse(effect, "target has no parent directory")),
        Some(parent) => if !parent.0 {
            Err(refuse(effect, "parent directory does not exist"))
        } else {
            match &parent.1 {
                Err(e) => Err(refuse(effect, cat2("cannot resolve parent: ", e.as_str()).as_str())),
                Ok(p) => if !lies_inside(p.as_str(), root.as_str()) {
                    Err(refuse(effect, "path escapes sandbox"))
                } else {
                    match &facts.file_name {
                        None => Err(refuse(effect, "target has no filename")),
                        Some(name) => Ok(join_path(p.as_str(), name.as_str())),
                    }
                },
            }
        },
    }
}

/// No confined path that exists, or that is to be written, is admitted outside
/// the root: what is admitted lies inside it, or is a plain name in a directory
/// that does.
pub proof fn admitted_paths_stay_inside(target: Seq<char>, effect: Seq<char>, facts: PathFacts)
    requires
        admitted(target, effect, facts) is Ok,
        facts.exists || !looks_only(effect),
        facts.root matches Ok(root) ==> absolute(root@),
        facts.file_name matches Some(name) ==> !absolute(name@),
    ensures
        facts.root is Ok,
        inside(admitted(target, effect, facts)->Ok_0, facts.root->Ok_0@),
{
    if !facts.exists {
        let root = facts.root->Ok_0@;
        let p = facts.parent->Some_0.1->Ok_0@;
        let name = facts.file_name->Some_0@;
        let full = under(p, name);
        reveal_strlit("/");
        assert(full.take(p.len() as int) =~= p);
        if p == root {
            if root.len() > 0 && root.last() == '/' {
                assert(begins(full, root));
            } else {
                assert(full.take(root.len() as int + 1) =~= root.push('/'));
            }
        } else {
            let head = if root.len() > 0 && root.last() == '/' {
                root
            } else {
                root.push('/')
            };
            assert(full.take(head.len() as int) =~= p.take(head.len() as int));
        }
    }
}

// Hosts

/// The part of `s` before the first `c`.
pub open spec fn before_char(s: Seq<char>, c: char) -> Seq<char> {
    parts(s, c)[0]
}

/// What follows the first `://`, up to the next one; all of it where there is
/// none.
pub open spec fn after_scheme(url: Seq<char>) -> Seq<char> {
    let i = first_place(url, "://"@, 0);
    if i >= url.len() {
        url
    } else {
        let rest = url.skip(i + 3);
        rest.take(first_place(rest, "://"@, 0))
    }
}

/// `s` without the `c` at its front.
pub open spec fn without_front(s: Seq<char>, c: char) -> Seq<char>
    decreases s.len(),
{
    if s.len() > 0 && s[0] == c {
        without_front(s.drop_first(), c)
    } else {
        s
    }
}

/// The host that an address names.
pub open spec fn host_in(url: Seq<char>) -> Seq<char> {
    let authority = before_char(after_scheme(url), '/');
    if authority.len() > 0 && authority[0] == '[' {
        without_front(before_char(authority, ']'), '[')
    } else {
        before_char(authority, ':')
    }
}

fn first_part(s: &str, c: char) -> (r: String)
    ensures
        r@ == before_char(s@, c),
{
    let p = split_char(s, c);
    assert(texts(p@)[0] == p@[0]@);
    p[0].clone()
}

/// The place of `d` in a text lies where all of `d` fits, or at the end.
proof fn place_fits(s: Seq<char>, d: Seq<char>, from: int)
    requires
        0 <= from <= s.len(),
    ensures
        from <= first_place(s, d, from) <= s.len(),
        first_place(s, d, from) < s.len() ==> first_place(s, d, from) + d.len() <= s.len(),
    decreases s.len() - from,
{
    if from < s.len() && !occurs_at(s, d, from) {
        place_fits(s, d, from + 1);
    }
}

fn strip_scheme(url: &str) -> (r: String)
    ensures
        r@ == after_scheme(url@),
{
    let v = chars_of(url);
    let d = chars_of("://");
    let i: usize = find_place(&v, &d, 0);
    if i >= v.len() {
        return String::from_str(url);
    }
    proof {
        reveal_strlit("://");
        place_fits(v@, d@, 0);
        assert(v@.subrange(i + 3, v@.len() as int) == v@.skip(i + 3));
    }
    let rest = text_of(&v, i + 3, v.len());
    let w = chars_of(rest.as_str());
    let j: usize = find_place(&w, &d, 0);
    assert(w@.subrange(0, j as int) == w@.take(j as int));
    text_of(&w, 0, j)
}

fn strip_front(s: &str, c: char) -> (r: String)
    ensures
        r@ == without_front(s@, c),
{
    let v = chars_of(s);
    let mut i: usize = 0;
    assert(v@.skip(0) == v@);
    while i < v.len() && v[i] == c
        invariant
            i <= v.len(),
            without_front(v@, c) == without_front(v@.skip(i as int), c),
        decreases v.len() - i,
    {
        assert(v@.skip(i as int).drop_first() == v@.skip(i + 1));
        i = i + 1;
    }
    assert(v@.subrange(i as int, v@.len() as int) == v@.skip(i as int));
    text_of(&v, i, v.len())
}

/// The host that an address names.
pub fn host_of(url: &str) -> (r: String)
    ensures
        r@ == host_in(url@),
{
    let authority = first_part(strip_scheme(url).as_str(), '/');
    let v = chars_of(authority.as_str());
    if v.len() > 0 && v[0] == '[' {
        strip_front(first_part(authority.as_str(), ']').as_str(), '[')
    } else {
        first_part(authority.as_str(), ':')
    }
}

/// A host matches an allowed one: `*.d` allows `d` and all below it, any other
/// only itself.
pub open spec fn host_matches(host: Seq<char>, allowed: Seq<char>) -> bool {
    if begins(allowed, "*."@) {
        ends(host, allowed.skip(1)) || host == allowed.skip(2)
    } else {
        host == allowed
    }
}

pub open spec fn host_allowed(host: Seq<char>, hosts: Seq<Seq<char>>) -> bool {
    exists|i: int| 0 <= i < hosts.len() && host_matches(host, #[trigger] hosts[i])
}

fn matches_host(host: &str, allowed: &str) -> (b: bool)
    ensures
        b == host_matches(host@, allowed@),
{
    if starts_with(allowed, "*.") {
        proof {
            reveal_strlit("*.");
        }
        ends_with(host, text_from(allowed, 1).as_str()) || same(
            host,
            text_from(allowed, 2).as_str(),
        )
    } else {
        same(host, allowed)
    }
}

fn is_allowed(host: &str, hosts: &Vec<String>) -> (b: bool)
    ensures
        b == host_allowed(host@, texts(hosts@)),
{
    let mut i: usize = 0;
    while i < hosts.len()
        invariant
            i <= hosts.len(),
            forall|k: int| 0 <= k < i ==> !host_matches(host@, #[trigger] texts(hosts@)[k]),
        decreases hosts.len() - i,
    {
        assert(texts(hosts@)[i as int] == hosts@[i as int]@);
        if matches_host(host, hosts[i].as_str()) {
            return true;
        }
        i = i + 1;
    }
    false
}

/// What is left to settle before an address may be reached.
#[derive(Debug)]
pub enum Gate {
    /// Nothing; redirects may be followed.
    Open,
    /// Nothing; redirects may not be followed.
    Closed,
    /// What addresses the host has; redirects may not be followed.
    Ask(String),
}

/// A gate with its text as a sequence.
pub enum GateView {
    Open,
    Closed,
    Ask(Seq<char>),
}

impl Gate {
    pub open spec fn seen(self) -> GateView {
        match self {
            Gate::Open => GateView::Open,
            Gate::Closed => GateView::Closed,
            Gate::Ask(h) => GateView::Ask(h@),
        }
    }
}

/// Whether an address may be reached, before anything is known of where its
/// host leads.
pub open spec fn gate_for(
    ctx: Option<ExecutionContext>,
    url: Seq<char>,
    capability: Seq<char>,
) -> Result<GateView, Seq<char>> {
    if ctx is None || ctx->Some_0.policy is None {
        Ok(GateView::Open)
    } else {
        let policy = ctx->Some_0.policy->Some_0;
        let host = host_in(url);
        if host.len() == 0 {
            Err(refusal(capability, "cannot parse host from URL"@))
        } else if policy.allowed_hosts@.len() == 0 {
            Err(refusal(capability, "no allowed_hosts configured — outbound HTTP denied"@))
        } else if !host_allowed(host, texts(policy.allowed_hosts@)) {
            Err(refusal(capability, "host '"@ + host + "' not in allowed_hosts"@))
        } else if !policy.deny_private_networks {
            Ok(GateView::Closed)
        } else if lower(host) == "localhost"@ {
            Err(refusal(capability, "private/local host denied by policy"@))
        } else {
            Ok(GateView::Ask(host))
        }
    }
}

/// Decides whether an address may be reached, as far as its text and the policy
/// tell, and says what is left to ask.
pub fn check_network_sandbox(
    ctx: Option<&ExecutionContext>,
    url: &str,
    cap_name: &str,
) -> (r: Result<Gate, String>)
    ensures
        match gate_for(given(ctx), url@, cap_name@) {
            Ok(g) => r is Ok && r->Ok_0.seen() == g,
            Err(e) => r is Err && r->Err_0@ == e,
        },
{
    let policy = match ctx {
        Some(context) => match &context.policy {
            Some(policy) => policy,
            None => {
                return Ok(Gate::Open);
            },
        },
        None => {
            return Ok(Gate::Open);
        },
    };
    let host = host_of(url);
    if char_count(host.as_str()) == 0 {
        return Err(refuse(cap_name, "cannot parse host from URL"));
    }
    if policy.allowed_hosts.len() == 0 {
        return Err(refuse(cap_name, "no allowed_hosts configured — outbound HTTP denied"));
    }
    if !is_allowed(host.as_str(), &policy.allowed_hosts) {
        let told = cat3("host '", host.as_str(), "' not in allowed_hosts");
        return Err(refuse(cap_name, told.as_str()));
    }
    if !policy.deny_private_networks {
        return Ok(Gate::Closed);
    }
    if same(to_lower(host.as_str()).as_str(), "localhost") {
        return Err(refuse(cap_name, "private/local host denied by policy"));
    }
    Ok(Gate::Ask(host))
}

/// An address of the Internet Protocol.
#[derive(Clone, Copy, Debug)]
pub enum Addr {
    V4([u8; 4]),
    V6([u16; 8]),
}

/// A local, private, shared or multicast address.
pub open spec fn private(a: Addr) -> bool {
    match a {
        Addr::V4(o) => {
            ||| o@[0] == 127
            ||| o@[0] == 10
            ||| (o@[0] == 172 && 16 <= o@[1] <= 31)
            ||| (o@[0] == 192 && o@[1] == 168)
            ||| (o@[0] == 169 && o@[1] == 254)
            ||| 224 <= o@[0] <= 239
            ||| o@ =~= seq![0u8, 0, 0, 0]
            ||| o@ =~= seq![255u8, 255, 255, 255]
        },
        Addr::V6(s) => {
            ||| 0xfc00 <= s@[0] <= 0xfdff
            ||| 0xfe80 <= s@[0] <= 0xfebf
            ||| s@[0] >= 0xff00
            ||| s@ =~= seq![0u16, 0, 0, 0, 0, 0, 0, 0]
            ||| s@ =~= seq![0u16, 0, 0, 0, 0, 0, 0, 1]
        },
    }
}

/// Whether an address is local, private, shared or multicast.
pub fn is_private_ip(ip: &Addr) -> (b: bool)
    ensures
        b == private(*ip),
{
    match ip {
        Addr::V4(o) => {
            let zero = o[0] == 0 && o[1] == 0 && o[2] == 0 && o[3] == 0;
            let ones = o[0] == 255 && o[1] == 255 && o[2] == 255 && o[3] == 255;
            assert(zero == (o@ =~= seq![0u8, 0, 0, 0]));
            assert(ones == (o@ =~= seq![255u8, 255, 255, 255]));
            o[0] == 127 || o[0] == 10 || (o[0] == 172 && 16 <= o[1] && o[1] <= 31) || (o[0] == 192
                && o[1] == 168) || (o[0] == 169 && o[1] == 254) || (224 <= o[0] && o[0] <= 239)
                || zero || ones
        },
        Addr::V6(s) => {
            let low = s[0] == 0 && s[1] == 0 && s[2] == 0 && s[3] == 0 && s[4] == 0 && s[5] == 0
                && s[6] == 0;
            assert((low && s@[7] == 0) == (s@ =~= seq![0u16, 0, 0, 0, 0, 0, 0, 0]));
            assert((low && s@[7] == 1) == (s@ =~= seq![0u16, 0, 0, 0, 0, 0, 0, 1]));
            (0xfc00 <= s[0] && s[0] <= 0xfdff) || (0xfe80 <= s[0] && s[0] <= 0xfebf) || s[0]
                >= 0xff00 || (low && (s[7] == 0 || s[7] == 1))
        },
    }
}

/// What is known of where a host leads.
#[derive(Debug)]
pub enum HostFacts {
    /// The host is an address itself.
    Literal(Addr),
    /// The addresses that its name stands for, each with its text.
    Resolved(Vec<(Addr, String)>),
    /// Its name stands for nothing that could be found out.
    Unresolved,
}

/// The first private address.
pub open spec fn first_private(s: Seq<(Addr, String)>) -> Option<Seq<char>>
    decreases s.len(),
{
    if s.len() == 0 {
        None
    } else if private(s[0].0) {
        Some(s[0].1@)
    } else {
        first_private(s.drop_first())
    }
}

/// Why a host may not be reached, given where it leads.
pub open spec fn host_fault(
    capability: Seq<char>,
    host: Seq<char>,
    facts: HostFacts,
) -> Option<Seq<char>> {
    match facts {
        HostFacts::Literal(a) => if private(a) {
            Some(refusal(capability, "private network denied by policy"@))
        } else {
            None
        },
        HostFacts::Resolved(s) => match first_private(s@) {
            Some(ip) => Some(
                refusal(
                    capability,
                    "host '"@ + host + "' resolves to private IP "@ + ip + " — denied by policy"@,
                ),
            ),
            None => None,
        },
        HostFacts::Unresolved => None,
    }
}

/// Decides whether a host may be reached, given where it leads.
pub fn judge_host(capability: &str, host: &str, facts: &HostFacts) -> (r: Result<(), String>)
    ensures
        match host_fault(capability@, host@, *facts) {
            Some(e) => r is Err && r->Err_0@ == e,
            None => r is Ok,
        },
{
    match facts {
        HostFacts::Literal(a) => if is_private_ip(a) {
            Err(refuse(capability, "private network denied by policy"))
        } else {
            Ok(())
        },
        HostFacts::Resolved(s) => {
            let mut i: usize = 0;
            assert(s@.skip(0) == s@);
            while i < s.len()
                invariant
                    i <= s.len(),
                    *facts == HostFacts::Resolved(*s),
                    first_private(s@) == first_private(s@.skip(i as int)),
                decreases s.len() - i,
            {
                assert(s@.skip(i as int)[0] == s@[i as int]);
                if is_private_ip(&s[i].0) {
                    let told = cat5(
                        "host '",
                        host,
                        "' resolves to private IP ",
                        s[i].1.as_str(),
                        " — denied by policy",
                    );
                    return Err(refuse(capability, told.as_str()));
                }
                assert(s@.skip(i as int).drop_first() == s@.skip(i + 1));
                i = i + 1;
            }
            Ok(())
        },
        HostFacts::Unresolved => Ok(()),
    }
}

/// Under a policy only hosts that it lists are let through, redirects are never
/// followed, and where it denies private networks, the host's addresses are asked
/// for first.
pub proof fn reached_hosts_are_listed(ctx: ExecutionContext, url: Seq<char>, capability: Seq<char>)
    requires
        ctx.policy is Some,
        gate_for(Some(ctx), url, capability) is Ok,
    ensures
        host_allowed(host_in(url), texts(ctx.policy->Some_0.allowed_hosts@)),
        !(gate_for(Some(ctx), url, capability)->Ok_0 is Open),
        ctx.policy->Some_0.deny_private_networks ==> gate_for(Some(ctx), url, capability)->Ok_0
            == GateView::Ask(host_in(url)),
{
}

/// A host is refused where any of its addresses is private.
pub proof fn private_hosts_are_refused(
    capability: Seq<char>,
    host: Seq<char>,
    found: Vec<(Addr, String)>,
    i: int,
)
    requires
        0 <= i < found@.len(),
        private(found@[i].0),
    ensures
        host_fault(capability, host, HostFacts::Resolved(found)) is Some,
{
    private_is_found(found@, i);
}

proof fn private_is_found(s: Seq<(Addr, String)>, i: int)
    requires
        0 <= i < s.len(),
        private(s[i].0),
    ensures
        first_private(s) is Some,
    decreases s.len(),
{
    if !private(s[0].0) {
        assert(s.drop_first()[i - 1] == s[i]);
        private_is_found(s.drop_first(), i - 1);
    }
}

} // verus!
