//! Tokens and what they allow. Only the digests of tokens are kept.
use crate::cap_calls::{hex, hex_text};
use crate::digest::{hex_length, sha256, sha256_hex};
use crate::sandbox::{join_path, under};
use crate::table::{Table, distinct_keys, entries_map};
use crate::text::{hex_byte, same};
use vstd::prelude::*;
use vstd::string::StringExecFns;
use vstd::utf8::encode_utf8;

verus! {

/// What a token is good for.
#[derive(Clone, Debug, PartialEq, Eq)]
pub enum Scope {
    Admin,
    TenantAdmin { tenant: String },
    Read { tenant: String, job: String, capsule: String },
}

/// What a caller wants to do.
#[derive(Clone, Debug)]
pub enum Action<'a> {
    AdminGlobal,
    TenantOp { tenant: &'a str },
    CapsuleRead { tenant: &'a str, job: &'a str, capsule: &'a str },
    CapsuleDecide { tenant: &'a str, job: &'a str, capsule: &'a str },
    CapsuleMutate { tenant: &'a str, job: &'a str, capsule: &'a str },
}

/// A scope with its texts as sequences.
pub enum ScopeView {
    Admin,
    TenantAdmin { tenant: Seq<char> },
    Read { tenant: Seq<char>, job: Seq<char>, capsule: Seq<char> },
}

/// An action with its texts as sequences.
pub enum ActionView {
    AdminGlobal,
    TenantOp { tenant: Seq<char> },
    CapsuleRead { tenant: Seq<char>, job: Seq<char>, capsule: Seq<char> },
    CapsuleDecide { tenant: Seq<char>, job: Seq<char>, capsule: Seq<char> },
    CapsuleMutate { tenant: Seq<char>, job: Seq<char>, capsule: Seq<char> },
}

impl ActionView {
    /// The tenant whose things the action touches.
    pub open spec fn tenant(self) -> Option<Seq<char>> {
        match self {
            ActionView::AdminGlobal => None,
            ActionView::TenantOp { tenant } => Some(tenant),
            ActionView::CapsuleRead { tenant, .. } => Some(tenant),
            ActionView::CapsuleDecide { tenant, .. } => Some(tenant),
            ActionView::CapsuleMutate { tenant, .. } => Some(tenant),
        }
    }
}

impl ScopeView {
    /// An administrator may do everything, a tenant's administrator everything
    /// with what is the tenant's, and a reader may read and decide with one
    /// capsule.
    pub open spec fn permits(self, a: ActionView) -> bool {
        match self {
            ScopeView::Admin => true,
            ScopeView::TenantAdmin { tenant } => a.tenant() == Some(tenant),
            ScopeView::Read { tenant, job, capsule } => a == (ActionView::CapsuleDecide {
                tenant,
                job,
                capsule,
            }) || a == (ActionView::CapsuleRead { tenant, job, capsule }),
        }
    }
}

impl<'a> Action<'a> {
    pub open spec fn seen(self) -> ActionView {
        match self {
            Action::AdminGlobal => ActionView::AdminGlobal,
            Action::TenantOp { tenant } => ActionView::TenantOp { tenant: tenant@ },
            Action::CapsuleRead { tenant, job, capsule } => ActionView::CapsuleRead {
                tenant: tenant@,
                job: job@,
                capsule: capsule@,
            },
            Action::CapsuleDecide { tenant, job, capsule } => ActionView::CapsuleDecide {
                tenant: tenant@,
                job: job@,
                capsule: capsule@,
            },
            Action::CapsuleMutate { tenant, job, capsule } => ActionView::CapsuleMutate {
                tenant: tenant@,
                job: job@,
                capsule: capsule@,
            },
        }
    }
}

impl Scope {
    pub open spec fn seen(self) -> ScopeView {
        match self {
            Scope::Admin => ScopeView::Admin,
            Scope::TenantAdmin { tenant } => ScopeView::TenantAdmin { tenant: tenant@ },
            Scope::Read { tenant, job, capsule } => ScopeView::Read {
                tenant: tenant@,
                job: job@,
                capsule: capsule@,
            },
        }
    }

    pub fn is_admin(&self) -> (b: bool)
        ensures
            b == (*self is Admin),
    {
        matches!(self, Scope::Admin)
    }

    /// Whether the scope permits an action.
    pub fn allows(&self, action: &Action) -> (b: bool)
        ensures
            b == self.seen().permits(action.seen()),
    {
        match self {
            Scope::Admin => true,
            Scope::TenantAdmin { tenant } => match action {
                Action::AdminGlobal => false,
                Action::TenantOp { tenant: t } => same(tenant.as_str(), t),
                Action::CapsuleRead { tenant: t, .. } => same(tenant.as_str(), t),
                Action::CapsuleDecide { tenant: t, .. } => same(tenant.as_str(), t),
                Action::CapsuleMutate { tenant: t, .. } => same(tenant.as_str(), t),
            },
            Scope::Read { tenant, job, capsule } => match action {
                Action::CapsuleDecide { tenant: t, job: j, capsule: c } => same(
                    tenant.as_str(),
                    t,
                ) && same(job.as_str(), j) && same(capsule.as_str(), c),
                Action::CapsuleRead { tenant: t, job: j, capsule: c } => same(tenant.as_str(), t)
                    && same(job.as_str(), j) && same(capsule.as_str(), c),
                _ => false,
            },
        }
    }

    fn copy(&self) -> (s: Scope)
        ensures
            s.seen() == self.seen(),
    {
        match self {
            Scope::Admin => Scope::Admin,
            Scope::TenantAdmin { tenant } => Scope::TenantAdmin { tenant: tenant.clone() },
            Scope::Read { tenant, job, capsule } => Scope::Read {
                tenant: tenant.clone(),
                job: job.clone(),
                capsule: capsule.clone(),
            },
        }
    }
}

/// Who is no administrator touches nothing of another tenant.
pub proof fn tenants_are_apart(s: ScopeView, a: ActionView)
    requires
        !(s is Admin),
        s.permits(a),
    ensures
        s matches ScopeView::TenantAdmin { tenant } ==> a.tenant() == Some(tenant),
        s matches ScopeView::Read { tenant, .. } ==> a.tenant() == Some(tenant),
        !(a is AdminGlobal),
{
}

/// A reader changes nothing.
pub proof fn readers_change_nothing(s: ScopeView, a: ActionView)
    requires
        s is Read,
        a is CapsuleMutate || a is TenantOp || a is AdminGlobal,
    ensures
        !s.permits(a),
{
}

/// What is kept of a token.
#[derive(Clone, Debug)]
pub struct TokenRecord {
    pub scope: Scope,
    pub created_at: u64,
    pub expires_at: Option<u64>,
    pub label: String,
}

/// A record with its texts as sequences.
pub struct RecordView {
    pub scope: ScopeView,
    pub created_at: u64,
    pub expires_at: Option<u64>,
    pub label: Seq<char>,
}

impl RecordView {
    pub open spec fn expired(self, now: u64) -> bool {
        self.expires_at matches Some(t) && t <= now
    }
}

impl TokenRecord {
    pub open spec fn seen(self) -> RecordView {
        RecordView {
            scope: self.scope.seen(),
            created_at: self.created_at,
            expires_at: self.expires_at,
            label: self.label@,
        }
    }

    /// Whether the token is no longer good.
    pub fn is_expired(&self, now: u64) -> (b: bool)
        ensures
            b == self.seen().expired(now),
    {
        match self.expires_at {
            Some(t) => t <= now,
            None => false,
        }
    }

    fn copy(&self) -> (r: TokenRecord)
        ensures
            r.seen() == self.seen(),
    {
        TokenRecord {
            scope: self.scope.copy(),
            created_at: self.created_at,
            expires_at: self.expires_at,
            label: self.label.clone(),
        }
    }
}

/// Calls `getrandom::getrandom` for thirty-two bytes; which bytes come is left
/// open. Gives nothing where the system has no randomness to give.
#[verifier::external_body]
fn random_bytes() -> (r: Option<Vec<u8>>)
    ensures
        r matches Some(b) ==> b@.len() == 32,
{
    let mut buf = [0u8; 32];
    getrandom::getrandom(&mut buf).ok().map(|_| buf.to_vec())
}

/// A token: sixty-four lower-case hexadecimal digits of fresh randomness;
/// nothing where the system has none.
pub fn generate_token() -> (r: Option<String>)
    ensures
        r matches Some(t) ==> is_token(t@),
{
    match random_bytes() {
        Some(b) => {
            proof {
                hex_length(b@);
                hex_is_digits(b@);
            }
            Some(hex(b.as_slice()))
        },
        None => None,
    }
}

/// Sixty-four lower-case hexadecimal digits.
pub open spec fn is_token(t: Seq<char>) -> bool {
    t.len() == 64 && forall|i: int| 0 <= i < t.len() ==> is_hex_digit(#[trigger] t[i])
}

pub open spec fn is_hex_digit(c: char) -> bool {
    ('0' <= c && c <= '9') || ('a' <= c && c <= 'f')
}

proof fn hex_is_digits(b: Seq<u8>)
    ensures
        forall|i: int| 0 <= i < hex_text(b).len() ==> is_hex_digit(#[trigger] hex_text(b)[i]),
    decreases b.len(),
{
    if b.len() > 0 {
        hex_is_digits(b.drop_last());
        let x = hex_text(b.drop_last());
        let last = hex_byte(b.last());
        assert forall|i: int| 0 <= i < hex_text(b).len() implies is_hex_digit(
            #[trigger] hex_text(b)[i],
        ) by {
            if i < x.len() {
                assert(hex_text(b)[i] == x[i]);
            } else {
                assert(hex_text(b)[i] == last[i - x.len()]);
            }
        }
    }
}

/// The digest under which a token is kept.
pub open spec fn token_digest(raw: Seq<char>) -> Seq<char> {
    hex_text(sha256(encode_utf8(raw)))
}

/// The tokens that have been issued, by their digests.
#[derive(Debug)]
pub struct TokenStore {
    pub path: String,
    pub tokens: Table<TokenRecord>,
}

impl TokenStore {
    pub open spec fn wf(self) -> bool {
        self.tokens.wf()
    }

    /// The records by digest.
    pub open spec fn records(self) -> Map<Seq<char>, RecordView> {
        self.tokens@.map_values(|r: TokenRecord| r.seen())
    }

    /// What a token stands for at a moment.
    pub open spec fn found(self, raw: Seq<char>, now: u64) -> Option<RecordView> {
        let d = token_digest(raw);
        if self.records().contains_key(d) && !self.records()[d].expired(now) {
            Some(self.records()[d])
        } else {
            None
        }
    }

    /// The store under a root, with the tokens that were read from its file;
    /// empty where there were none to read.
    pub fn load_or_init(store_root: &str, tokens: Option<Table<TokenRecord>>) -> (s: Self)
        requires
            tokens matches Some(t) ==> t.wf(),
        ensures
            s.wf(),
            s.path@ == under(store_root@, "tokens.json"@),
            match tokens {
                Some(t) => s.tokens == t,
                None => s.records() == Map::<Seq<char>, RecordView>::empty(),
            },
    {
        let s = TokenStore {
            path: join_path(store_root, "tokens.json"),
            tokens: match tokens {
                Some(t) => t,
                None => Table::new(),
            },
        };
        proof {
            if tokens is None {
                assert(s.records() =~= Map::<Seq<char>, RecordView>::empty());
            }
        }
        s
    }

    /// The record of a token that is known and still good.
    pub fn lookup(&self, raw_token: &str, now: u64) -> (r: Option<&TokenRecord>)
        requires
            self.wf(),
        ensures
            match self.found(raw_token@, now) {
                Some(v) => r is Some && r->Some_0.seen() == v,
                None => r is None,
            },
    {
        let hash = sha256_hex(raw_token.as_bytes());
        match self.tokens.get(hash.as_str()) {
            Some(rec) => if rec.is_expired(now) {
                None
            } else {
                Some(rec)
            },
            None => None,
        }
    }

    /// Keeps a token under its digest, and gives the digest.
    pub fn keep(
        &mut self,
        raw: &str,
        scope: Scope,
        ttl_seconds: Option<u64>,
        label: String,
        now: u64,
    ) -> (hash: String)
        requires
            old(self).wf(),
            ttl_seconds matches Some(t) ==> now + t <= u64::MAX,
        ensures
            final(self).wf(),
            final(self).path == old(self).path,
            hash@ == token_digest(raw@),
            final(self).records() == old(self).records().insert(
                token_digest(raw@),
                issued(scope.seen(), ttl_seconds, label@, now),
            ),
    {
        let hash = sha256_hex(raw.as_bytes());
        let expires_at = match ttl_seconds {
            Some(t) => Some(now + t),
            None => None,
        };
        let rec = TokenRecord { scope, created_at: now, expires_at, label };
        let ghost before = self.tokens@;
        let ghost view = |r: TokenRecord| r.seen();
        self.tokens.insert(hash.clone(), rec);
        assert(self.tokens@.map_values(view) =~= before.map_values(view).insert(
            hash@,
            rec.seen(),
        ));
        hash
    }

    /// Issues a token: gives the token, which is not kept, and its digest.
    /// Nothing is issued where the system has no randomness.
    pub fn issue(&mut self, scope: Scope, ttl_seconds: Option<u64>, label: String, now: u64) -> (r:
        Result<(String, String), String>)
        requires
            old(self).wf(),
            ttl_seconds matches Some(t) ==> now + t <= u64::MAX,
        ensures
            final(self).wf(),
            final(self).path == old(self).path,
            match r {
                Ok((raw, hash)) => is_token(raw@) && hash@ == token_digest(raw@) && final(self).records() == old(self).records().insert(
                    token_digest(raw@),
                    issued(scope.seen(), ttl_seconds, label@, now),
                ),
                Err(e) => e@ == "OsRng must be available"@ && final(self).records() == old(self).records(),
            },
    {
        match generate_token() {
            Some(raw) => {
                let hash = self.keep(raw.as_str(), scope, ttl_seconds, label, now);
                Ok((raw, hash))
            },
            None => Err(String::from_str("OsRng must be available")),
        }
    }

    /// Forgets the token with this digest; says whether there was one.
    pub fn revoke(&mut self, hash: &str) -> (removed: bool)
        requires
            old(self).wf(),
        ensures
            final(self).wf(),
            final(self).path == old(self).path,
            removed == old(self).records().contains_key(hash@),
            final(self).records() == old(self).records().remove(hash@),
    {
        let ghost before = self.tokens@;
        let ghost view = |r: TokenRecord| r.seen();
        let removed = self.tokens.remove(hash).is_some();
        assert(self.tokens@.map_values(view) =~= before.map_values(view).remove(hash@));
        removed
    }

    /// All records with their digests.
    pub fn list(&self) -> (r: Vec<(String, TokenRecord)>)
        requires
            self.wf(),
        ensures
            distinct_keys(r@),
            entries_map(r@).map_values(|t: TokenRecord| t.seen()) == self.records(),
    {
        let mut r: Vec<(String, TokenRecord)> = Vec::new();
        let ghost all = self.tokens.entries@;
        let mut i: usize = 0;
        while i < self.tokens.entries.len()
            invariant
                i <= self.tokens.entries.len(),
                all == self.tokens.entries@,
                r@.len() == i,
                forall|k: int|
                    0 <= k < i ==> (#[trigger] r@[k]).0@ == all[k].0@ && r@[k].1.seen()
                        == all[k].1.seen(),
            decreases self.tokens.entries.len() - i,
        {
            r.push((self.tokens.entries[i].0.clone(), self.tokens.entries[i].1.copy()));
            i = i + 1;
        }
        proof {
            assert forall|a: int, b: int| 0 <= a < b < r@.len() implies (#[trigger] r@[a]).0@ != (
            #[trigger] r@[b]).0@ by {
                assert(all[a].0@ != all[b].0@);
            }
            copied_entries(r@, all, r@.len() as int);
            assert(r@.take(r@.len() as int) =~= r@);
            assert(all.take(r@.len() as int) =~= all);
        }
        r
    }
}

proof fn copied_entries(a: Seq<(String, TokenRecord)>, b: Seq<(String, TokenRecord)>, n: int)
    requires
        a.len() == b.len(),
        0 <= n <= a.len(),
        forall|k: int|
            0 <= k < a.len() ==> (#[trigger] a[k]).0@ == b[k].0@ && a[k].1.seen() == b[k].1.seen(),
    ensures
        entries_map(a.take(n)).map_values(|t: TokenRecord| t.seen()) == entries_map(
            b.take(n),
        ).map_values(|t: TokenRecord| t.seen()),
    decreases n,
{
    let view = |t: TokenRecord| t.seen();
    if n > 0 {
        copied_entries(a, b, n - 1);
        assert(a.take(n).drop_last() =~= a.take(n - 1));
        assert(b.take(n).drop_last() =~= b.take(n - 1));
        let x = a[n - 1];
        let y = b[n - 1];
        let ma = entries_map(a.take(n - 1));
        let mb = entries_map(b.take(n - 1));
        assert(ma.insert(x.0@, x.1).map_values(view) =~= ma.map_values(view).insert(
            x.0@,
            x.1.seen(),
        ));
        assert(mb.insert(y.0@, y.1).map_values(view) =~= mb.map_values(view).insert(
            y.0@,
            y.1.seen(),
        ));
    } else {
        assert(a.take(n) =~= b.take(n));
    }
}

/// The record of a token that is issued now.
pub open spec fn issued(
    scope: ScopeView,
    ttl: Option<u64>,
    label: Seq<char>,
    now: u64,
) -> RecordView {
    RecordView {
        scope,
        created_at: now,
        expires_at: match ttl {
            Some(t) => Some((now + t) as u64),
            None => None,
        },
        label,
    }
}

/// A token is found as it was issued until its time is over, and not after.
pub proof fn issued_tokens_are_found(
    before: TokenStore,
    after: TokenStore,
    raw: Seq<char>,
    scope: ScopeView,
    ttl: Option<u64>,
    label: Seq<char>,
    then: u64,
    now: u64,
)
    requires
        ttl matches Some(t) ==> then + t <= u64::MAX,
        after.records() == before.records().insert(
            token_digest(raw),
            issued(scope, ttl, label, then),
        ),
    ensures
        match ttl {
            Some(t) => after.found(raw, now) == (if now < then + t {
                Some(issued(scope, ttl, label, then))
            } else {
                None
            }),
            None => after.found(raw, now) == Some(issued(scope, ttl, label, then)),
        },
{
}

/// A revoked token is not found again, and all others are found as before.
pub proof fn revoked_tokens_are_gone(
    before: TokenStore,
    after: TokenStore,
    hash: Seq<char>,
    raw: Seq<char>,
    now: u64,
)
    requires
        after.records() == before.records().remove(hash),
    ensures
        token_digest(raw) == hash ==> after.found(raw, now) is None,
        token_digest(raw) != hash ==> after.found(raw, now) == before.found(raw, now),
{
}

} // verus!
