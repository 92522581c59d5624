//! Short-lived confirmations for destructive operations. A token carries nothing; the
//! operation, connection, target and effect it confirms stay here and are compared when
//! the operation starts. A token is consumed by its first verification.
use crate::error::AppError;
use crate::ids::{canonical_uuid, new_uuid};
use crate::operation::{OperationContext, OperationKind, TargetIdentity};
use crate::text::{chars_of, char_is_hex, is_hex, str_eq};
use vstd::prelude::*;

verus! {

/// Lifetime of a confirmation, in seconds.
pub const DEFAULT_TTL_SECONDS: i64 = 120;

/// First and last second (since the Unix epoch) of the dates `chrono` represents.
pub const MIN_UTC_SECS: i64 = -8334601315200;

pub const MAX_UTC_SECS: i64 = 8210266876799;

/// An instant in UTC: seconds since the Unix epoch and nanoseconds within the second.
#[derive(Clone, Copy, Debug)]
pub struct UtcInstant {
    pub secs: i64,
    pub nanos: u32,
}

/// An instant `chrono` can represent.
pub open spec fn instant_ok(t: UtcInstant) -> bool {
    MIN_UTC_SECS <= t.secs <= MAX_UTC_SECS && t.nanos < 1000000000
}

/// `a` is at or after `b`.
pub open spec fn not_before(a: UtcInstant, b: UtcInstant) -> bool {
    a.secs > b.secs || (a.secs == b.secs && a.nanos >= b.nanos)
}

/// RFC 3339 text of an instant, as `chrono::DateTime::<Utc>::to_rfc3339` prints it.
pub uninterp spec fn rfc3339_text(secs: i64, nanos: u32) -> Seq<char>;

/// `DateTime::<Utc>::from_timestamp(secs, nanos)` printed with `to_rfc3339`. The
/// requirement keeps the instant within the dates `chrono` represents, where
/// `from_timestamp` returns `Some`; the text itself is not stated here.
#[verifier::external_body]
pub(crate) fn rfc3339(secs: i64, nanos: u32) -> (r: String)
    requires
        MIN_UTC_SECS <= secs <= MAX_UTC_SECS,
        nanos < 1000000000,
    ensures
        r@ == rfc3339_text(secs, nanos),
{
    chrono::DateTime::from_timestamp(secs, nanos).unwrap().to_rfc3339()
}

/// The current time, from `chrono::Utc::now`. Its source builds the instant with
/// `DateTime::from_timestamp` from the time since the Unix epoch (and panics before the
/// epoch), so the seconds are not negative and the nanoseconds below one second. Which
/// instant comes back is left open.
#[verifier::external_body]
pub(crate) fn utc_now() -> (r: UtcInstant)
    ensures
        instant_ok(r),
        r.secs >= 0,
{
    let now = chrono::Utc::now();
    UtcInstant { secs: now.timestamp(), nanos: now.timestamp_subsec_nanos() }
}

/// What a confirmation binds: the operation, connection, exact target and effect, and
/// when it expires.
#[derive(Debug)]
pub struct ConfirmationToken {
    pub operation_kind: OperationKind,
    pub connection_id: String,
    pub target: TargetIdentity,
    pub effect_digest: String,
    pub expires_at: String,
}

/// A confirmation as shown to the user, with the token that answers it.
#[derive(Debug)]
pub struct ConfirmationPreview {
    pub token: String,
    pub confirmation: ConfirmationToken,
}

struct PendingConfirmation {
    confirmation: ConfirmationToken,
    expires: UtcInstant,
}

/// What is known of a pending confirmation.
pub struct PendingView {
    pub kind: OperationKind,
    pub connection_id: Seq<char>,
    pub target: (Seq<char>, Seq<char>, Seq<char>),
    pub effect_digest: Seq<char>,
    pub expires: UtcInstant,
    /// The expiry as the RFC 3339 text shown to the user.
    pub expires_text: Seq<char>,
}

pub open spec fn target_view(t: TargetIdentity) -> (Seq<char>, Seq<char>, Seq<char>) {
    (t.resource_kind@, t.id@, t.name@)
}

pub open spec fn opt_target_view(t: Option<TargetIdentity>) -> Option<(Seq<char>, Seq<char>, Seq<char>)> {
    match t {
        Some(x) => Some(target_view(x)),
        None => None,
    }
}

/// A well-formed effect digest: 16 to 128 hexadecimal digits.
pub open spec fn digest_ok(d: Seq<char>) -> bool {
    16 <= d.len() <= 128 && forall|i: int| 0 <= i < d.len() ==> is_hex(#[trigger] d[i])
}

/// Whether a confirmation pending in `m` under `token` admits an operation of `kind` on
/// `connection_id` and `target` with effect `digest` at `now`.
pub open spec fn admits(
    m: Map<Seq<char>, PendingView>,
    token: Seq<char>,
    kind: OperationKind,
    connection_id: Seq<char>,
    target: Option<(Seq<char>, Seq<char>, Seq<char>)>,
    digest: Seq<char>,
    now: UtcInstant,
) -> bool {
    &&& digest_ok(digest)
    &&& m.contains_key(token)
    &&& !not_before(now, m[token].expires)
    &&& m[token].kind == kind
    &&& m[token].connection_id == connection_id
    &&& target == Some(m[token].target)
    &&& m[token].effect_digest == digest
}

/// The pending confirmations left after a verification of `token` with `digest`: a
/// well-formed digest consumes the token whatever the outcome.
pub open spec fn after_verification(m: Map<Seq<char>, PendingView>, token: Seq<char>, digest: Seq<char>) -> Map<
    Seq<char>,
    PendingView,
> {
    if digest_ok(digest) {
        m.remove(token)
    } else {
        m
    }
}

/// The confirmation an operation context and digest are issued, expiring at `expires`.
pub open spec fn issued(
    kind: OperationKind,
    connection_id: Seq<char>,
    target: (Seq<char>, Seq<char>, Seq<char>),
    digest: Seq<char>,
    expires: UtcInstant,
) -> PendingView {
    PendingView {
        kind,
        connection_id,
        target,
        effect_digest: digest,
        expires,
        expires_text: rfc3339_text(expires.secs, expires.nanos),
    }
}

/// Process-local store of pending confirmations, keyed by token.
pub struct ConfirmationService {
    pending: Vec<(String, PendingConfirmation)>,
}

spec fn pending_view(p: PendingConfirmation) -> PendingView {
    PendingView {
        kind: p.confirmation.operation_kind,
        connection_id: p.confirmation.connection_id@,
        target: target_view(p.confirmation.target),
        effect_digest: p.confirmation.effect_digest@,
        expires: p.expires,
        expires_text: p.confirmation.expires_at@,
    }
}

spec fn distinct_keys(v: Seq<(String, PendingConfirmation)>) -> bool {
    forall|i: int, j: int| 0 <= i < v.len() && 0 <= j < v.len() && i != j ==> (#[trigger] v[i]).0@ != (#[trigger] v[j]).0@
}

spec fn has_key(v: Seq<(String, PendingConfirmation)>, k: Seq<char>) -> bool {
    exists|i: int| 0 <= i < v.len() && (#[trigger] v[i]).0@ == k
}

spec fn map_of(v: Seq<(String, PendingConfirmation)>) -> Map<Seq<char>, PendingView> {
    Map::new(
        |k: Seq<char>| has_key(v, k),
        |k: Seq<char>| pending_view(v[choose|i: int| 0 <= i < v.len() && (#[trigger] v[i]).0@ == k].1),
    )
}

proof fn lemma_map_of_at(v: Seq<(String, PendingConfirmation)>, i: int)
    requires
        0 <= i < v.len(),
        distinct_keys(v),
    ensures
        map_of(v).contains_key(v[i].0@),
        map_of(v)[v[i].0@] == pending_view(v[i].1),
{
    let k = v[i].0@;
    assert(has_key(v, k));
    let j = choose|j: int| 0 <= j < v.len() && (#[trigger] v[j]).0@ == k;
    assert(j == i);
}

proof fn lemma_map_of_push(v: Seq<(String, PendingConfirmation)>, e: (String, PendingConfirmation))
    requires
        distinct_keys(v),
        !has_key(v, e.0@),
    ensures
        distinct_keys(v.push(e)),
        map_of(v.push(e)) == map_of(v).insert(e.0@, pending_view(e.1)),
{
    let w = v.push(e);
    assert forall|i: int, j: int| 0 <= i < w.len() && 0 <= j < w.len() && i != j implies (#[trigger] w[i]).0@ != (
    #[trigger] w[j]).0@ by {
        if i < v.len() && j < v.len() {
            assert(w[i] == v[i] && w[j] == v[j]);
        } else if i < v.len() {
            assert(w[i] == v[i]);
        } else {
            assert(w[j] == v[j]);
        }
    }
    assert forall|k: Seq<char>| #[trigger] has_key(w, k) == (has_key(v, k) || k == e.0@) by {
        if has_key(v, k) {
            let i = choose|i: int| 0 <= i < v.len() && (#[trigger] v[i]).0@ == k;
            assert(w[i] == v[i]);
        }
        if has_key(w, k) && k != e.0@ {
            let i = choose|i: int| 0 <= i < w.len() && (#[trigger] w[i]).0@ == k;
            assert(i < v.len());
            assert(w[i] == v[i]);
        }
        if k == e.0@ {
            assert(w[v.len() as int] == e);
        }
    }
    assert forall|k: Seq<char>| #[trigger] map_of(w).contains_key(k) implies map_of(w)[k] == map_of(v).insert(
        e.0@,
        pending_view(e.1),
    )[k] by {
        let i = choose|i: int| 0 <= i < w.len() && (#[trigger] w[i]).0@ == k;
        lemma_map_of_at(w, i);
        if i < v.len() {
            assert(w[i] == v[i]);
            lemma_map_of_at(v, i);
        }
    }
    assert(map_of(w) =~= map_of(v).insert(e.0@, pending_view(e.1)));
}

proof fn lemma_map_of_update(v: Seq<(String, PendingConfirmation)>, i: int, e: (String, PendingConfirmation))
    requires
        distinct_keys(v),
        0 <= i < v.len(),
        v[i].0@ == e.0@,
    ensures
        distinct_keys(v.update(i, e)),
        map_of(v.update(i, e)) == map_of(v).insert(e.0@, pending_view(e.1)),
{
    let w = v.update(i, e);
    assert forall|a: int, b: int| 0 <= a < w.len() && 0 <= b < w.len() && a != b implies (#[trigger] w[a]).0@ != (
    #[trigger] w[b]).0@ by {
        assert(w[a].0@ == v[a].0@ && w[b].0@ == v[b].0@);
    }
    assert forall|k: Seq<char>| #[trigger] has_key(w, k) == has_key(v, k) by {
        if has_key(v, k) {
            let a = choose|a: int| 0 <= a < v.len() && (#[trigger] v[a]).0@ == k;
            assert(w[a].0@ == v[a].0@);
        }
        if has_key(w, k) {
            let a = choose|a: int| 0 <= a < w.len() && (#[trigger] w[a]).0@ == k;
            assert(w[a].0@ == v[a].0@);
        }
    }
    lemma_map_of_at(v, i);
    assert forall|k: Seq<char>| #[trigger] map_of(w).contains_key(k) implies map_of(w)[k] == map_of(v).insert(
        e.0@,
        pending_view(e.1),
    )[k] by {
        let a = choose|a: int| 0 <= a < w.len() && (#[trigger] w[a]).0@ == k;
        lemma_map_of_at(w, a);
        if a != i {
            assert(w[a] == v[a]);
            lemma_map_of_at(v, a);
        }
    }
    assert(map_of(w) =~= map_of(v).insert(e.0@, pending_view(e.1)));
}

proof fn lemma_map_of_remove(v: Seq<(String, PendingConfirmation)>, i: int)
    requires
        distinct_keys(v),
        0 <= i < v.len(),
    ensures
        distinct_keys(v.remove(i)),
        map_of(v.remove(i)) == map_of(v).remove(v[i].0@),
{
    let w = v.remove(i);
    let k0 = v[i].0@;
    assert forall|a: int| 0 <= a < w.len() implies #[trigger] w[a] == (if a < i { v[a] } else { v[a + 1] }) by {}
    assert forall|a: int, b: int| 0 <= a < w.len() && 0 <= b < w.len() && a != b implies (#[trigger] w[a]).0@ != (
    #[trigger] w[b]).0@ by {
        let a2 = if a < i { a } else { a + 1 };
        let b2 = if b < i { b } else { b + 1 };
        assert(w[a] == v[a2] && w[b] == v[b2]);
    }
    assert forall|k: Seq<char>| #[trigger] has_key(w, k) == (has_key(v, k) && k != k0) by {
        if has_key(v, k) && k != k0 {
            let a = choose|a: int| 0 <= a < v.len() && (#[trigger] v[a]).0@ == k;
            assert(a != i);
            let a2 = if a < i { a } else { a - 1 };
            assert(w[a2] == v[a]);
        }
        if has_key(w, k) {
            let a = choose|a: int| 0 <= a < w.len() && (#[trigger] w[a]).0@ == k;
            let a2 = if a < i { a } else { a + 1 };
            assert(w[a] == v[a2]);
            assert(a2 != i);
        }
    }
    assert forall|k: Seq<char>| #[trigger] map_of(w).contains_key(k) implies map_of(w)[k] == map_of(v).remove(k0)[k] by {
        let a = choose|a: int| 0 <= a < w.len() && (#[trigger] w[a]).0@ == k;
        lemma_map_of_at(w, a);
        let a2 = if a < i { a } else { a + 1 };
        assert(w[a] == v[a2]);
        lemma_map_of_at(v, a2);
    }
    assert(map_of(w) =~= map_of(v).remove(k0));
}

impl ConfirmationService {
    /// No token is pending twice.
    #[verifier::type_invariant]
    spec fn tokens_distinct(self) -> bool {
        distinct_keys(self.pending@)
    }

    /// The pending confirmations, by token.
    pub closed spec fn view(&self) -> Map<Seq<char>, PendingView> {
        map_of(self.pending@)
    }

    /// An empty store.
    pub fn new() -> (r: Self)
        ensures
            r.view() == Map::<Seq<char>, PendingView>::empty(),
    {
        let r = ConfirmationService { pending: Vec::new() };
        assert(map_of(r.pending@) =~= Map::<Seq<char>, PendingView>::empty());
        r
    }

    /// Position of `token` among the pending confirmations.
    fn position(&self, token: &str) -> (r: Option<usize>)
        ensures
            match r {
                Some(i) => i < self.pending@.len() && self.pending@[i as int].0@ == token@,
                None => !has_key(self.pending@, token@),
            },
    {
        let n = self.pending.len();
        let mut i: usize = 0;
        while i < n
            invariant
                n == self.pending@.len(),
                i <= n,
                forall|k: int| 0 <= k < i ==> (#[trigger] self.pending@[k]).0@ != token@,
            decreases n - i,
        {
            if str_eq(self.pending[i].0.as_str(), token) {
                return Some(i);
            }
            i = i + 1;
        }
        None
    }
}

/// What issuing a confirmation for `context` and `effect_digest` at `at`, valid for `ttl`
/// seconds, gave: a fresh version-4 token, stored (over a token equal to it, should there
/// be one) with the context, the digest and the expiry, and a preview of the same.
pub open spec fn issued_preview(
    before: Map<Seq<char>, PendingView>,
    after: Map<Seq<char>, PendingView>,
    p: ConfirmationPreview,
    context: &OperationContext,
    effect_digest: Seq<char>,
    at: UtcInstant,
    ttl: i64,
) -> bool {
    &&& canonical_uuid(p.token@)
    &&& crate::ids::version4_digits(p.token@)
    &&& after == before.insert(
        p.token@,
        issued(
            context.operation_kind,
            context.connection_id@,
            target_view(context.target->0),
            effect_digest,
            UtcInstant { secs: (at.secs + ttl) as i64, nanos: at.nanos },
        ),
    )
    &&& p.confirmation.operation_kind == context.operation_kind
    &&& p.confirmation.connection_id@ == context.connection_id@
    &&& target_view(p.confirmation.target) == target_view(context.target->0)
    &&& p.confirmation.effect_digest@ == effect_digest
    &&& p.confirmation.expires_at@ == rfc3339_text((at.secs + ttl) as i64, at.nanos)
}

impl ConfirmationService {
    /// Issues a confirmation for the operation `context` describes and the effect
    /// `effect_digest` names, valid for `ttl_seconds` from `issued_at`.
    pub fn issue_at(
        &mut self,
        context: &OperationContext,
        effect_digest: &str,
        issued_at: UtcInstant,
        ttl_seconds: i64,
    ) -> (r: Result<ConfirmationPreview, AppError>)
        requires
            instant_ok(issued_at),
            context.target is Some && digest_ok(effect_digest@) && ttl_seconds > 0 ==> issued_at.secs
                + ttl_seconds <= MAX_UTC_SECS,
        ensures
            match r {
                Ok(p) => context.target is Some && digest_ok(effect_digest@) && ttl_seconds > 0 && issued_preview(
                    old(self)@,
                    final(self)@,
                    p,
                    context,
                    effect_digest@,
                    issued_at,
                    ttl_seconds,
                ),
                Err(e) => !(context.target is Some && digest_ok(effect_digest@) && ttl_seconds > 0) && e is InvalidConfig
                    && final(self)@ == old(self)@,
            },
    {
        proof {
            use_type_invariant(&*self);
        }
        let target = match &context.target {
            Some(t) => clone_target(t),
            None => {
                return Err(AppError::invalid("Destructive confirmation requires an exact target"));
            },
        };
        validate_effect_digest(effect_digest)?;
        if ttl_seconds <= 0 {
            return Err(AppError::invalid("Destructive confirmation lifetime is invalid"));
        }
        let expires = UtcInstant { secs: issued_at.secs + ttl_seconds, nanos: issued_at.nanos };
        let token = new_uuid();
        let confirmation = ConfirmationToken {
            operation_kind: context.operation_kind,
            connection_id: context.connection_id.clone(),
            target,
            effect_digest: String::from_str(effect_digest),
            expires_at: rfc3339(expires.secs, expires.nanos),
        };
        let stored = ConfirmationToken {
            operation_kind: confirmation.operation_kind,
            connection_id: confirmation.connection_id.clone(),
            target: clone_target(&confirmation.target),
            effect_digest: confirmation.effect_digest.clone(),
            expires_at: confirmation.expires_at.clone(),
        };
        let entry = (token.clone(), PendingConfirmation { confirmation: stored, expires });
        let ghost before = self.pending@;
        let position = self.position(token.as_str());
        let mut pending: Vec<(String, PendingConfirmation)> = Vec::new();
        std::mem::swap(&mut pending, &mut self.pending);
        match position {
            Some(i) => {
                proof {
                    lemma_map_of_update(before, i as int, entry);
                }
                pending.set(i, entry);
            },
            None => {
                proof {
                    lemma_map_of_push(before, entry);
                }
                pending.push(entry);
            },
        }
        self.pending = pending;
        Ok(ConfirmationPreview { token, confirmation })
    }

    /// Verifies that `token` confirms the operation `context` describes with effect
    /// `effect_digest` at `now`, and consumes it: a token never verifies twice.
    pub fn verify_and_consume_at(
        &mut self,
        token: &str,
        context: &OperationContext,
        effect_digest: &str,
        now: UtcInstant,
    ) -> (r: Result<(), AppError>)
        ensures
            r is Ok <==> admits(
                old(self)@,
                token@,
                context.operation_kind,
                context.connection_id@,
                opt_target_view(context.target),
                effect_digest@,
                now,
            ),
            r matches Err(e) ==> e is InvalidConfig,
            final(self)@ == after_verification(old(self)@, token@, effect_digest@),
    {
        proof {
            use_type_invariant(&*self);
        }
        validate_effect_digest(effect_digest)?;
        let i = match self.position(token) {
            Some(i) => i,
            None => {
                return Err(
                    AppError::invalid("The destructive confirmation is missing, expired, or already used"),
                );
            },
        };
        let ghost before = self.pending@;
        proof {
            lemma_map_of_at(before, i as int);
            lemma_map_of_remove(before, i as int);
        }
        let mut all: Vec<(String, PendingConfirmation)> = Vec::new();
        std::mem::swap(&mut all, &mut self.pending);
        let (_, pending) = all.remove(i);
        self.pending = all;
        let expires = pending.expires;
        if now.secs > expires.secs || (now.secs == expires.secs && now.nanos >= expires.nanos) {
            return Err(AppError::invalid("The destructive confirmation has expired"));
        }
        let c = &pending.confirmation;
        let same_target_as_context = match &context.target {
            Some(t) => same_target(t, &c.target),
            None => false,
        };
        if c.operation_kind != context.operation_kind || !str_eq(c.connection_id.as_str(), context.connection_id.as_str())
            || !same_target_as_context || !str_eq(c.effect_digest.as_str(), effect_digest) {
            return Err(AppError::invalid("The destructive target or selected connection changed"));
        }
        Ok(())
    }
}

impl ConfirmationService {
    /// Issues a confirmation valid for the default lifetime from `now`. An instant so late
    /// that the expiry would leave the dates `chrono` represents is refused.
    pub fn issue_default_at(&mut self, context: &OperationContext, effect_digest: &str, now: UtcInstant) -> (r:
        Result<ConfirmationPreview, AppError>)
        requires
            instant_ok(now),
        ensures
            !(context.target is Some && digest_ok(effect_digest@)) ==> (r matches Err(e) && e is InvalidConfig),
            context.target is Some && digest_ok(effect_digest@) && now.secs > MAX_UTC_SECS - DEFAULT_TTL_SECONDS ==> (
            r matches Err(AppError::Other(m)) && m@ == "The current time is outside the supported range"@),
            context.target is Some && digest_ok(effect_digest@) && now.secs <= MAX_UTC_SECS - DEFAULT_TTL_SECONDS ==> (
            r matches Ok(p) && issued_preview(
                old(self)@,
                final(self)@,
                p,
                context,
                effect_digest@,
                now,
                DEFAULT_TTL_SECONDS,
            )),
            r is Err ==> final(self)@ == old(self)@,
    {
        if now.secs > MAX_UTC_SECS - DEFAULT_TTL_SECONDS {
            if context.target.is_none() {
                return Err(AppError::invalid("Destructive confirmation requires an exact target"));
            }
            validate_effect_digest(effect_digest)?;
            return Err(AppError::Other(String::from_str("The current time is outside the supported range")));
        }
        self.issue_at(context, effect_digest, now, DEFAULT_TTL_SECONDS)
    }

    /// Issues a confirmation valid for the default lifetime from now. The input errors do
    /// not depend on the clock; which instant is read is not stated.
    pub fn issue(&mut self, context: &OperationContext, effect_digest: &str) -> (r: Result<ConfirmationPreview, AppError>)
        ensures
            !(context.target is Some && digest_ok(effect_digest@)) ==> (r matches Err(e) && e is InvalidConfig),
            (r matches Err(e) && e is InvalidConfig) ==> !(context.target is Some && digest_ok(effect_digest@)),
            r matches Err(e) ==> (e is InvalidConfig || (e matches AppError::Other(m) && m@
                == "The current time is outside the supported range"@ && exists|now: UtcInstant|
                #[trigger] instant_ok(now) && now.secs > MAX_UTC_SECS - DEFAULT_TTL_SECONDS)),
            r is Err ==> final(self)@ == old(self)@,
            r matches Ok(p) ==> context.target is Some && digest_ok(effect_digest@) && exists|now: UtcInstant|
                instant_ok(now) && #[trigger] issued_preview(
                    old(self)@,
                    final(self)@,
                    p,
                    context,
                    effect_digest@,
                    now,
                    DEFAULT_TTL_SECONDS,
                ),
    {
        let now = utc_now();
        let r = self.issue_default_at(context, effect_digest, now);
        proof {
            assert(instant_ok(now));
            if r is Ok {
                assert(issued_preview(old(self)@, self@, r->Ok_0, context, effect_digest@, now, DEFAULT_TTL_SECONDS));
            }
        }
        r
    }

    /// Verifies and consumes `token` now.
    pub fn verify_and_consume(&mut self, token: &str, context: &OperationContext, effect_digest: &str) -> (r:
        Result<(), AppError>)
        ensures
            r is Ok ==> exists|now: UtcInstant|
                admits(
                    old(self)@,
                    token@,
                    context.operation_kind,
                    context.connection_id@,
                    opt_target_view(context.target),
                    effect_digest@,
                    now,
                ),
            final(self)@ == after_verification(old(self)@, token@, effect_digest@),
    {
        let now = utc_now();
        self.verify_and_consume_at(token, context, effect_digest, now)
    }
}

impl Default for ConfirmationService {
    fn default() -> (r: Self)
        ensures
            r@ == Map::<Seq<char>, PendingView>::empty(),
    {
        Self::new()
    }
}

/// A confirmation that was verified once never verifies again, whatever it is presented
/// with.
pub proof fn law_confirmation_is_single_use(
    m: Map<Seq<char>, PendingView>,
    token: Seq<char>,
    kind: OperationKind,
    connection_id: Seq<char>,
    target: Option<(Seq<char>, Seq<char>, Seq<char>)>,
    digest: Seq<char>,
    now: UtcInstant,
    kind2: OperationKind,
    connection_id2: Seq<char>,
    target2: Option<(Seq<char>, Seq<char>, Seq<char>)>,
    digest2: Seq<char>,
    now2: UtcInstant,
)
    requires
        admits(m, token, kind, connection_id, target, digest, now),
    ensures
        !admits(after_verification(m, token, digest), token, kind2, connection_id2, target2, digest2, now2),
{
}

/// A freshly issued confirmation admits exactly the operation, connection, target and
/// effect it was issued for, and only before it expires.
pub proof fn law_issued_confirmation_admits_only_its_operation(
    m: Map<Seq<char>, PendingView>,
    token: Seq<char>,
    kind: OperationKind,
    connection_id: Seq<char>,
    target: (Seq<char>, Seq<char>, Seq<char>),
    digest: Seq<char>,
    expires: UtcInstant,
    kind2: OperationKind,
    connection_id2: Seq<char>,
    target2: Option<(Seq<char>, Seq<char>, Seq<char>)>,
    digest2: Seq<char>,
    now: UtcInstant,
)
    requires
        digest_ok(digest),
    ensures
        admits(
            m.insert(token, issued(kind, connection_id, target, digest, expires)),
            token,
            kind2,
            connection_id2,
            target2,
            digest2,
            now,
        ) <==> (!not_before(now, expires) && kind2 == kind && connection_id2 == connection_id && target2
            == Some(target) && digest2 == digest),
{
}

/// Verifying one token leaves every other pending confirmation as it was.
pub proof fn law_verification_leaves_other_confirmations(
    m: Map<Seq<char>, PendingView>,
    token: Seq<char>,
    digest: Seq<char>,
    other: Seq<char>,
)
    requires
        other != token,
    ensures
        after_verification(m, token, digest).contains_key(other) == m.contains_key(other),
        m.contains_key(other) ==> after_verification(m, token, digest)[other] == m[other],
{
}

fn validate_effect_digest(effect_digest: &str) -> (r: Result<(), AppError>)
    ensures
        r is Ok <==> digest_ok(effect_digest@),
        r matches Err(e) ==> e is InvalidConfig,
{
    let v = chars_of(effect_digest);
    let n = v.len();
    let mut i: usize = 0;
    while i < n
        invariant
            n == v@.len(),
            v@ == effect_digest@,
            i <= n,
            forall|j: int| 0 <= j < i ==> is_hex(#[trigger] v@[j]),
        decreases n - i,
    {
        if !char_is_hex(v[i]) {
            return Err(AppError::invalid("Destructive effect digest is invalid"));
        }
        i = i + 1;
    }
    if n < 16 || n > 128 {
        return Err(AppError::invalid("Destructive effect digest is invalid"));
    }
    Ok(())
}

fn clone_target(t: &TargetIdentity) -> (r: TargetIdentity)
    ensures
        target_view(r) == target_view(*t),
{
    TargetIdentity { resource_kind: t.resource_kind.clone(), id: t.id.clone(), name: t.name.clone() }
}

fn same_target(a: &TargetIdentity, b: &TargetIdentity) -> (r: bool)
    ensures
        r == (target_view(*a) == target_view(*b)),
{
    str_eq(a.resource_kind.as_str(), b.resource_kind.as_str()) && str_eq(a.id.as_str(), b.id.as_str())
        && str_eq(a.name.as_str(), b.name.as_str())
}

} // verus!
