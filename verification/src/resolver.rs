//! The redirect resolver: the create flow (validation, collision check,
//! idempotent persistence) and the resolve flow (cache-aside read with
//! storage fallback and backfill), with the side-effect fan-out — click
//! increment, cache expiry update, click-event publication — planned as
//! data so the response never waits on it.

use crate::cache::{expiry_at, CacheEntryModel, RedirectCache};
use crate::codec::{derived_code, hash_long_url, valid_alias, validate_alias};
use crate::event::{click_json, opt_view, ClickEvent, EventPublisher};
use crate::store::{UrlRecordModel, UrlStore};
use crate::text::{spec_trim, trim_str};
use crate::DEFAULT_TTL_SECONDS;
use vstd::pervasive::unreached;
use vstd::prelude::*;

verus! {

/// Why a create request was refused.
#[derive(Clone, Copy, PartialEq, Eq, Structural, Debug)]
pub enum CreateError {
    /// The long URL is empty after trimming, or the request is malformed.
    InvalidInput,
    /// The requested alias is too long or holds a forbidden character.
    InvalidAlias,
    /// The requested alias is already taken, or its availability could
    /// not be checked (fail-closed).
    Conflict,
    /// The store could not persist the record.
    StorageFailure,
}

/// What a resolution answers: a redirect to the destination, an unknown
/// code, or a storage failure on the critical path.
#[derive(Debug)]
pub enum ResolveResponse {
    Redirect(String),
    NotFound,
    InternalError,
}

/// What the cache answered on the fast path. A backend that does not
/// answer is its own case: the resolver decides what that means.
pub enum CacheLookup {
    Hit(String),
    MissingEntry,
    Unavailable,
}

/// What the store answered on the fallback path: the destination, a
/// clean absence, or a query failure.
pub enum StoreLookup {
    Found(String),
    Absent,
    Failed,
}

/// What the availability check for a requested alias answered.
pub enum AvailabilityCheck {
    Available,
    Taken,
    CheckFailed,
}

/// The cache write a resolution schedules after responding.
pub enum CacheWrite {
    NoWrite,
    /// Store the freshly looked-up destination with a full time-to-live.
    Backfill { short_url: String, long_url: String, ttl_seconds: u64 },
    /// Slide the expiry of the entry that just hit, leaving its value.
    ExtendTtl { short_url: String, ttl_seconds: u64 },
}

/// The background work a resolution schedules; none of it is on the
/// response's critical path.
pub struct SideEffects {
    pub increment_click: bool,
    pub cache_write: CacheWrite,
    pub publish_click: bool,
}

/// No background work at all.
pub open spec fn no_effects(e: SideEffects) -> bool {
    &&& !e.increment_click
    &&& e.cache_write == CacheWrite::NoWrite
    &&& !e.publish_click
}

/// One step of the resolve flow: answer now, or ask the store first.
pub enum ResolveStep {
    Respond(ResolveResponse, SideEffects),
    QueryStore,
}

/// Decides the resolve flow from the cache's answer. A hit redirects at
/// once and schedules the full fan-out; a miss — an empty cache and an
/// unavailable backend alike — falls back to the store.
pub fn on_cache_result(short_url: &str, cache: &CacheLookup) -> (step: ResolveStep)
    ensures
        match *cache {
            CacheLookup::Hit(u) => {
                &&& step matches ResolveStep::Respond(resp, eff)
                &&& resp matches ResolveResponse::Redirect(v) && v@ == u@
                &&& eff.increment_click
                &&& eff.cache_write matches CacheWrite::ExtendTtl { short_url: c, ttl_seconds: t }
                    && c@ == short_url@ && t == DEFAULT_TTL_SECONDS
                &&& eff.publish_click
            },
            CacheLookup::MissingEntry => step == ResolveStep::QueryStore,
            CacheLookup::Unavailable => step == ResolveStep::QueryStore,
        },
{
    match cache {
        CacheLookup::Hit(u) => ResolveStep::Respond(
            ResolveResponse::Redirect(u.clone()),
            SideEffects {
                increment_click: true,
                cache_write: CacheWrite::ExtendTtl {
                    short_url: short_url.to_owned(),
                    ttl_seconds: DEFAULT_TTL_SECONDS,
                },
                publish_click: true,
            },
        ),
        CacheLookup::MissingEntry => ResolveStep::QueryStore,
        CacheLookup::Unavailable => ResolveStep::QueryStore,
    }
}

/// Decides the resolve flow from the store's answer. A found record
/// redirects and schedules the fan-out with a cache backfill; a clean
/// absence is NotFound; a query failure is an internal error. Only the
/// found case does background work.
pub fn on_store_result(short_url: &str, store: &StoreLookup) -> (step: ResolveStep)
    ensures
        match *store {
            StoreLookup::Found(u) => {
                &&& step matches ResolveStep::Respond(resp, eff)
                &&& resp matches ResolveResponse::Redirect(v) && v@ == u@
                &&& eff.increment_click
                &&& eff.cache_write matches CacheWrite::Backfill {
                    short_url: c,
                    long_url: v2,
                    ttl_seconds: t,
                } && c@ == short_url@ && v2@ == u@ && t == DEFAULT_TTL_SECONDS
                &&& eff.publish_click
            },
            StoreLookup::Absent => {
                &&& step matches ResolveStep::Respond(resp, eff)
                &&& resp == ResolveResponse::NotFound
                &&& no_effects(eff)
            },
            StoreLookup::Failed => {
                &&& step matches ResolveStep::Respond(resp, eff)
                &&& resp == ResolveResponse::InternalError
                &&& no_effects(eff)
            },
        },
{
    match store {
        StoreLookup::Found(u) => ResolveStep::Respond(
            ResolveResponse::Redirect(u.clone()),
            SideEffects {
                increment_click: true,
                cache_write: CacheWrite::Backfill {
                    short_url: short_url.to_owned(),
                    long_url: u.clone(),
                    ttl_seconds: DEFAULT_TTL_SECONDS,
                },
                publish_click: true,
            },
        ),
        StoreLookup::Absent => ResolveStep::Respond(
            ResolveResponse::NotFound,
            SideEffects {
                increment_click: false,
                cache_write: CacheWrite::NoWrite,
                publish_click: false,
            },
        ),
        StoreLookup::Failed => ResolveStep::Respond(
            ResolveResponse::InternalError,
            SideEffects {
                increment_click: false,
                cache_write: CacheWrite::NoWrite,
                publish_click: false,
            },
        ),
    }
}

/// Decides the create flow for a requested alias from the availability
/// check: only a positive answer may insert — a failed check reads as
/// taken (fail-closed), so an existing alias is never overwritten.
pub fn decide_alias_availability(check: &AvailabilityCheck) -> (r: Result<(), CreateError>)
    ensures
        match r {
            Ok(u) => *check == AvailabilityCheck::Available,
            Err(e) => e == CreateError::Conflict && *check != AvailabilityCheck::Available,
        },
{
    match check {
        AvailabilityCheck::Available => Ok(()),
        AvailabilityCheck::Taken => Err(CreateError::Conflict),
        AvailabilityCheck::CheckFailed => Err(CreateError::Conflict),
    }
}

/// How a create request is handled once its inputs are looked at.
pub enum CreatePlan {
    /// Refused outright, before any storage work.
    Rejected(CreateError),
    /// No alias requested: persist the derived code, idempotently and
    /// with no availability check.
    InsertGenerated { long_url: String, short_url: String },
    /// An alias requested: check availability, then persist.
    InsertAliased { long_url: String, short_url: String },
}

/// Plans a create request. An invalid alias is refused first, then an
/// (after trimming) empty long URL; with no alias the code is derived
/// from the trimmed URL, otherwise the alias itself is the code.
pub fn plan_create(long_url: &str, custom_alias: &str) -> (p: CreatePlan)
    ensures
        (if custom_alias@.len() > 0 && !valid_alias(custom_alias@) {
            p == CreatePlan::Rejected(CreateError::InvalidAlias)
        } else if spec_trim(long_url@).len() == 0 {
            p == CreatePlan::Rejected(CreateError::InvalidInput)
        } else if custom_alias@.len() == 0 {
            p matches CreatePlan::InsertGenerated { long_url: u, short_url: c } && u@ == spec_trim(
                long_url@,
            ) && c@ == derived_code(spec_trim(long_url@))
        } else {
            p matches CreatePlan::InsertAliased { long_url: u, short_url: c } && u@ == spec_trim(
                long_url@,
            ) && c@ == custom_alias@
        }),
{
    if !custom_alias.is_empty() && !validate_alias(custom_alias) {
        return CreatePlan::Rejected(CreateError::InvalidAlias);
    }
    let trimmed = trim_str(long_url);
    if trimmed.as_str().is_empty() {
        return CreatePlan::Rejected(CreateError::InvalidInput);
    }
    if custom_alias.is_empty() {
        let code = hash_long_url(trimmed.as_str());
        CreatePlan::InsertGenerated { long_url: trimmed, short_url: code }
    } else {
        CreatePlan::InsertAliased { long_url: trimmed, short_url: custom_alias.to_owned() }
    }
}

/// The answer the create flow owes for these inputs against this store.
pub open spec fn create_outcome(
    store: Map<Seq<char>, UrlRecordModel>,
    url: Seq<char>,
    alias: Seq<char>,
) -> Result<Seq<char>, CreateError> {
    if alias.len() > 0 && !valid_alias(alias) {
        Err(CreateError::InvalidAlias)
    } else if spec_trim(url).len() == 0 {
        Err(CreateError::InvalidInput)
    } else if alias.len() == 0 {
        Ok(derived_code(spec_trim(url)))
    } else if store.contains_key(alias) {
        Err(CreateError::Conflict)
    } else {
        Ok(alias)
    }
}

/// The store the create flow leaves behind: unchanged on any refusal or
/// on a duplicate generated code, else extended by one fresh record.
pub open spec fn create_post_store(
    store: Map<Seq<char>, UrlRecordModel>,
    url: Seq<char>,
    alias: Seq<char>,
    now: u64,
) -> Map<Seq<char>, UrlRecordModel> {
    if alias.len() > 0 && !valid_alias(alias) {
        store
    } else if spec_trim(url).len() == 0 {
        store
    } else if alias.len() == 0 {
        if store.contains_key(derived_code(spec_trim(url))) {
            store
        } else {
            store.insert(
                derived_code(spec_trim(url)),
                UrlRecordModel { long_url: spec_trim(url), click_count: 0, created_at: now },
            )
        }
    } else if store.contains_key(alias) {
        store
    } else {
        store.insert(
            alias,
            UrlRecordModel { long_url: spec_trim(url), click_count: 0, created_at: now },
        )
    }
}

/// The destination a resolution must redirect to, when the code is known.
pub open spec fn resolve_target(store: Map<Seq<char>, UrlRecordModel>, code: Seq<char>) -> Option<
    Seq<char>,
> {
    if store.contains_key(code) {
        Some(store[code].long_url)
    } else {
        None
    }
}

/// The store a resolution leaves behind: the click counter of a known
/// code counts one more (saturating), nothing else moves.
pub open spec fn resolve_post_store(
    store: Map<Seq<char>, UrlRecordModel>,
    code: Seq<char>,
) -> Map<Seq<char>, UrlRecordModel> {
    if store.contains_key(code) {
        store.insert(
            code,
            UrlRecordModel {
                long_url: store[code].long_url,
                click_count: if store[code].click_count < u64::MAX {
                    (store[code].click_count + 1) as u64
                } else {
                    store[code].click_count
                },
                created_at: store[code].created_at,
            },
        )
    } else {
        store
    }
}

/// The cache a resolution leaves behind: a successful resolution of a
/// known code leaves a fresh entry for it — the backfill after a miss,
/// the slid expiry after a hit — when the backend answers at all.
pub open spec fn resolve_post_cache(
    cache: Map<Seq<char>, CacheEntryModel>,
    available: bool,
    store: Map<Seq<char>, UrlRecordModel>,
    code: Seq<char>,
    now: u64,
) -> Map<Seq<char>, CacheEntryModel> {
    if store.contains_key(code) && available {
        cache.insert(
            code,
            CacheEntryModel {
                long_url: store[code].long_url,
                expires_at: expiry_at(now, DEFAULT_TTL_SECONDS),
            },
        )
    } else {
        cache
    }
}

/// The resolver: the store, its cache, and the click publisher, with the
/// coherence that makes the cache disposable — every entry mirrors the
/// store's destination for its code, so a hit answers what the store
/// would have answered.
pub struct Resolver {
    pub store: UrlStore,
    pub cache: RedirectCache,
    pub publisher: EventPublisher,
}

impl Resolver {
    /// Components well-formed and the cache coherent with the store.
    pub open spec fn wf(&self) -> bool {
        &&& self.store.wf()
        &&& self.cache.wf()
        &&& forall|c: Seq<char>|
            #[trigger] self.cache@.contains_key(c) ==> self.store@.contains_key(c)
                && self.cache@[c].long_url == self.store@[c].long_url
    }

    /// A fresh resolver over empty components.
    pub fn new() -> (r: Resolver)
        ensures
            r.wf(),
            r.store@ == Map::<Seq<char>, UrlRecordModel>::empty(),
            r.cache@ == Map::<Seq<char>, CacheEntryModel>::empty(),
            r.cache.is_available(),
            r.publisher.log() == Seq::<(Seq<char>, Seq<char>)>::empty(),
    {
        Resolver { store: UrlStore::new(), cache: RedirectCache::new(), publisher: EventPublisher::new() }
    }

    /// The create flow: plan, check a requested alias's availability
    /// fail-closed, persist idempotently, and answer with the short code.
    /// The cache is left cold — the first resolution of a fresh code pays
    /// one storage lookup and backfills it.
    pub fn create(&mut self, long_url: &str, custom_alias: &str, now: u64) -> (r: Result<
        String,
        CreateError,
    >)
        requires
            old(self).wf(),
        ensures
            final(self).wf(),
            final(self).cache@ == old(self).cache@,
            final(self).cache.is_available() == old(self).cache.is_available(),
            final(self).publisher.log() == old(self).publisher.log(),
            final(self).store@ == create_post_store(old(self).store@, long_url@, custom_alias@, now),
            (match r {
                Ok(code) => create_outcome(old(self).store@, long_url@, custom_alias@) == Ok::<
                    Seq<char>,
                    CreateError,
                >(code@),
                Err(e) => create_outcome(old(self).store@, long_url@, custom_alias@) == Err::<
                    Seq<char>,
                    CreateError,
                >(e),
            }),
    {
        let plan = plan_create(long_url, custom_alias);
        match plan {
            CreatePlan::Rejected(e) => Err(e),
            CreatePlan::InsertGenerated { long_url: url, short_url: code } => {
                self.store.insert(url.as_str(), code.as_str(), now);
                Ok(code)
            },
            CreatePlan::InsertAliased { long_url: url, short_url: alias } => {
                let check = if self.store.is_alias_available(alias.as_str()) {
                    AvailabilityCheck::Available
                } else {
                    AvailabilityCheck::Taken
                };
                match decide_alias_availability(&check) {
                    Ok(()) => {
                        self.store.insert(url.as_str(), alias.as_str(), now);
                        Ok(alias)
                    },
                    Err(e) => Err(e),
                }
            },
        }
    }

    /// The resolve flow: consult the cache, fall back to the store on any
    /// miss, respond, and apply the planned fan-out — increment the click
    /// counter, leave a fresh cache entry, publish the click event. The
    /// answer depends on the store alone; the cache, available or not,
    /// only decides which path finds it.
    pub fn resolve(
        &mut self,
        short_url: &str,
        ip_address: Option<String>,
        user_agent: Option<String>,
        referer: Option<String>,
        now: u64,
    ) -> (r: ResolveResponse)
        requires
            old(self).wf(),
        ensures
            final(self).wf(),
            final(self).cache.is_available() == old(self).cache.is_available(),
            (match r {
                ResolveResponse::Redirect(u) => resolve_target(old(self).store@, short_url@)
                    == Some(u@),
                ResolveResponse::NotFound => resolve_target(old(self).store@, short_url@) is None,
                ResolveResponse::InternalError => false,
            }),
            final(self).store@ == resolve_post_store(old(self).store@, short_url@),
            final(self).cache@ == resolve_post_cache(
                old(self).cache@,
                old(self).cache.is_available(),
                old(self).store@,
                short_url@,
                now,
            ),
            final(self).publisher.log() == (if old(self).store@.contains_key(short_url@) {
                old(self).publisher.log().push(
                    (
                        short_url@,
                        click_json(
                            short_url@,
                            opt_view(ip_address),
                            opt_view(user_agent),
                            opt_view(referer),
                        ),
                    ),
                )
            } else {
                old(self).publisher.log()
            }),
    {
        let cache_result = match self.cache.get(short_url, now) {
            Some(u) => CacheLookup::Hit(u),
            None => CacheLookup::MissingEntry,
        };
        let step = on_cache_result(short_url, &cache_result);
        let (response, effects) = match step {
            ResolveStep::Respond(resp, eff) => (resp, eff),
            ResolveStep::QueryStore => {
                let store_result = match self.store.lookup(short_url) {
                    Some(u) => StoreLookup::Found(u),
                    None => StoreLookup::Absent,
                };
                match on_store_result(short_url, &store_result) {
                    ResolveStep::Respond(resp, eff) => (resp, eff),
                    ResolveStep::QueryStore => unreached(),
                }
            },
        };
        if effects.increment_click {
            self.store.increment_click_count(short_url);
        }
        match &effects.cache_write {
            CacheWrite::NoWrite => {},
            CacheWrite::Backfill { short_url: c, long_url: u, ttl_seconds: t } => {
                self.cache.set_with_expiry(c.as_str(), u.as_str(), *t, now);
            },
            CacheWrite::ExtendTtl { short_url: c, ttl_seconds: t } => {
                self.cache.refresh_expiry(c.as_str(), *t, now);
            },
        }
        if effects.publish_click {
            let event = ClickEvent {
                short_url: short_url.to_owned(),
                ip_address,
                user_agent,
                referer,
            };
            self.publisher.publish(&event);
        }
        response
    }
}

impl CreateError {
    /// The HTTP status the create flow answers with for this error.
    pub fn status_code(&self) -> (c: u16)
        ensures
            c == (match *self {
                CreateError::InvalidInput => 400int,
                CreateError::InvalidAlias => 400int,
                CreateError::Conflict => 409int,
                CreateError::StorageFailure => 500int,
            }),
    {
        match self {
            CreateError::InvalidInput => 400,
            CreateError::InvalidAlias => 400,
            CreateError::Conflict => 409,
            CreateError::StorageFailure => 500,
        }
    }

    /// The response body the create flow answers with for this error.
    pub fn message(&self) -> (m: String)
        ensures
            m@ == (match *self {
                CreateError::InvalidInput => "Invalid input"@,
                CreateError::InvalidAlias => "Invalid alias"@,
                CreateError::Conflict => "Alias already exists"@,
                CreateError::StorageFailure => "Internal Server Error"@,
            }),
    {
        match self {
            CreateError::InvalidInput => "Invalid input".to_owned(),
            CreateError::InvalidAlias => "Invalid alias".to_owned(),
            CreateError::Conflict => "Alias already exists".to_owned(),
            CreateError::StorageFailure => "Internal Server Error".to_owned(),
        }
    }
}

impl ResolveResponse {
    /// The HTTP status of this resolution outcome.
    pub fn status_code(&self) -> (c: u16)
        ensures
            c == (match *self {
                ResolveResponse::Redirect(_) => 302int,
                ResolveResponse::NotFound => 404int,
                ResolveResponse::InternalError => 500int,
            }),
    {
        match self {
            ResolveResponse::Redirect(_) => 302,
            ResolveResponse::NotFound => 404,
            ResolveResponse::InternalError => 500,
        }
    }
}

/// Law: code derivation is deterministic — submitting the same long URL
/// with no alias answers the same code whatever the store holds, so a
/// second submission neither errors nor answers a different code.
pub proof fn lemma_generated_create_deterministic(
    store1: Map<Seq<char>, UrlRecordModel>,
    store2: Map<Seq<char>, UrlRecordModel>,
    url: Seq<char>,
)
    requires
        spec_trim(url).len() > 0,
    ensures
        create_outcome(store1, url, Seq::<char>::empty()) == create_outcome(
            store2,
            url,
            Seq::<char>::empty(),
        ),
        create_outcome(store2, url, Seq::<char>::empty()) == Ok::<Seq<char>, CreateError>(
            derived_code(spec_trim(url)),
        ),
{
}

/// Law: an alias is created at most once — after a create with a valid
/// alias succeeds, a second create with the same alias meets `Conflict`,
/// whatever long URL it brings.
pub proof fn lemma_alias_created_once(
    store: Map<Seq<char>, UrlRecordModel>,
    url1: Seq<char>,
    url2: Seq<char>,
    alias: Seq<char>,
    now: u64,
)
    requires
        create_outcome(store, url1, alias) == Ok::<Seq<char>, CreateError>(alias),
        alias.len() > 0,
        spec_trim(url2).len() > 0,
    ensures
        create_outcome(create_post_store(store, url1, alias, now), url2, alias) == Err::<
            Seq<char>,
            CreateError,
        >(CreateError::Conflict),
{
}

/// Law: a cache outage is invisible in the answer. The redirect target a
/// resolution owes and the store it leaves behind are functions of the
/// store alone — `resolve` promises `resolve_target(store, code)` and
/// `resolve_post_store(store, code)` whatever the cache held or answered
/// — and a backend that does not answer is also left unwritten.
pub proof fn lemma_resolve_survives_cache_outage(
    store: Map<Seq<char>, UrlRecordModel>,
    cache: Map<Seq<char>, CacheEntryModel>,
    code: Seq<char>,
    now: u64,
)
    ensures
        resolve_post_cache(cache, false, store, code, now) == cache,
{
}

/// Law: resolution is idempotent for the client — it never removes or
/// rewrites a mapping, and the click counter of the resolved code never
/// decreases, so resolving a code again redirects to the same stored URL.
pub proof fn lemma_resolve_idempotent(store: Map<Seq<char>, UrlRecordModel>, code: Seq<char>)
    ensures
        forall|c: Seq<char>| #[trigger]
            resolve_post_store(store, code).contains_key(c) == store.contains_key(c),
        forall|c: Seq<char>| #[trigger]
            store.contains_key(c) ==> resolve_post_store(store, code)[c].long_url
                == store[c].long_url,
        store.contains_key(code) ==> resolve_post_store(store, code)[code].click_count
            >= store[code].click_count,
        resolve_target(resolve_post_store(store, code), code) == resolve_target(store, code),
{
}

} // verus!
