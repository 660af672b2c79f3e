//! Recent decisions of the platform's proxy discovery.
use vstd::prelude::*;
use vstd::utf8::encode_utf8;
use vstd::utf8::encode_utf8_decode_utf8;
use super::route::RouteFailureClass;
use crate::outside::web::lower_hex_digit;
use crate::outside::web::sha256_hex;
use crate::outside::web::sha256_hex_text;
use crate::text::chars::chars_of;
use crate::text::chars::push_text;
use crate::text::chars::string_of;
use crate::text::search::contains;
use crate::text::search::occurs_at;
use crate::text::search::starts_with;
use crate::text_map::TextMap;

verus! {

/// For how many nanoseconds a decision is kept: one minute.
pub const SYSTEM_PROXY_SUCCESS_CACHE_TTL_NS: u64 = 60_000_000_000;

/// What the platform's proxy discovery decided.
#[derive(Debug, Clone, PartialEq, Eq)]
pub enum SystemProxyDecision {
    /// Connect without a proxy.
    Direct,
    /// Connect through this proxy.
    Proxy {
        /// The address of the proxy.
        url: String,
    },
    /// Discovery came to no decision.
    Unavailable {
        /// The reason.
        failure: RouteFailureClass,
    },
}

/// A decision over the characters of the address.
pub enum SystemDecision {
    /// Connect without a proxy.
    Direct,
    /// Connect through this proxy.
    Proxy(Seq<char>),
    /// Discovery came to no decision.
    Unavailable(RouteFailureClass),
}

impl View for SystemProxyDecision {
    type V = SystemDecision;

    open spec fn view(&self) -> SystemDecision {
        match *self {
            SystemProxyDecision::Direct => SystemDecision::Direct,
            SystemProxyDecision::Proxy { url } => SystemDecision::Proxy(url@),
            SystemProxyDecision::Unavailable { failure } => SystemDecision::Unavailable(failure),
        }
    }
}

impl SystemProxyDecision {
    /// A copy of the decision.
    pub fn duplicate(&self) -> (r: Self)
        ensures
            r@ == self@,
    {
        match self {
            SystemProxyDecision::Direct => SystemProxyDecision::Direct,
            SystemProxyDecision::Proxy { url } => SystemProxyDecision::Proxy { url: url.clone() },
            SystemProxyDecision::Unavailable { failure } => SystemProxyDecision::Unavailable {
                failure: *failure,
            },
        }
    }
}

/// How the keys of the cache are written.
#[derive(Debug, Clone, Copy, PartialEq, Eq, Structural)]
pub enum CacheKeyStyle {
    /// As the address itself.
    Plain,
    /// As a digest, so that no routed address is retained.
    Hashed,
}

/// The text of a truth value.
pub open spec fn bool_text(b: bool) -> Seq<char> {
    if b {
        "true"@
    } else {
        "false"@
    }
}

/// The bytes whose digest is the key.
pub open spec fn key_material(request_url: Seq<char>, include_auto_detect: bool) -> Seq<u8> {
    encode_utf8("system-proxy-cache-v1"@) + seq![0u8] + encode_utf8(request_url) + seq![
        0u8,
        if include_auto_detect {
            1u8
        } else {
            0u8
        },
    ]
}

/// The key of a request.
pub open spec fn cache_key(
    style: CacheKeyStyle,
    request_url: Seq<char>,
    include_auto_detect: bool,
) -> Seq<char> {
    match style {
        CacheKeyStyle::Plain => request_url + ":auto_detect="@ + bool_text(include_auto_detect),
        CacheKeyStyle::Hashed => sha256_hex_text(key_material(request_url, include_auto_detect)),
    }
}

/// The key of a request.
pub fn system_proxy_cache_key(style: CacheKeyStyle, request_url: &str, include_auto_detect: bool) -> (r:
    String)
    ensures
        r@ == cache_key(style, request_url@, include_auto_detect),
        style == CacheKeyStyle::Hashed ==> is_digest(r@),
{
    match style {
        CacheKeyStyle::Plain => {
            let mut key = chars_of(request_url);
            push_text(&mut key, ":auto_detect=");
            push_text(
                &mut key,
                if include_auto_detect {
                    "true"
                } else {
                    "false"
                },
            );
            string_of(&key)
        },
        CacheKeyStyle::Hashed => {
            let mut bytes: Vec<u8> = Vec::new();
            bytes.extend_from_slice("system-proxy-cache-v1".as_bytes());
            bytes.push(0);
            bytes.extend_from_slice(request_url.as_bytes());
            bytes.push(0);
            bytes.push(
                if include_auto_detect {
                    1
                } else {
                    0
                },
            );
            assert(bytes@ == key_material(request_url@, include_auto_detect));
            sha256_hex(&bytes)
        },
    }
}

/// Whether a text is a digest in lower-case hexadecimal.
pub open spec fn is_digest(key: Seq<char>) -> bool {
    key.len() == 64 && forall|i: int| 0 <= i < key.len() ==> lower_hex_digit(#[trigger] key[i])
}

/// A decision with the time up to which it holds.
pub struct CachedSystemProxyDecision {
    /// The decision.
    pub decision: SystemProxyDecision,
    /// The time from which it no longer holds, in nanoseconds.
    pub expires_at: u64,
}

/// The kept decisions and their times, by key.
pub type CacheModel = Map<Seq<char>, CachedSystemProxyDecision>;

/// The decision that holds for a key at a time.
pub open spec fn lookup(m: CacheModel, key: Seq<char>, now: u64) -> Option<SystemDecision> {
    if m.contains_key(key) && m[key].expires_at > now {
        Some(m[key].decision@)
    } else {
        None
    }
}

/// The decisions that still hold at a time.
pub open spec fn unexpired(m: CacheModel, now: u64) -> CacheModel {
    Map::new(|k: Seq<char>| m.contains_key(k) && m[k].expires_at > now, |k: Seq<char>| m[k])
}

/// Recent decisions.
pub struct SystemProxyCache {
    style: CacheKeyStyle,
    entries: TextMap<CachedSystemProxyDecision>,
}

impl View for SystemProxyCache {
    type V = CacheModel;

    closed spec fn view(&self) -> CacheModel {
        self.entries@
    }
}

impl SystemProxyCache {
    /// How the keys are written.
    pub closed spec fn key_style(self) -> CacheKeyStyle {
        self.style
    }

    /// The entries are in order.
    pub closed spec fn wf(self) -> bool {
        self.entries.wf()
    }

    /// An empty cache.
    pub fn new(style: CacheKeyStyle) -> (r: Self)
        ensures
            r.wf(),
            r.key_style() == style,
            r@ == Map::<Seq<char>, CachedSystemProxyDecision>::empty(),
    {
        SystemProxyCache { style, entries: TextMap::new() }
    }

    /// The decision that holds for a request at a time. One that no longer holds
    /// is dropped.
    pub fn cached_system_proxy_decision(
        &mut self,
        request_url: &str,
        include_auto_detect: bool,
        now: u64,
    ) -> (r: Option<SystemProxyDecision>)
        requires
            old(self).wf(),
        ensures
            final(self).wf(),
            final(self).key_style() == old(self).key_style(),
            ({
                let key = cache_key(old(self).key_style(), request_url@, include_auto_detect);
                &&& match r {
                    Some(decision) => lookup(old(self)@, key, now) == Some(decision@),
                    None => lookup(old(self)@, key, now) is None,
                }
                &&& final(self)@ == if r is Some {
                    old(self)@
                } else {
                    old(self)@.remove(key)
                }
            }),
    {
        let key = system_proxy_cache_key(self.style, request_url, include_auto_detect);
        if let Some(cached) = self.entries.get(key.as_str()) {
            if cached.expires_at > now {
                return Some(cached.decision.duplicate());
            }
        }
        let _ = self.entries.remove(key.as_str());
        None
    }

    /// Keeps a decision for a request from the given time on. A failure to decide
    /// is not kept; keeping a decision drops those that no longer hold.
    pub fn cache_system_proxy_decision(
        &mut self,
        request_url: &str,
        include_auto_detect: bool,
        decision: SystemProxyDecision,
        now: u64,
    )
        requires
            old(self).wf(),
            now + SYSTEM_PROXY_SUCCESS_CACHE_TTL_NS <= u64::MAX,
        ensures
            final(self).wf(),
            final(self).key_style() == old(self).key_style(),
            final(self)@ == after_keeping(
                old(self)@,
                cache_key(old(self).key_style(), request_url@, include_auto_detect),
                decision,
                now,
            ),
    {
        if let SystemProxyDecision::Unavailable { .. } = decision {
            return;
        }
        self.drop_expired(now);
        let key = system_proxy_cache_key(self.style, request_url, include_auto_detect);
        self.entries.insert(
            key,
            CachedSystemProxyDecision {
                decision,
                expires_at: now + SYSTEM_PROXY_SUCCESS_CACHE_TTL_NS,
            },
        );
    }

    /// Drops the decisions that no longer hold.
    fn drop_expired(&mut self, now: u64)
        requires
            old(self).wf(),
        ensures
            final(self).wf(),
            final(self).style == old(self).style,
            final(self)@ == unexpired(old(self)@, now),
    {
        let keys = self.entries.keys();
        let ghost before = self.entries;
        let mut i: usize = 0;
        proof {
            before.lemma_pairs();
            before.lemma_keys(keys.deep_view());
        }
        while i < keys.len()
            invariant
                self.wf(),
                self.style == old(self).style,
                before@ == old(self)@,
                i <= keys@.len(),
                keys.deep_view().to_set() == before@.dom(),
                keys.deep_view().no_duplicates(),
                forall|k: Seq<char>| #[trigger]
                    self@.contains_key(k) ==> before@.contains_key(k) && self@[k] == before@[k],
                forall|k: Seq<char>| #[trigger]
                    before@.contains_key(k) && before@[k].expires_at > now
                        ==> self@.contains_key(k),
                forall|j: int|
                    0 <= j < i ==> (self@.contains_key(#[trigger] keys.deep_view()[j])
                        ==> before@[keys.deep_view()[j]].expires_at > now),
            decreases keys@.len() - i,
        {
            let key = keys[i].as_str();
            let ghost here = self@;
            assert(keys.deep_view()[i as int] == key@);
            let expired = match self.entries.get(key) {
                Some(cached) => cached.expires_at <= now,
                None => false,
            };
            if expired {
                let _ = self.entries.remove(key);
            }
            assert(forall|k: Seq<char>| #[trigger]
                self@.contains_key(k) ==> here.contains_key(k) && self@[k] == here[k]);
            i += 1;
        }
        proof {
            assert forall|k: Seq<char>| #[trigger]
                self@.contains_key(k) implies before@[k].expires_at > now by {
                assert(before@.contains_key(k));
                assert(keys.deep_view().to_set().contains(k));
                let j = choose|j: int|
                    0 <= j < keys.deep_view().len() && keys.deep_view()[j] == k;
                assert(self@.contains_key(keys.deep_view()[j]));
            }
            assert(self@ =~= unexpired(before@, now));
        }
    }
}

/// The cache after a decision was handed to it.
pub open spec fn after_keeping(
    m: CacheModel,
    key: Seq<char>,
    decision: SystemProxyDecision,
    now: u64,
) -> CacheModel {
    if decision is Unavailable {
        m
    } else {
        unexpired(m, now).insert(
            key,
            CachedSystemProxyDecision {
                decision,
                expires_at: (now + SYSTEM_PROXY_SUCCESS_CACHE_TTL_NS) as u64,
            },
        )
    }
}

/// A decision that was kept is found again for its request until its time is
/// over, and not from then on.
pub proof fn law_kept_decision_is_found_until_it_expires(
    m: CacheModel,
    key: Seq<char>,
    decision: SystemProxyDecision,
    now: u64,
    later: u64,
)
    requires
        decision !is Unavailable,
        now + SYSTEM_PROXY_SUCCESS_CACHE_TTL_NS <= u64::MAX,
    ensures
        later < now + SYSTEM_PROXY_SUCCESS_CACHE_TTL_NS ==> lookup(
            after_keeping(m, key, decision, now),
            key,
            later,
        ) == Some(decision@),
        later >= now + SYSTEM_PROXY_SUCCESS_CACHE_TTL_NS ==> lookup(
            after_keeping(m, key, decision, now),
            key,
            later,
        ) is None,
{
}

/// Keeping a decision changes no answer for another request.
pub proof fn law_keeping_leaves_other_requests_alone(
    m: CacheModel,
    key: Seq<char>,
    other: Seq<char>,
    decision: SystemProxyDecision,
    now: u64,
    later: u64,
)
    requires
        key != other,
        now <= later,
    ensures
        lookup(after_keeping(m, key, decision, now), other, later) == lookup(m, other, later),
{
}

/// A failure to decide is never found in the cache, if none was there before.
pub proof fn law_failures_are_not_kept(
    m: CacheModel,
    key: Seq<char>,
    other: Seq<char>,
    decision: SystemProxyDecision,
    now: u64,
    later: u64,
)
    requires
        forall|k: Seq<char>, t: u64| !(#[trigger] lookup(m, k, t) matches Some(d) && d is Unavailable),
    ensures
        !(lookup(after_keeping(m, key, decision, now), other, later) matches Some(d)
            && d is Unavailable),
{
    assert(!(lookup(m, other, later) matches Some(d) && d is Unavailable));
}

/// Plain keys of different requests are different, so that a decision for one
/// address is never given out for another.
pub proof fn law_plain_keys_are_distinct(a: Seq<char>, b: Seq<char>, auto_a: bool, auto_b: bool)
    requires
        cache_key(CacheKeyStyle::Plain, a, auto_a) == cache_key(CacheKeyStyle::Plain, b, auto_b),
    ensures
        a == b,
        auto_a == auto_b,
{
    reveal_strlit("true");
    reveal_strlit("false");
    reveal_strlit(":auto_detect=");
    let ka = cache_key(CacheKeyStyle::Plain, a, auto_a);
    let kb = cache_key(CacheKeyStyle::Plain, b, auto_b);
    let n = ka.len() as int;
    assert(ka[n - 2] == if auto_a {
        'u'
    } else {
        's'
    });
    assert(kb[n - 2] == if auto_b {
        'u'
    } else {
        's'
    });
    assert(a == ka.take(a.len() as int));
    assert(b == kb.take(b.len() as int));
}

/// The bytes whose digests are the keys of different requests are different.
pub proof fn law_hashed_material_is_distinct(
    a: Seq<char>,
    b: Seq<char>,
    auto_a: bool,
    auto_b: bool,
)
    requires
        key_material(a, auto_a) == key_material(b, auto_b),
    ensures
        a == b,
        auto_a == auto_b,
{
    let head = encode_utf8("system-proxy-cache-v1"@) + seq![0u8];
    let (ea, eb) = (encode_utf8(a), encode_utf8(b));
    let (ma, mb) = (key_material(a, auto_a), key_material(b, auto_b));
    let from = head.len() as int;
    assert(ma.len() == from + ea.len() + 2 && mb.len() == from + eb.len() + 2);
    assert(ma.last() == (if auto_a {
        1u8
    } else {
        0u8
    }));
    assert(mb.last() == (if auto_b {
        1u8
    } else {
        0u8
    }));
    assert(ma.subrange(from, from + ea.len()) =~= ea);
    assert(mb.subrange(from, from + eb.len()) =~= eb);
    encode_utf8_decode_utf8(a);
    encode_utf8_decode_utf8(b);
}

/// A digest does not contain an address, which has a character that no digest has.
pub proof fn law_digest_does_not_hold_the_address(key: Seq<char>, request_url: Seq<char>)
    requires
        is_digest(key),
        request_url.contains(':'),
    ensures
        !contains(key, request_url),
{
    if contains(key, request_url) {
        let i = choose|i: int| occurs_at(key, request_url, i);
        let j = choose|j: int| 0 <= j < request_url.len() && request_url[j] == ':';
        assert(key.subrange(i, i + request_url.len())[j] == key[i + j]);
        assert(lower_hex_digit(key[i + j]));
    }
}

/// A decision holds for one minute, and keeping one drops all those of which the
/// time is over.
pub proof fn law_decisions_hold_for_one_minute(
    m: CacheModel,
    key: Seq<char>,
    other: Seq<char>,
    decision: SystemProxyDecision,
    now: u64,
    later: u64,
)
    requires
        decision !is Unavailable,
        now + 60_000_000_000 <= u64::MAX,
    ensures
        lookup(after_keeping(m, key, decision, now), key, later) == (if later < now
            + 60_000_000_000 {
            Some(decision@)
        } else {
            None
        }),
        after_keeping(m, key, decision, now).contains_key(other) ==> after_keeping(
            m,
            key,
            decision,
            now,
        )[other].expires_at > now,
        other != key && m.contains_key(other) && m[other].expires_at > now ==> after_keeping(
            m,
            key,
            decision,
            now,
        ).contains_key(other),
{
}

/// A failure to decide leaves the cache as it is.
pub proof fn law_failure_leaves_the_cache_alone(
    m: CacheModel,
    key: Seq<char>,
    decision: SystemProxyDecision,
    now: u64,
)
    requires
        decision is Unavailable,
    ensures
        after_keeping(m, key, decision, now) == m,
{
}

/// A plain key begins with the address that it is for.
pub proof fn law_plain_key_begins_with_the_address(url: Seq<char>, auto_detect: bool)
    ensures
        starts_with(cache_key(CacheKeyStyle::Plain, url, auto_detect), url),
        cache_key(CacheKeyStyle::Plain, url, true) == url + ":auto_detect=true"@,
        cache_key(CacheKeyStyle::Plain, url, false) == url + ":auto_detect=false"@,
{
    reveal_strlit("true");
    reveal_strlit("false");
    reveal_strlit(":auto_detect=");
    reveal_strlit(":auto_detect=true");
    reveal_strlit(":auto_detect=false");
    assert(cache_key(CacheKeyStyle::Plain, url, auto_detect).take(url.len() as int) =~= url);
    assert(cache_key(CacheKeyStyle::Plain, url, true) =~= url + ":auto_detect=true"@);
    assert(cache_key(CacheKeyStyle::Plain, url, false) =~= url + ":auto_detect=false"@);
}

} // verus!
