//! The cache and its token blacklist: which key holds a blacklisted token and
//! which commands write and read it.
use vstd::prelude::*;

verus! {

/// A cache command, as the cache repository sends it.
#[derive(Clone, Debug)]
pub enum CacheCommand {
    /// Store `value` under `key`, to expire after `ttl_secs` seconds.
    SetEx { key: String, value: String, ttl_secs: u64 },
    /// Whether `key` is present.
    Exists { key: String },
}

/// The contents of a [`CacheCommand`].
pub enum CacheCommandView {
    SetEx { key: Seq<char>, value: Seq<char>, ttl_secs: u64 },
    Exists { key: Seq<char> },
}

impl View for CacheCommand {
    type V = CacheCommandView;

    open spec fn view(&self) -> CacheCommandView {
        match self {
            CacheCommand::SetEx { key, value, ttl_secs } => CacheCommandView::SetEx {
                key: key@,
                value: value@,
                ttl_secs: *ttl_secs,
            },
            CacheCommand::Exists { key } => CacheCommandView::Exists { key: key@ },
        }
    }
}

/// Prefix of the keys that hold blacklisted tokens.
pub const TOKEN_BLACKLIST_PREFIX: &'static str = "auth:blacklist:";

/// Value stored under a blacklisted token's key.
pub const BLACKLIST_MARK: &'static str = "1";

/// The key that holds `token` on the blacklist.
pub open spec fn blacklist_key(token: Seq<char>) -> Seq<char> {
    TOKEN_BLACKLIST_PREFIX@ + token
}

/// A cache entry: its value and the instant, in seconds, at which it expires.
pub struct CacheEntry {
    pub value: Seq<char>,
    pub expires_at: int,
}

/// The cache after `cmd` runs at instant `now` (in seconds): `SetEx` stores
/// the value to expire `ttl_secs` seconds later, `Exists` changes nothing.
pub open spec fn apply_command_at(
    store: Map<Seq<char>, CacheEntry>,
    cmd: CacheCommandView,
    now: int,
) -> Map<Seq<char>, CacheEntry> {
    match cmd {
        CacheCommandView::SetEx { key, value, ttl_secs } => store.insert(
            key,
            CacheEntry { value, expires_at: now + ttl_secs },
        ),
        CacheCommandView::Exists { key } => store,
    }
}

/// What an `Exists` command answers on `store` at instant `t`: whether the
/// key is stored and has not expired.
pub open spec fn exists_answer_at(
    store: Map<Seq<char>, CacheEntry>,
    cmd: CacheCommandView,
    t: int,
) -> bool {
    match cmd {
        CacheCommandView::Exists { key } => store.contains_key(key) && t < store[key].expires_at,
        _ => false,
    }
}

/// The cache repository, over a connection pool of type `P`.
#[derive(Clone)]
pub struct RedisRepo<P> {
    pool: P,
}

impl<P> RedisRepo<P> {
    pub closed spec fn spec_pool(&self) -> P {
        self.pool
    }

    /// A repository over `pool`.
    pub fn new(pool: P) -> (r: Self)
        ensures
            r.spec_pool() == pool,
    {
        RedisRepo { pool }
    }

    /// The connection pool.
    pub fn pool(&self) -> (r: &P)
        ensures
            *r == self.spec_pool(),
    {
        &self.pool
    }

    /// The key that holds `token` on the blacklist.
    pub fn token_blacklist_key(token: &str) -> (r: String)
        ensures
            r@ == blacklist_key(token@),
    {
        let mut key = String::from_str(TOKEN_BLACKLIST_PREFIX);
        key.append(token);
        key
    }

    /// The command that puts `token` on the blacklist for `ttl_secs` seconds.
    pub fn blacklist_token_command(token: &str, ttl_secs: usize) -> (r: CacheCommand)
        ensures
            r@ == (CacheCommandView::SetEx {
                key: blacklist_key(token@),
                value: BLACKLIST_MARK@,
                ttl_secs: ttl_secs as u64,
            }),
    {
        CacheCommand::SetEx {
            key: Self::token_blacklist_key(token),
            value: String::from_str(BLACKLIST_MARK),
            ttl_secs: ttl_secs as u64,
        }
    }

    /// The command that asks whether `token` is on the blacklist.
    pub fn token_blacklisted_command(token: &str) -> (r: CacheCommand)
        ensures
            r@ == (CacheCommandView::Exists { key: blacklist_key(token@) }),
    {
        CacheCommand::Exists { key: Self::token_blacklist_key(token) }
    }
}

/// Different tokens are held under different keys.
pub proof fn lemma_blacklist_keys_distinct(t1: Seq<char>, t2: Seq<char>)
    ensures
        blacklist_key(t1) == blacklist_key(t2) <==> t1 == t2,
{
    if blacklist_key(t1) == blacklist_key(t2) {
        let n = TOKEN_BLACKLIST_PREFIX@.len() as int;
        assert(t1 =~= blacklist_key(t1).subrange(n, blacklist_key(t1).len() as int));
        assert(t2 =~= blacklist_key(t2).subrange(n, blacklist_key(t2).len() as int));
    }
}

/// A token put on the blacklist at `now` for `ttl_secs` seconds (more than
/// zero) reads as blacklisted until `now + ttl_secs` and as not blacklisted
/// from then on; asking for any other token answers as before.
pub proof fn lemma_blacklist_expires(
    store: Map<Seq<char>, CacheEntry>,
    token: Seq<char>,
    other: Seq<char>,
    ttl_secs: u64,
    now: int,
    t: int,
)
    requires
        ttl_secs > 0,
        now <= t,
    ensures
        ({
            let after = apply_command_at(
                store,
                CacheCommandView::SetEx {
                    key: blacklist_key(token),
                    value: BLACKLIST_MARK@,
                    ttl_secs,
                },
                now,
            );
            &&& exists_answer_at(after, CacheCommandView::Exists { key: blacklist_key(token) }, t)
                <==> t < now + ttl_secs
            &&& other != token ==> exists_answer_at(
                after,
                CacheCommandView::Exists { key: blacklist_key(other) },
                t,
            ) == exists_answer_at(
                store,
                CacheCommandView::Exists { key: blacklist_key(other) },
                t,
            )
        }),
{
    lemma_blacklist_keys_distinct(token, other);
}

/// A token that was never put on the blacklist does not read as blacklisted.
pub proof fn lemma_never_blacklisted(token: Seq<char>, t: int)
    ensures
        !exists_answer_at(
            Map::<Seq<char>, CacheEntry>::empty(),
            CacheCommandView::Exists { key: blacklist_key(token) },
            t,
        ),
{
}

/// The blacklist key of a token is the prefix `auth:blacklist:` followed by
/// the whole token, and nothing else.
pub proof fn lemma_blacklist_key_layout(token: Seq<char>)
    ensures
        TOKEN_BLACKLIST_PREFIX@ == seq![
            'a', 'u', 't', 'h', ':', 'b', 'l', 'a', 'c', 'k', 'l', 'i', 's', 't', ':'
        ],
        blacklist_key(token).len() == TOKEN_BLACKLIST_PREFIX@.len() + token.len(),
        blacklist_key(token).subrange(0, TOKEN_BLACKLIST_PREFIX@.len() as int)
            == TOKEN_BLACKLIST_PREFIX@,
        blacklist_key(token).subrange(
            TOKEN_BLACKLIST_PREFIX@.len() as int,
            blacklist_key(token).len() as int,
        ) == token,
{
    reveal_strlit("auth:blacklist:");
    let k = blacklist_key(token);
    let n = TOKEN_BLACKLIST_PREFIX@.len() as int;
    assert(k.subrange(0, n) =~= TOKEN_BLACKLIST_PREFIX@);
    assert(k.subrange(n, k.len() as int) =~= token);
}

} // verus!
