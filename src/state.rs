use crate::authorization::{
    authorize_header, raw_access_outcome, raw_header_view, views, AuthorizationError,
};
use crate::config::Config;
use crate::key_manager::KeyManager;
use crate::relay::{
    build_outbound, completions_path, forwarded_headers, headers_view, plan_response,
    relay_mode_of, Header, OutboundRequest, RelayPlan,
};
use vstd::prelude::*;
use vstd::rwlock::RwLock;

verus! {

/// What every key manager held by a [`State`] satisfies: it rotates over
/// `pool`, which is not empty.
pub open spec fn holds_pool(km: KeyManager, pool: Seq<Seq<char>>) -> bool {
    km.pool() == pool && pool.len() > 0
}

/// The state shared by all request handlers: the configuration, read without
/// locking, and the key manager, behind a lock so that each read and each
/// advance of its cursor is indivisible.
pub struct State {
    config: Config,
    key_manager: RwLock<KeyManager, spec_fn(KeyManager) -> bool>,
    pool: Ghost<Seq<Seq<char>>>,
}

impl State {
    #[verifier::type_invariant]
    spec fn lock_holds_pool(&self) -> bool {
        &&& self.pool@ == views(self.config.api_keys@)
        &&& forall|km: KeyManager| #[trigger]
            self.key_manager.inv(km) <==> holds_pool(km, self.pool@)
    }

    /// The upstream credentials that the state rotates over.
    pub closed spec fn pool(&self) -> Seq<Seq<char>> {
        self.pool@
    }

    /// The configuration the state was built with.
    pub closed spec fn config_view(&self) -> Config {
        self.config
    }

    /// Bundles the configuration with a key manager over its credentials.
    pub fn new(config: Config, km: KeyManager) -> (r: Self)
        requires
            km.pool() == views(config.api_keys@),
            km.pool().len() > 0,
        ensures
            r.pool() == km.pool(),
            r.config_view() == config,
    {
        let ghost pool = km.pool();
        let ghost pred = |k: KeyManager| holds_pool(k, pool);
        let key_manager = RwLock::new(km, Ghost(pred));
        State { config, key_manager, pool: Ghost(pool) }
    }

    pub fn config(&self) -> (r: &Config)
        ensures
            *r == self.config_view(),
    {
        &self.config
    }

    /// Reads the current upstream credential.
    pub fn current_key(&self) -> (r: String)
        ensures
            self.pool().contains(r@),
    {
        proof {
            use_type_invariant(self);
        }
        let (mut km, handle) = self.key_manager.acquire_write();
        let key = km.get_key();
        proof {
            km.lemma_position_in_pool();
        }
        assert(self.pool()[km.position()] == key@);
        handle.release_write(km);
        key
    }

    /// Advances the rotation by one credential.
    pub fn switch_key(&self) {
        proof {
            use_type_invariant(self);
        }
        let (mut km, handle) = self.key_manager.acquire_write();
        km.switch_key();
        handle.release_write(km);
    }

    /// The access guard for a request whose raw `Authorization` header value
    /// is `auth_header`, under this state's bind host and access keys.
    pub fn authorize(&self, auth_header: Option<&[u8]>) -> (r: Result<(), AuthorizationError>)
        ensures
            r == raw_access_outcome(
                self.config_view().host@,
                views(self.config_view().access_keys@),
                raw_header_view(auth_header),
            ),
    {
        authorize_header(self.config.host.as_str(), self.config.access_keys.as_slice(), auth_header)
    }

    /// Builds the upstream request for a caller's headers and body with the
    /// current credential of the rotation.
    pub fn forward(&self, headers: &Vec<Header>, body: Vec<u8>) -> (r: OutboundRequest)
        ensures
            r.url@ == self.config_view().base_url@ + completions_path(),
            exists|key: Seq<char>|
                self.pool().contains(key) && headers_view(r.headers@) == #[trigger] forwarded_headers(
                    headers_view(headers@),
                    key,
                ),
            r.body@ == body@,
    {
        proof {
            use_type_invariant(self);
        }
        let (mut km, handle) = self.key_manager.acquire_write();
        let ghost key = km.current();
        let out = build_outbound(&mut km, self.config.base_url.as_str(), headers, body);
        assert(self.pool().contains(key)) by {
            km.lemma_position_in_pool();
            assert(self.pool()[km.position()] == key);
        }
        handle.release_write(km);
        out
    }

    /// Plans the relay of an upstream response, rotating the credential when
    /// the upstream signals a rate limit.
    pub fn observe(&self, status: u16, headers: Vec<Header>) -> (r: RelayPlan)
        ensures
            r.status == status,
            r.headers@ == headers@,
            r.mode == relay_mode_of(headers_view(headers@)),
    {
        proof {
            use_type_invariant(self);
        }
        let (mut km, handle) = self.key_manager.acquire_write();
        let plan = plan_response(&mut km, status, headers);
        handle.release_write(km);
        plan
    }
}

} // verus!
