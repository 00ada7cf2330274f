use vstd::prelude::*;
use vstd::rwlock::RwLock;
use std::sync::Arc;

use crate::collector::{is_blank, utf8_decode_of, utf8_lossy};
use crate::messages::{RefreshRequest, RefreshResponse, RegisterRequest, RegisterResponse};

verus! {

/// The errors of the credential flows.
#[derive(Clone, Copy, Debug, PartialEq, Eq, Structural)]
pub enum AuthError {
    /// The shared access token is empty: no call can be authenticated.
    EmptyToken,
    /// The registration call itself failed (transport or server error).
    RegisterCallFailed,
    /// The service answered the registration with an unsuccessful response.
    RegistrationRejected,
}

/// The lock on the shared token admits every string.
pub struct AnyToken {}

impl vstd::rwlock::RwLockPredicate<String> for AnyToken {
    open spec fn inv(self, v: String) -> bool {
        true
    }
}

/// The shared mutable access token: one string behind a read/write lock,
/// shared by reference — through clones of this handle — across the
/// interceptor, the streamer and the health reporter. Readers are many and
/// concurrent; the writer is the token manager's refresh and register flows.
pub struct SharedAccessToken {
    cell: Arc<RwLock<String, AnyToken>>,
}

impl SharedAccessToken {
    /// A fresh cell holding `initial`.
    pub fn new(initial: String) -> (s: SharedAccessToken) {
        SharedAccessToken { cell: Arc::new(RwLock::new(initial, Ghost(AnyToken {  }))) }
    }

    /// The token as it is at this moment. A concurrent refresh may replace
    /// it at any time, so nothing relates two reads.
    pub fn read(&self) -> (t: String) {
        let handle = self.cell.acquire_read();
        let t = handle.borrow().clone();
        handle.release_read();
        t
    }

    /// Replace the token, excluding every concurrent reader and writer for
    /// the moment of the store.
    pub fn store(&self, value: String) {
        let (_stale, handle) = self.cell.acquire_write();
        handle.release_write(value);
    }
}

impl Clone for SharedAccessToken {
    /// Another handle on the same cell.
    fn clone(&self) -> (r: Self)
        ensures
            r == *self,
    {
        SharedAccessToken { cell: Arc::clone(&self.cell) }
    }
}

/// Stored credential content, as read back from disk: blank content (empty
/// or whitespace-only) means no credential is available, which forces the
/// registration path; anything else is the credential itself.
pub fn validate_credential(content: &[u8]) -> (r: Option<String>)
    ensures
        is_blank(content@) ==> r is None,
        !is_blank(content@) ==> (r matches Some(s) && s@ == utf8_decode_of(content@)),
{
    let mut i: usize = 0;
    let mut all_ws = true;
    while i < content.len()
        invariant
            i <= content@.len(),
            all_ws == (forall|j: int|
                0 <= j < i ==> crate::collector::is_whitespace_byte(#[trigger] content@[j])),
        decreases content@.len() - i,
    {
        let b = content[i];
        if !crate::collector::is_ws(b) {
            all_ws = false;
        }
        i += 1;
    }
    if all_ws {
        None
    } else {
        Some(utf8_lossy(content))
    }
}

/// What a step of the refresh flow asks its caller to do next.
#[derive(Debug)]
pub enum RefreshStep {
    /// The refresh succeeded: the shared access token is updated. When the
    /// service rotated the refresh token, the new one must now be persisted
    /// (atomically) — it is carried here; `None` means no rotation.
    Updated(Option<String>),
    /// The refresh was unsuccessful or the call errored: fall back to one
    /// full registration, using the persisted agent identifier.
    NeedRegister,
}

/// What a successful registration asks its caller to persist, atomically
/// and before the operation counts as done.
#[derive(Clone, Debug)]
pub struct CredentialPersist {
    pub refresh_token: String,
    pub agent_uuid: String,
}

/// How construction should continue after `bootstrap`.
#[derive(Clone, Copy, Debug, PartialEq, Eq, Structural)]
pub enum LoadAction {
    /// A stored refresh token exists: call the refresh operation first.
    TryRefresh,
    /// No stored credential: registration is the only path.
    MustRegister,
}

/// The owner of the agent's credential state: the shared access token, the
/// current refresh token, the agent identifier, and the project key.
pub struct TokenManager {
    /// The cell every outbound call reads its bearer token from.
    pub access_token: SharedAccessToken,
    /// The refresh token the next refresh call will present.
    pub refresh_token: String,
    /// The identifier the service knows this agent by.
    pub agent_uuid: String,
    /// The project this agent authenticates under.
    pub project_key: String,
}

impl TokenManager {
    /// First-run construction, from the credentials a registration just
    /// issued. The returned persist order must be written to disk for the
    /// construction to count as successful.
    pub fn new(
        access_token: String,
        refresh_token: String,
        agent_uuid: String,
        project_key: String,
    ) -> (r: (TokenManager, CredentialPersist))
        ensures
            r.0.refresh_token == refresh_token,
            r.0.agent_uuid == agent_uuid,
            r.0.project_key == project_key,
            r.1.refresh_token == refresh_token,
            r.1.agent_uuid == agent_uuid,
    {
        let persist = CredentialPersist {
            refresh_token: refresh_token.clone(),
            agent_uuid: agent_uuid.clone(),
        };
        let tm = TokenManager {
            access_token: SharedAccessToken::new(access_token),
            refresh_token,
            agent_uuid,
            project_key,
        };
        (tm, persist)
    }

    /// Warm-start construction, from whatever the credential files held.
    /// The access token starts empty; the caller then runs one refresh
    /// (when a stored refresh token exists) or one registration.
    pub fn bootstrap(
        stored_refresh: Option<String>,
        stored_uuid: Option<String>,
        project_key: String,
    ) -> (r: (TokenManager, LoadAction))
        ensures
            r.0.project_key == project_key,
            (match stored_refresh {
                Some(t) => r.0.refresh_token == t && r.1 == LoadAction::TryRefresh,
                None => r.0.refresh_token@.len() == 0 && r.1 == LoadAction::MustRegister,
            }),
            (match stored_uuid {
                Some(u) => r.0.agent_uuid == u,
                None => r.0.agent_uuid@.len() == 0,
            }),
    {
        let (refresh_token, action) = match stored_refresh {
            Some(t) => (t, LoadAction::TryRefresh),
            None => (String::new(), LoadAction::MustRegister),
        };
        let agent_uuid = match stored_uuid {
            Some(u) => u,
            None => String::new(),
        };
        let tm = TokenManager {
            access_token: SharedAccessToken::new(String::new()),
            refresh_token,
            agent_uuid,
            project_key,
        };
        (tm, action)
    }

    /// The request the refresh operation is called with: always the current
    /// refresh token.
    pub fn refresh_request(&self) -> (r: RefreshRequest)
        ensures
            r.refresh_token@ == self.refresh_token@,
    {
        RefreshRequest { refresh_token: self.refresh_token.clone() }
    }

    /// The request the registration operation is called with: the project
    /// key and the persisted agent identifier (when one exists), plus this
    /// host's identity as the caller sampled it.
    pub fn register_request(
        &self,
        hostname: String,
        os: String,
        os_version: String,
        persisted_uuid: Option<String>,
    ) -> (r: RegisterRequest)
        ensures
            r.project_key@ == self.project_key@,
            r.hostname == hostname,
            r.os == os,
            r.os_version == os_version,
            r.agent_uuid == persisted_uuid,
    {
        RegisterRequest {
            project_key: self.project_key.clone(),
            hostname,
            os,
            os_version,
            agent_uuid: persisted_uuid,
        }
    }

    /// Take the refresh operation's answer (`None` when the call itself
    /// errored). On success the shared access token is replaced and, if the
    /// service rotated the refresh token, the new one is adopted and handed
    /// back to be persisted. On anything else the state is untouched and the
    /// caller must fall back to one registration.
    pub fn apply_refresh_response(&mut self, resp: Option<RefreshResponse>) -> (r: RefreshStep)
        ensures
            final(self).project_key == old(self).project_key,
            final(self).agent_uuid == old(self).agent_uuid,
            final(self).access_token == old(self).access_token,
            (match resp {
                Some(rr) => {
                    if rr.success {
                        &&& final(self).refresh_token@ == (if rr.refresh_token@.len() > 0 {
                            rr.refresh_token@
                        } else {
                            old(self).refresh_token@
                        })
                        &&& (match r {
                            RefreshStep::Updated(p) => (match p {
                                Some(t) => rr.refresh_token@.len() > 0 && t@ == rr.refresh_token@,
                                None => rr.refresh_token@.len() == 0,
                            }),
                            RefreshStep::NeedRegister => false,
                        })
                    } else {
                        &&& final(self).refresh_token == old(self).refresh_token
                        &&& r is NeedRegister
                    }
                },
                None => {
                    &&& final(self).refresh_token == old(self).refresh_token
                    &&& r is NeedRegister
                },
            }),
    {
        match resp {
            Some(rr) => {
                if rr.success {
                    self.access_token.store(rr.access_token);
                    if !rr.refresh_token.as_str().is_empty() {
                        self.refresh_token = rr.refresh_token.clone();
                        RefreshStep::Updated(Some(rr.refresh_token))
                    } else {
                        RefreshStep::Updated(None)
                    }
                } else {
                    RefreshStep::NeedRegister
                }
            },
            None => RefreshStep::NeedRegister,
        }
    }

    /// Take the registration operation's answer (`None` when the call itself
    /// errored). A successful response replaces every credential — access
    /// token, refresh token, agent identifier — and its refresh token and
    /// agent identifier must then be persisted. Anything else is fatal to
    /// the operation and leaves the state untouched.
    pub fn apply_register_response(&mut self, resp: Option<RegisterResponse>) -> (r: Result<
        CredentialPersist,
        AuthError,
    >)
        ensures
            final(self).project_key == old(self).project_key,
            final(self).access_token == old(self).access_token,
            (match resp {
                Some(gr) => {
                    if gr.success {
                        &&& final(self).refresh_token == gr.refresh_token
                        &&& final(self).agent_uuid == gr.agent_uuid
                        &&& (r matches Ok(p) && p.refresh_token == gr.refresh_token
                            && p.agent_uuid == gr.agent_uuid)
                    } else {
                        &&& final(self).refresh_token == old(self).refresh_token
                        &&& final(self).agent_uuid == old(self).agent_uuid
                        &&& r == Err::<CredentialPersist, AuthError>(
                            AuthError::RegistrationRejected,
                        )
                    }
                },
                None => {
                    &&& final(self).refresh_token == old(self).refresh_token
                    &&& final(self).agent_uuid == old(self).agent_uuid
                    &&& r == Err::<CredentialPersist, AuthError>(AuthError::RegisterCallFailed)
                },
            }),
    {
        match resp {
            Some(gr) => {
                if gr.success {
                    self.access_token.store(gr.access_token);
                    self.refresh_token = gr.refresh_token.clone();
                    self.agent_uuid = gr.agent_uuid.clone();
                    Ok(
                        CredentialPersist {
                            refresh_token: gr.refresh_token,
                            agent_uuid: gr.agent_uuid,
                        },
                    )
                } else {
                    Err(AuthError::RegistrationRejected)
                }
            },
            None => Err(AuthError::RegisterCallFailed),
        }
    }

    /// Another handle on the shared access token, for the interceptor.
    pub fn get_shared_token(&self) -> (r: SharedAccessToken)
        ensures
            r == self.access_token,
    {
        self.access_token.clone()
    }
}

/// The outside steps the refresh flow takes, as the caller drives it
/// through `apply_refresh_response` and `apply_register_response`.
pub enum TmAction {
    /// One call of the remote refresh operation, with this refresh token.
    CallRefresh(Seq<char>),
    /// One call of the remote registration, with the persisted agent
    /// identifier (`None` when none is stored).
    CallRegister(Option<Seq<char>>),
    /// One atomic replacement of the refresh-token file with this content.
    PersistRefresh(Seq<char>),
    /// One atomic replacement of both credential files, with the freshly
    /// issued refresh token and agent identifier.
    PersistCredentials(Seq<char>, Seq<char>),
    /// The flow fails: registration was rejected or its call errored.
    Abort,
}

/// Whether a refresh answer counts as failed: the call errored, or the
/// service answered unsuccessfully.
pub open spec fn refresh_failed(resp: Option<RefreshResponse>) -> bool {
    match resp {
        Some(rr) => !rr.success,
        None => true,
    }
}

/// The registration leg of the flow: one call, then either the persist of
/// the fresh credentials or the failure of the whole operation.
pub open spec fn register_flow_actions(
    persisted_uuid: Option<Seq<char>>,
    register_resp: Option<RegisterResponse>,
) -> Seq<TmAction> {
    seq![TmAction::CallRegister(persisted_uuid)] + (match register_resp {
        Some(gr) => {
            if gr.success {
                seq![TmAction::PersistCredentials(gr.refresh_token@, gr.agent_uuid@)]
            } else {
                seq![TmAction::Abort]
            }
        },
        None => seq![TmAction::Abort],
    })
}

/// One whole refresh operation, as the token manager's steps drive it: a
/// refresh call; on success at most one persist (only under rotation); on
/// failure the fallback registration leg. `refresh_resp` and
/// `register_resp` are what the remote service would answer.
pub open spec fn refresh_flow_actions(
    cur_refresh: Seq<char>,
    refresh_resp: Option<RefreshResponse>,
    persisted_uuid: Option<Seq<char>>,
    register_resp: Option<RegisterResponse>,
) -> Seq<TmAction> {
    seq![TmAction::CallRefresh(cur_refresh)] + (match refresh_resp {
        Some(rr) => {
            if rr.success {
                if rr.refresh_token@.len() > 0 {
                    seq![TmAction::PersistRefresh(rr.refresh_token@)]
                } else {
                    Seq::empty()
                }
            } else {
                register_flow_actions(persisted_uuid, register_resp)
            }
        },
        None => register_flow_actions(persisted_uuid, register_resp),
    })
}

/// How many registration calls a flow makes.
pub open spec fn count_register(acts: Seq<TmAction>) -> int
    decreases acts.len(),
{
    if acts.len() == 0 {
        0
    } else {
        (if acts.first() is CallRegister {
            1int
        } else {
            0int
        }) + count_register(acts.drop_first())
    }
}

/// Refresh fallback: a refresh that comes back unsuccessful or errors
/// triggers exactly one registration call, made with the previously
/// persisted agent identifier; when that registration succeeds, the flow's
/// last step replaces the persisted refresh token (and agent identifier)
/// with the freshly issued ones. A successful refresh triggers no
/// registration at all.
pub proof fn lemma_refresh_fallback(
    cur_refresh: Seq<char>,
    refresh_resp: Option<RefreshResponse>,
    persisted_uuid: Option<Seq<char>>,
    register_resp: Option<RegisterResponse>,
)
    ensures
        ({
            let acts = refresh_flow_actions(cur_refresh, refresh_resp, persisted_uuid, register_resp);
            &&& (refresh_failed(refresh_resp) ==> count_register(acts) == 1 && acts.len() == 3
                && acts[1] == TmAction::CallRegister(persisted_uuid))
            &&& (refresh_failed(refresh_resp) && (register_resp matches Some(gr) && gr.success)
                ==> acts.last() == TmAction::PersistCredentials(
                register_resp->0.refresh_token@,
                register_resp->0.agent_uuid@,
            ))
            &&& (refresh_failed(refresh_resp) && !(register_resp matches Some(gr) && gr.success)
                ==> acts.last() == TmAction::Abort)
            &&& (!refresh_failed(refresh_resp) ==> count_register(acts) == 0)
        }),
{
    let acts = refresh_flow_actions(cur_refresh, refresh_resp, persisted_uuid, register_resp);
    if refresh_failed(refresh_resp) {
        let tail = match register_resp {
            Some(gr) => {
                if gr.success {
                    seq![TmAction::PersistCredentials(gr.refresh_token@, gr.agent_uuid@)]
                } else {
                    seq![TmAction::Abort]
                }
            },
            None => seq![TmAction::Abort],
        };
        let reg = register_flow_actions(persisted_uuid, register_resp);
        assert(reg == seq![TmAction::CallRegister(persisted_uuid)] + tail);
        assert(acts =~= seq![
            TmAction::CallRefresh(cur_refresh),
            TmAction::CallRegister(persisted_uuid),
            tail[0],
        ]);
        assert(acts.drop_first() =~= seq![TmAction::CallRegister(persisted_uuid), tail[0]]);
        assert(acts.drop_first().drop_first() =~= seq![tail[0]]);
        assert(seq![tail[0]].drop_first() =~= Seq::<TmAction>::empty());
        assert(count_register(Seq::<TmAction>::empty()) == 0);
        assert(!(tail[0] is CallRegister));
        assert(count_register(seq![tail[0]]) == 0);
        assert(count_register(acts.drop_first()) == 1);
        assert(count_register(acts) == 1);
    } else {
        let rr = refresh_resp->0;
        if rr.refresh_token@.len() > 0 {
            assert(acts =~= seq![
                TmAction::CallRefresh(cur_refresh),
                TmAction::PersistRefresh(rr.refresh_token@),
            ]);
            assert(acts.drop_first() =~= seq![TmAction::PersistRefresh(rr.refresh_token@)]);
            assert(acts.drop_first().drop_first() =~= Seq::<TmAction>::empty());
            assert(count_register(Seq::<TmAction>::empty()) == 0);
            assert(count_register(acts.drop_first()) == 0);
            assert(count_register(acts) == 0);
        } else {
            assert(acts =~= seq![TmAction::CallRefresh(cur_refresh)]);
            assert(acts.drop_first() =~= Seq::<TmAction>::empty());
            assert(count_register(Seq::<TmAction>::empty()) == 0);
            assert(count_register(acts) == 0);
        }
    }
}

} // verus!
