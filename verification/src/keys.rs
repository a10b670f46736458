//! Endpoint identity and credentials: the profile the boundary hands in, the
//! resolved credentials one connection attempt uses, and the cache key that
//! identifies a transport.
use crate::textutil::str_eq;
use crate::textutil::trim_str;
use crate::textutil::trimmed_of;
use vstd::prelude::*;

verus! {

/// A remote host profile as the boundary hands it in: endpoint, identity and
/// at most one of the authentication modes, with a legacy agent toggle.
#[derive(Debug, Clone)]
pub struct HostProfile {
    pub host: String,
    pub port: Option<u16>,
    pub user: String,
    /// `"agent"`, `"key"` or `"password"`; resolved when absent.
    pub auth: Option<String>,
    /// Considered only when the resolved mode is `"password"`.
    pub password: Option<String>,
    /// Considered only when the resolved mode is `"key"`.
    pub key_path: Option<String>,
    /// Considered only when the resolved mode is `"key"`.
    pub key_pass: Option<String>,
    /// Legacy switch; respected only when `auth` is not set.
    pub use_agent: Option<bool>,
}

/// Credentials for one connection attempt, with the authentication mode
/// already resolved: at most one of password, agent or key file applies.
#[derive(Debug, Clone)]
pub struct SshCreds {
    pub host: String,
    pub port: u16,
    pub user: String,
    pub password: Option<String>,
    pub key_path: Option<String>,
    pub key_pass: Option<String>,
    pub use_agent: bool,
}

/// The effective port of a profile: the given one, or 22.
pub open spec fn port_of(p: HostProfile) -> u16 {
    match p.port {
        Some(pt) => pt,
        None => 22,
    }
}

/// The authentication mode a profile resolves to. An explicit `auth` wins;
/// otherwise the legacy toggle keeps its old meaning: agent unless it is
/// switched off and a key path is present.
pub open spec fn resolved_auth(p: HostProfile) -> Seq<char> {
    match p.auth {
        Some(a) => a@,
        None => {
            let legacy_agent = match p.use_agent {
                Some(u) => u,
                None => true,
            };
            if legacy_agent {
                "agent"@
            } else if p.key_path is Some {
                "key"@
            } else {
                "agent"@
            }
        },
    }
}

/// The password a profile's credentials carry: only under password mode.
pub open spec fn effective_password(p: HostProfile) -> Option<Seq<char>> {
    if resolved_auth(p) == "password"@ {
        p.password.deep_view()
    } else {
        None
    }
}

/// The key path a profile's credentials carry: only under key mode, and only
/// when it is not blank.
pub open spec fn effective_key_path(p: HostProfile) -> Option<Seq<char>> {
    if resolved_auth(p) == "key"@ {
        match p.key_path {
            Some(kp) => {
                if trimmed_of(kp@).len() > 0 {
                    Some(kp@)
                } else {
                    None
                }
            },
            None => None,
        }
    } else {
        None
    }
}

/// The key passphrase a profile's credentials carry: only under key mode.
pub open spec fn effective_key_pass(p: HostProfile) -> Option<Seq<char>> {
    if resolved_auth(p) == "key"@ {
        p.key_pass.deep_view()
    } else {
        None
    }
}

fn clone_opt(o: &Option<String>) -> (r: Option<String>)
    ensures
        r.deep_view() == o.deep_view(),
{
    match o {
        Some(s) => Some(s.clone()),
        None => None,
    }
}

/// Resolve a profile into the credentials one connection attempt uses.
pub fn creds_from(profile: &HostProfile) -> (c: SshCreds)
    ensures
        c.host@ == profile.host@,
        c.user@ == profile.user@,
        c.port == port_of(*profile),
        c.use_agent == (resolved_auth(*profile) == "agent"@),
        c.password.deep_view() == effective_password(*profile),
        c.key_path.deep_view() == effective_key_path(*profile),
        c.key_pass.deep_view() == effective_key_pass(*profile),
{
    let auth: String = match &profile.auth {
        Some(a) => a.clone(),
        None => {
            let legacy_agent: bool = match profile.use_agent {
                Some(u) => u,
                None => true,
            };
            if legacy_agent {
                "agent".to_owned()
            } else if profile.key_path.is_some() {
                "key".to_owned()
            } else {
                "agent".to_owned()
            }
        },
    };
    let is_password: bool = str_eq(auth.as_str(), "password");
    let is_key: bool = str_eq(auth.as_str(), "key");
    let is_agent: bool = str_eq(auth.as_str(), "agent");
    let password: Option<String> = if is_password {
        clone_opt(&profile.password)
    } else {
        None
    };
    let key_path: Option<String> = if is_key {
        match &profile.key_path {
            Some(kp) => {
                let t = trim_str(kp.as_str());
                if t.unicode_len() == 0 {
                    None
                } else {
                    Some(kp.clone())
                }
            },
            None => None,
        }
    } else {
        None
    };
    let key_pass: Option<String> = if is_key {
        clone_opt(&profile.key_pass)
    } else {
        None
    };
    let port: u16 = match profile.port {
        Some(p) => p,
        None => 22,
    };
    SshCreds {
        host: profile.host.clone(),
        port,
        user: profile.user.clone(),
        password,
        key_path,
        key_pass,
        use_agent: is_agent,
    }
}

/// The one authentication step a connection attempt performs, in the fixed
/// order of precedence: an explicit password first, then agent identities,
/// then a key file with its optional passphrase; nothing usable is an error.
#[derive(Debug, Clone, PartialEq, Eq)]
pub enum AuthPlan {
    Password(String),
    Agent,
    KeyFile(String, Option<String>),
    NoMethod,
}

/// Pick the authentication step the credentials call for.
pub fn auth_plan(creds: &SshCreds) -> (p: AuthPlan)
    ensures
        creds.password matches Some(pw) ==> (p matches AuthPlan::Password(q) && q@ == pw@),
        creds.password is None && creds.use_agent ==> p is Agent,
        creds.password is None && !creds.use_agent ==> (creds.key_path matches Some(kp) ==> (
        p matches AuthPlan::KeyFile(q, pass) && q@ == kp@ && pass.deep_view()
            == creds.key_pass.deep_view())),
        creds.password is None && !creds.use_agent && creds.key_path is None ==> p is NoMethod,
{
    match &creds.password {
        Some(pw) => AuthPlan::Password(pw.clone()),
        None => {
            if creds.use_agent {
                AuthPlan::Agent
            } else {
                match &creds.key_path {
                    Some(kp) => AuthPlan::KeyFile(kp.clone(), clone_opt(&creds.key_pass)),
                    None => AuthPlan::NoMethod,
                }
            }
        },
    }
}

/// The identity of a cached transport: one endpoint and one user.
pub struct ConnKey {
    pub host: String,
    pub port: u16,
    pub user: String,
}

/// The mathematical value of a `ConnKey`.
#[verifier::ext_equal]
pub struct ConnKeyV {
    pub host: Seq<char>,
    pub port: u16,
    pub user: Seq<char>,
}

impl View for ConnKey {
    type V = ConnKeyV;

    open spec fn view(&self) -> ConnKeyV {
        ConnKeyV { host: self.host@, port: self.port, user: self.user@ }
    }
}

impl ConnKey {
    /// The key the given credentials identify a transport by.
    pub fn from(creds: &SshCreds) -> (k: ConnKey)
        ensures
            k@ == (ConnKeyV { host: creds.host@, port: creds.port, user: creds.user@ }),
    {
        ConnKey { host: creds.host.clone(), port: creds.port, user: creds.user.clone() }
    }

    /// Whether two keys identify the same transport.
    pub fn matches(&self, other: &ConnKey) -> (r: bool)
        ensures
            r == (self@ == other@),
    {
        let hm = str_eq(self.host.as_str(), other.host.as_str());
        let um = str_eq(self.user.as_str(), other.user.as_str());
        let r = hm && self.port == other.port && um;
        proof {
            if r {
                assert(self@ =~= other@);
            }
        }
        r
    }
}

} // verus!
