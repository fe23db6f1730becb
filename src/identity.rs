use vstd::prelude::*;

verus! {

/// The `Accept` header sent with every navigation request.
pub const ACCEPT_NAVIGATION: &'static str = "text/html,application/xhtml+xml,application/xml;q=0.9,image/avif,image/webp,*/*;q=0.8";

/// The profile a worker builds its client with.
pub const DEFAULT_PROFILE: &'static str = "desktop";

/// The protocol fingerprints a client can impersonate.
#[derive(Clone, Copy, Debug, PartialEq, Eq, Structural)]
pub enum Emulation {
    Chrome130,
    Safari16_5,
}

/// Why no client could be planned.
#[derive(Clone, Debug)]
pub enum IdentityError {
    /// The profile name is not in the mapping.
    UnknownProfile(String),
}

/// What a one-shot client is built from: its fingerprint and the one node it
/// is routed through.
#[derive(Clone, Debug)]
pub struct ClientPlan {
    pub emulation: Emulation,
    pub proxy: Option<String>,
}

/// The fingerprint an identity string names; any unknown identity gets the
/// default fingerprint, Chrome 130.
pub open spec fn emulation_of(identity: Seq<char>) -> Emulation {
    if identity == "safari_16"@ {
        Emulation::Safari16_5
    } else {
        Emulation::Chrome130
    }
}

/// The identity of the first entry named `key`.
pub open spec fn lookup(ps: Seq<(Seq<char>, Seq<char>)>, key: Seq<char>, from: int) -> Option<
    Seq<char>,
>
    decreases ps.len() - from,
{
    if from < 0 || from >= ps.len() {
        None
    } else if ps[from].0 == key {
        Some(ps[from].1)
    } else {
        lookup(ps, key, from + 1)
    }
}

/// The views of a profile mapping.
pub open spec fn profile_views(ps: Seq<(String, String)>) -> Seq<(Seq<char>, Seq<char>)> {
    ps.map_values(|p: (String, String)| (p.0@, p.1@))
}

/// The identity builder: a read-only mapping from profile names to
/// impersonation identities.
pub struct ClientFactory {
    profiles: Vec<(String, String)>,
}

impl View for ClientFactory {
    type V = Seq<(Seq<char>, Seq<char>)>;

    closed spec fn view(&self) -> Seq<(Seq<char>, Seq<char>)> {
        profile_views(self.profiles@)
    }
}

impl ClientFactory {
    pub fn new(profiles: Vec<(String, String)>) -> (r: ClientFactory)
        ensures
            r@ == profile_views(profiles@),
    {
        ClientFactory { profiles }
    }

    /// The fingerprint an identity string names (Chrome 130 when unknown).
    pub fn emulation_for(identity: &str) -> (r: Emulation)
        ensures
            r == emulation_of(identity@),
    {
        let s = String::from_str(identity);
        let safari = String::from_str("safari_16");
        if s == safari {
            Emulation::Safari16_5
        } else {
            Emulation::Chrome130
        }
    }

    /// The identity that profile `key` maps to, if any.
    pub fn identity_of(&self, key: &str) -> (r: Option<String>)
        ensures
            match r {
                None => lookup(self@, key@, 0) is None,
                Some(s) => lookup(self@, key@, 0) == Some(s@),
            },
    {
        let target = String::from_str(key);
        let mut i: usize = 0;
        while i < self.profiles.len()
            invariant
                i <= self.profiles@.len(),
                target@ == key@,
                lookup(self@, key@, 0) == lookup(self@, key@, i as int),
            decreases self.profiles@.len() - i,
        {
            if self.profiles[i].0 == target {
                return Some(self.profiles[i].1.clone());
            }
            i = i + 1;
        }
        None
    }

    /// Plans a one-shot client for profile `profile_key`, routed through
    /// `proxy_url`: an unknown profile is an error.
    pub fn create_client(&self, profile_key: &str, proxy_url: Option<&str>) -> (r: Result<
        ClientPlan,
        IdentityError,
    >)
        ensures
            match lookup(self@, profile_key@, 0) {
                None => r matches Err(IdentityError::UnknownProfile(k)) && k@ == profile_key@,
                Some(id) => r matches Ok(plan) && plan.emulation == emulation_of(id) && match proxy_url {
                    None => plan.proxy is None,
                    Some(p) => plan.proxy matches Some(q) && q@ == p@,
                },
            },
    {
        match self.identity_of(profile_key) {
            None => Err(IdentityError::UnknownProfile(String::from_str(profile_key))),
            Some(id) => {
                let emulation = Self::emulation_for(id.as_str());
                let proxy = match proxy_url {
                    None => None,
                    Some(p) => Some(String::from_str(p)),
                };
                Ok(ClientPlan { emulation, proxy })
            },
        }
    }
}

} // verus!
