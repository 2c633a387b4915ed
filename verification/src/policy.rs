//! Client identity and the authorization decision. Policy programs are
//! evaluated by an external evaluator; this module fixes what identity a
//! request carries, which repository an action touches, and how the
//! evaluation outcomes decide between allow and deny.

use vstd::hash_map::StringHashMap;
use vstd::prelude::*;

use crate::error::RegistryError;
use crate::listing::name_set;
use crate::text::str_eq;

verus! {

/// A structured client action: the operation kind and the namespace it
/// touches, when it touches one.
pub enum ClientAction {
    GetApiVersion,
    GetManifest(String),
    PutManifest(String),
    DeleteManifest(String),
    GetBlob(String),
    DeleteBlob(String),
    StartUpload(String),
    PatchUpload(String),
    PutUpload(String),
    GetUploadProgress(String),
    DeleteUpload(String),
    GetReferrers(String),
    ListTags(String),
    ListCatalog,
}

impl ClientAction {
    /// The namespace the action addresses, when it addresses one.
    pub open spec fn spec_namespace(&self) -> Option<Seq<char>> {
        match self {
            ClientAction::GetApiVersion => None,
            ClientAction::ListCatalog => None,
            ClientAction::GetManifest(ns) => Some(ns@),
            ClientAction::PutManifest(ns) => Some(ns@),
            ClientAction::DeleteManifest(ns) => Some(ns@),
            ClientAction::GetBlob(ns) => Some(ns@),
            ClientAction::DeleteBlob(ns) => Some(ns@),
            ClientAction::StartUpload(ns) => Some(ns@),
            ClientAction::PatchUpload(ns) => Some(ns@),
            ClientAction::PutUpload(ns) => Some(ns@),
            ClientAction::GetUploadProgress(ns) => Some(ns@),
            ClientAction::DeleteUpload(ns) => Some(ns@),
            ClientAction::GetReferrers(ns) => Some(ns@),
            ClientAction::ListTags(ns) => Some(ns@),
        }
    }

    pub fn get_namespace(&self) -> (r: Option<String>)
        ensures
            match r {
                Some(ns) => self.spec_namespace() == Some(ns@),
                None => self.spec_namespace() is None,
            },
    {
        match self {
            ClientAction::GetApiVersion => None,
            ClientAction::ListCatalog => None,
            ClientAction::GetManifest(ns) => Some(ns.clone()),
            ClientAction::PutManifest(ns) => Some(ns.clone()),
            ClientAction::DeleteManifest(ns) => Some(ns.clone()),
            ClientAction::GetBlob(ns) => Some(ns.clone()),
            ClientAction::DeleteBlob(ns) => Some(ns.clone()),
            ClientAction::StartUpload(ns) => Some(ns.clone()),
            ClientAction::PatchUpload(ns) => Some(ns.clone()),
            ClientAction::PutUpload(ns) => Some(ns.clone()),
            ClientAction::GetUploadProgress(ns) => Some(ns.clone()),
            ClientAction::DeleteUpload(ns) => Some(ns.clone()),
            ClientAction::GetReferrers(ns) => Some(ns.clone()),
            ClientAction::ListTags(ns) => Some(ns.clone()),
        }
    }
}

/// What one policy evaluation produced: a boolean verdict, or a value of
/// another type, which always denies.
#[derive(Clone, Copy, Debug, PartialEq, Eq, Structural)]
pub enum PolicyOutcome {
    Verdict(bool),
    Invalid,
}

/// The decision a list of policy outcomes yields. Under a default-deny
/// repository the first `true` allows; under default-allow the first
/// `false` denies; a non-boolean outcome denies at once; with no
/// decisive outcome the default applies.
pub open spec fn spec_policy_verdict(outcomes: Seq<PolicyOutcome>, default_allow: bool) -> bool
    decreases outcomes.len(),
{
    if outcomes.len() == 0 {
        default_allow
    } else {
        match outcomes.first() {
            PolicyOutcome::Verdict(b) => if b && !default_allow {
                true
            } else if !b && default_allow {
                false
            } else {
                spec_policy_verdict(outcomes.drop_first(), default_allow)
            },
            PolicyOutcome::Invalid => false,
        }
    }
}

/// The access-control state built from configuration: credentials,
/// known repositories and their default-allow flags.
pub struct AccessControl {
    pub credentials: StringHashMap<(String, String)>,
    pub repositories: Vec<String>,
    pub default_allow: StringHashMap<bool>,
}

/// Whether supplied credentials check out against the credential table:
/// absent credentials pass anonymously; supplied ones must name a known
/// user and carry its password.
pub open spec fn spec_cred_ok(
    m: Map<Seq<char>, (String, String)>,
    c: Option<(String, String)>,
) -> bool {
    match c {
        None => true,
        Some((u, p)) => m.contains_key(u@) && m[u@].1@ == p@,
    }
}

/// The default-allow flag of a repository; unknown repositories deny by
/// default.
pub open spec fn spec_default_allow_of(m: Map<Seq<char>, bool>, ns: Seq<char>) -> bool {
    m.contains_key(ns) && m[ns]
}

impl AccessControl {
    /// Checks supplied credentials and returns the identity they name.
    pub fn validate_credentials(&self, credentials: &Option<(String, String)>) -> (r: Result<
        Option<String>,
        RegistryError,
    >)
        ensures
            match r {
                Ok(id) => spec_cred_ok(self.credentials@, *credentials) && (match id {
                    Some(i) => credentials matches Some((u, _))
                        && self.credentials@.contains_key(u@) && i@
                        == self.credentials@[u@].0@,
                    None => credentials is None,
                }),
                Err(e) => !spec_cred_ok(self.credentials@, *credentials) && e is Unauthorized,
            },
    {
        match credentials {
            None => Ok(None),
            Some((username, password)) => {
                match self.credentials.get(username.as_str()) {
                    Some(entry) => {
                        if str_eq(entry.1.as_str(), password.as_str()) {
                            Ok(Some(entry.0.clone()))
                        } else {
                            Err(RegistryError::Unauthorized(None))
                        }
                    },
                    None => Err(RegistryError::Unauthorized(None)),
                }
            },
        }
    }

    /// Whether the namespace names a configured repository.
    pub fn knows_repository(&self, namespace: &str) -> (r: bool)
        ensures
            r == name_set(self.repositories.deep_view()).contains(namespace@),
    {
        let n = self.repositories.len();
        let mut i: usize = 0;
        while i < n
            invariant
                0 <= i <= n,
                n == self.repositories@.len(),
                forall|j: int| 0 <= j < i ==> self.repositories.deep_view()[j] != namespace@,
            decreases n - i,
        {
            if str_eq(self.repositories[i].as_str(), namespace) {
                proof {
                    assert(self.repositories.deep_view()[i as int] == namespace@);
                }
                return true;
            }
            i = i + 1;
        }
        proof {
            if name_set(self.repositories.deep_view()).contains(namespace@) {
                let j = choose|j: int|
                    0 <= j < self.repositories.deep_view().len()
                        && self.repositories.deep_view()[j] == namespace@;
            }
        }
        false
    }

    /// The repository's default-allow flag; unknown repositories deny.
    pub fn is_repository_policy_default_allow(&self, namespace: &str) -> (r: bool)
        ensures
            r == spec_default_allow_of(self.default_allow@, namespace@),
    {
        match self.default_allow.get(namespace) {
            Some(b) => *b,
            None => false,
        }
    }
}

/// The identity a request carries: certificate names and optional basic
/// credentials.
pub struct ClientIdentity {
    pub cert_organizations: Vec<String>,
    pub cert_common_name: Vec<String>,
    pub credentials: Option<(String, String)>,
}

impl ClientIdentity {
    /// An anonymous identity.
    pub fn new() -> (r: Self)
        ensures
            r.cert_organizations@.len() == 0,
            r.cert_common_name@.len() == 0,
            r.credentials is None,
    {
        ClientIdentity { cert_organizations: Vec::new(), cert_common_name: Vec::new(), credentials: None }
    }

    pub fn set_credentials(&mut self, username: String, password: String)
        ensures
            final(self).credentials == Some((username, password)),
            final(self).cert_organizations == old(self).cert_organizations,
            final(self).cert_common_name == old(self).cert_common_name,
    {
        self.credentials = Some((username, password));
    }

    /// The default decision when no policy speaks.
    pub fn apply_default_policy(&self, default_allow: bool) -> (r: Result<(), RegistryError>)
        ensures
            match r {
                Ok(()) => default_allow,
                Err(e) => !default_allow && e is Unauthorized,
            },
    {
        if default_allow {
            Ok(())
        } else {
            Err(RegistryError::Unauthorized(None))
        }
    }

    /// Folds the outcomes of the repository's policies into a decision.
    pub fn check_policies(&self, outcomes: &Vec<PolicyOutcome>, default_allow: bool) -> (r: Result<
        (),
        RegistryError,
    >)
        ensures
            match r {
                Ok(()) => spec_policy_verdict(outcomes@, default_allow),
                Err(e) => !spec_policy_verdict(outcomes@, default_allow) && e is Unauthorized,
            },
    {
        let n = outcomes.len();
        let mut i: usize = 0;
        proof {
            assert(outcomes@.skip(0) =~= outcomes@);
        }
        while i < n
            invariant
                0 <= i <= n,
                n == outcomes@.len(),
                spec_policy_verdict(outcomes@, default_allow) == spec_policy_verdict(
                    outcomes@.skip(i as int),
                    default_allow,
                ),
            decreases n - i,
        {
            proof {
                assert(outcomes@.skip(i as int).first() == outcomes@[i as int]);
                assert(outcomes@.skip(i as int).drop_first() =~= outcomes@.skip(i + 1));
            }
            match outcomes[i] {
                PolicyOutcome::Verdict(b) => {
                    if b && !default_allow {
                        return Ok(());
                    }
                    if !b && default_allow {
                        return Err(RegistryError::Unauthorized(None));
                    }
                },
                PolicyOutcome::Invalid => {
                    return Err(RegistryError::Unauthorized(None));
                },
            }
            i = i + 1;
        }
        self.apply_default_policy(default_allow)
    }

    /// Decides whether this identity may perform the action: credentials
    /// first, then the repository lookup, then the policy outcomes the
    /// external evaluator produced for it — or, absent configured
    /// policies, the repository's default.
    pub fn can_do(
        &self,
        access: &AccessControl,
        action: &ClientAction,
        outcomes: Option<&Vec<PolicyOutcome>>,
    ) -> (r: Result<(), RegistryError>)
        ensures
            ({
                let allowed = spec_cred_ok(access.credentials@, self.credentials) && (
                match action.spec_namespace() {
                    None => true,
                    Some(ns) => name_set(access.repositories.deep_view()).contains(ns) && (
                    match outcomes {
                        Some(o) => spec_policy_verdict(
                            o@,
                            spec_default_allow_of(access.default_allow@, ns),
                        ),
                        None => spec_default_allow_of(access.default_allow@, ns),
                    }),
                });
                match r {
                    Ok(()) => allowed,
                    Err(e) => !allowed && e is Unauthorized,
                }
            }),
    {
        self.validate_credentials_of(access)?;
        let namespace = match action.get_namespace() {
            None => {
                return Ok(());
            },
            Some(ns) => ns,
        };
        if !access.knows_repository(namespace.as_str()) {
            return Err(RegistryError::Unauthorized(None));
        }
        let default_allow = access.is_repository_policy_default_allow(namespace.as_str());
        match outcomes {
            Some(o) => self.check_policies(o, default_allow),
            None => self.apply_default_policy(default_allow),
        }
    }

    /// Checks this identity's credentials against the credential table.
    fn validate_credentials_of(&self, access: &AccessControl) -> (r: Result<
        Option<String>,
        RegistryError,
    >)
        ensures
            match r {
                Ok(_) => spec_cred_ok(access.credentials@, self.credentials),
                Err(e) => !spec_cred_ok(access.credentials@, self.credentials)
                    && e is Unauthorized,
            },
    {
        access.validate_credentials(&self.credentials)
    }
}

} // verus!
