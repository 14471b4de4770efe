//! Identity resolution for MFA-gated access: walking a chain of credential
//! profiles to the one that holds the long-lived keys, and the request to
//! assume a role that comes out of it.

use crate::params::text_of;
use aws_config::profile::{Profile, ProfileSet};
use vstd::prelude::*;

verus! {

/// `aws_config::profile::ProfileSet`: the named profiles of the local
/// configuration. Nothing is claimed of it but what `profile_set_profiles`
/// names.
#[verifier::external_type_specification]
#[verifier::external_body]
pub struct ExProfileSet(aws_config::profile::ProfileSet);

/// `aws_config::profile::Profile`: one profile of such a set. Nothing is
/// claimed of it but what `profile_fields` names.
#[verifier::external_type_specification]
#[verifier::external_body]
pub struct ExProfile(aws_config::profile::Profile);

/// The properties that a profile holds: each property name with its value.
pub uninterp spec fn profile_fields(profile: Profile) -> Map<Seq<char>, Seq<char>>;

/// The profiles that a profile set holds: each profile name with the
/// properties of that profile.
pub uninterp spec fn profile_set_profiles(set: ProfileSet) -> Map<
    Seq<char>,
    Map<Seq<char>, Seq<char>>,
>;

/// `ProfileSet::get_profile` looks the name up among the profiles of the
/// set, by exact match: it finds a profile exactly when the set holds one of
/// that name, and the profile found has the properties held under the name.
pub assume_specification<'a>[ ProfileSet::get_profile ](
    set: &'a ProfileSet,
    profile_name: &str,
) -> (r: Option<&'a Profile>)
    ensures
        r is Some <==> profile_set_profiles(*set).contains_key(profile_name@),
        r is Some ==> profile_fields(*r->0) == profile_set_profiles(*set)[profile_name@],
;

/// `Profile::get` looks the name up among the properties of the profile, by
/// exact match: it finds a value exactly when the profile holds a property
/// of that name, and the value found is that property's.
pub assume_specification<'a>[ Profile::get ](profile: &'a Profile, name: &str) -> (r: Option<
    &'a str,
>)
    ensures
        r is Some <==> profile_fields(*profile).contains_key(name@),
        r is Some ==> r->0@ == profile_fields(*profile)[name@],
;

/// The most references to a source profile that a resolution follows.
pub const MAX_CHAIN_DEPTH: usize = 32;

/// The name of the profile at the end of the chain that starts at `name`:
/// the first profile reached, over at most `hops` references, that names no
/// source profile. There is none when a profile of the chain is missing or
/// when `hops` references do not reach its end.
pub open spec fn chain_root(
    profiles: Map<Seq<char>, Map<Seq<char>, Seq<char>>>,
    name: Seq<char>,
    hops: nat,
) -> Option<Seq<char>>
    decreases hops,
{
    if !profiles.contains_key(name) {
        None
    } else if !profiles[name].contains_key("source_profile"@) {
        Some(name)
    } else if hops == 0 {
        None
    } else {
        chain_root(profiles, profiles[name]["source_profile"@], (hops - 1) as nat)
    }
}

/// The value of `field` in the first of `profiles` that defines it.
pub open spec fn first_defined(field: Seq<char>, profiles: Seq<Map<Seq<char>, Seq<char>>>) -> Option<
    Seq<char>,
>
    decreases profiles.len(),
{
    if profiles.len() == 0 {
        None
    } else if profiles[0].contains_key(field) {
        Some(profiles[0][field])
    } else {
        first_defined(field, profiles.drop_first())
    }
}

/// Why a profile did not resolve to a request.
#[derive(Debug, Clone, Copy, PartialEq, Eq, Structural)]
pub enum ResolveError {
    /// The set holds no profile of the name asked for.
    ProfileNotFound,
    /// The chain of source profiles names a missing profile, or does not end
    /// within `MAX_CHAIN_DEPTH` references.
    ChainUnresolved,
    /// The named profile declares no role to assume.
    RoleArnMissing,
    /// Neither the named profile nor the end of its chain holds an access key.
    AccessKeyMissing,
    /// Neither the named profile nor the end of its chain holds a secret key.
    SecretKeyMissing,
    /// The named profile declares no MFA device.
    MfaSerialMissing,
}

impl ResolveError {
    /// What the error says.
    pub open spec fn spec_message(self) -> Seq<char> {
        match self {
            ResolveError::ProfileNotFound => "Failed to find a profile or source"@,
            ResolveError::ChainUnresolved => "Failed to find a profile or source"@,
            ResolveError::RoleArnMissing => "Failed to find a role to assume in selected profile"@,
            ResolveError::AccessKeyMissing =>
                "Failed to find an access key in source profile for selected profile"@,
            ResolveError::SecretKeyMissing =>
                "Failed to find a secret key in source profile for selected profile"@,
            ResolveError::MfaSerialMissing =>
                "Failed to find a mfa serial to use in selected profile"@,
        }
    }

    /// What the error says.
    pub fn message(&self) -> (r: &'static str)
        ensures
            r@ == self.spec_message(),
    {
        match self {
            ResolveError::ProfileNotFound => "Failed to find a profile or source",
            ResolveError::ChainUnresolved => "Failed to find a profile or source",
            ResolveError::RoleArnMissing => "Failed to find a role to assume in selected profile",
            ResolveError::AccessKeyMissing => {
                "Failed to find an access key in source profile for selected profile"
            },
            ResolveError::SecretKeyMissing => {
                "Failed to find a secret key in source profile for selected profile"
            },
            ResolveError::MfaSerialMissing => {
                "Failed to find a mfa serial to use in selected profile"
            },
        }
    }
}

/// An `AssumeRoleWithMFATokenProviderRequest` as mathematical values.
pub struct RequestView {
    pub role: Seq<char>,
    pub key: Seq<char>,
    pub secret: Seq<char>,
    pub mfa_serial: Seq<char>,
}

/// What resolving the profile `name` among `profiles` gives: the role and
/// the MFA device of the named profile itself, and each key from the named
/// profile or else from the end of its chain.
pub open spec fn resolved(
    profiles: Map<Seq<char>, Map<Seq<char>, Seq<char>>>,
    name: Seq<char>,
) -> Result<RequestView, ResolveError> {
    if !profiles.contains_key(name) {
        Err(ResolveError::ProfileNotFound)
    } else {
        match chain_root(profiles, name, MAX_CHAIN_DEPTH as nat) {
            None => Err(ResolveError::ChainUnresolved),
            Some(root) => {
                let named = profiles[name];
                let order = seq![named, profiles[root]];
                if !named.contains_key("role_arn"@) {
                    Err(ResolveError::RoleArnMissing)
                } else if first_defined("aws_access_key_id"@, order) is None {
                    Err(ResolveError::AccessKeyMissing)
                } else if first_defined("aws_secret_access_key"@, order) is None {
                    Err(ResolveError::SecretKeyMissing)
                } else if !named.contains_key("mfa_serial"@) {
                    Err(ResolveError::MfaSerialMissing)
                } else {
                    Ok(
                        RequestView {
                            role: named["role_arn"@],
                            key: first_defined("aws_access_key_id"@, order)->0,
                            secret: first_defined("aws_secret_access_key"@, order)->0,
                            mfa_serial: named["mfa_serial"@],
                        },
                    )
                }
            },
        }
    }
}

/// What it takes to assume a role with an MFA code: the role, the
/// long-lived key pair that signs the call, and the MFA device.
#[derive(Debug)]
pub struct AssumeRoleWithMFATokenProviderRequest {
    pub role: String,
    pub key: String,
    pub secret: String,
    pub mfa_serial: String,
}

impl View for AssumeRoleWithMFATokenProviderRequest {
    type V = RequestView;

    open spec fn view(&self) -> RequestView {
        RequestView {
            role: self.role@,
            key: self.key@,
            secret: self.secret@,
            mfa_serial: self.mfa_serial@,
        }
    }
}

/// The properties of each of `profiles`, in the same order.
pub open spec fn fields_of_each(profiles: Seq<&Profile>) -> Seq<Map<Seq<char>, Seq<char>>> {
    Seq::new(profiles.len(), |i: int| profile_fields(*profiles[i]))
}

impl AssumeRoleWithMFATokenProviderRequest {
    /// A request made of its four parts.
    pub fn new(role: String, key: String, secret: String, mfa_serial: String) -> (r: Self)
        ensures
            r@ == (RequestView {
                role: role@,
                key: key@,
                secret: secret@,
                mfa_serial: mfa_serial@,
            }),
    {
        Self { role, key, secret, mfa_serial }
    }

    /// Follows the references to a source profile from `profile` to the end
    /// of its chain, over at most `MAX_CHAIN_DEPTH` of them.
    pub fn get_source_profile<'a>(profile: &str, set: &'a ProfileSet) -> (r: Option<&'a Profile>)
        ensures
            match chain_root(profile_set_profiles(*set), profile@, MAX_CHAIN_DEPTH as nat) {
                Some(root) => r is Some && profile_fields(*r->0) == profile_set_profiles(
                    *set,
                )[root],
                None => r is None,
            },
    {
        let ghost profiles = profile_set_profiles(*set);
        let ghost mut name = profile@;
        let mut current = set.get_profile(profile);
        let mut hops: usize = MAX_CHAIN_DEPTH;
        loop
            invariant
                profiles == profile_set_profiles(*set),
                hops <= MAX_CHAIN_DEPTH,
                current is Some <==> profiles.contains_key(name),
                current is Some ==> profile_fields(*current->0) == profiles[name],
                chain_root(profiles, profile@, MAX_CHAIN_DEPTH as nat) == chain_root(
                    profiles,
                    name,
                    hops as nat,
                ),
            decreases hops,
        {
            match current {
                None => {
                    return None;
                },
                Some(found) => {
                    match found.get("source_profile") {
                        None => {
                            return Some(found);
                        },
                        Some(source) => {
                            if hops == 0 {
                                return None;
                            }
                            hops = hops - 1;
                            current = set.get_profile(source);
                            proof {
                                name = source@;
                            }
                        },
                    }
                },
            }
        }
    }

    /// The value of `field` in the first of `profiles` that defines it.
    pub fn extract_field<'a, const N: usize>(field: &str, profiles: &[&'a Profile; N]) -> (r:
        Option<&'a str>)
        ensures
            match first_defined(field@, fields_of_each(profiles@)) {
                Some(value) => r is Some && r->0@ == value,
                None => r is None,
            },
    {
        let ghost all = fields_of_each(profiles@);
        let mut i: usize = 0;
        assert(all.skip(0) =~= all);
        while i < N
            invariant
                i <= N,
                N == profiles@.len(),
                all == fields_of_each(profiles@),
                first_defined(field@, all) == first_defined(field@, all.skip(i as int)),
            decreases N - i,
        {
            let profile: &'a Profile = profiles[i];
            assert(all.skip(i as int)[0] == profile_fields(*profile));
            assert(all.skip(i as int).drop_first() =~= all.skip(i as int + 1));
            match profile.get(field) {
                Some(value) => {
                    return Some(value);
                },
                None => {},
            }
            i = i + 1;
        }
        assert(all.skip(i as int).len() == 0);
        None
    }

    /// Resolves the profile `profile_name` of `set` to the request that
    /// assumes its role.
    pub fn from_profile_set(profile_name: &str, set: &ProfileSet) -> (r: Result<
        Self,
        ResolveError,
    >)
        ensures
            match resolved(profile_set_profiles(*set), profile_name@) {
                Ok(request) => r is Ok && r->Ok_0@ == request,
                Err(error) => r == Err::<Self, ResolveError>(error),
            },
    {
        let profile = match set.get_profile(profile_name) {
            Some(profile) => profile,
            None => {
                return Err(ResolveError::ProfileNotFound);
            },
        };
        let source = match Self::get_source_profile(profile_name, set) {
            Some(source) => source,
            None => {
                return Err(ResolveError::ChainUnresolved);
            },
        };
        let profiles = [profile, source];
        assert(fields_of_each(profiles@) =~= seq![
            profile_fields(*profile),
            profile_fields(*source),
        ]);
        let role = match profile.get("role_arn") {
            Some(role) => role,
            None => {
                return Err(ResolveError::RoleArnMissing);
            },
        };
        let key = match Self::extract_field("aws_access_key_id", &profiles) {
            Some(key) => key,
            None => {
                return Err(ResolveError::AccessKeyMissing);
            },
        };
        let secret = match Self::extract_field("aws_secret_access_key", &profiles) {
            Some(secret) => secret,
            None => {
                return Err(ResolveError::SecretKeyMissing);
            },
        };
        let mfa_serial = match profile.get("mfa_serial") {
            Some(mfa_serial) => mfa_serial,
            None => {
                return Err(ResolveError::MfaSerialMissing);
            },
        };
        Ok(
            AssumeRoleWithMFATokenProviderRequest::new(
                role.to_owned(),
                key.to_owned(),
                secret.to_owned(),
                mfa_serial.to_owned(),
            ),
        )
    }
}

/// What `str::trim` returns for the text `s`: the text without its leading
/// and trailing whitespace. What counts as whitespace is Unicode's
/// White_Space property, which the documentation of `str::trim` refers to
/// and does not list, so the result is named and not written out.
pub uninterp spec fn trimmed(s: Seq<char>) -> Seq<char>;

/// Strips leading and trailing whitespace with `str::trim`; the result is
/// the one the name `trimmed` stands for.
#[verifier::external_body]
fn trim(s: &str) -> (r: &str)
    ensures
        r@ == trimmed(s@),
{
    s.trim()
}

/// The name of the profile that is resolved when none is chosen.
pub open spec fn default_profile() -> Seq<char> {
    "default"@
}

/// The region that is used when none is chosen and none is discovered.
pub open spec fn fallback_region() -> Seq<char> {
    "us-east-1"@
}

/// The name under which the role session is opened.
pub open spec fn session_name() -> Seq<char> {
    "envfmt"@
}

/// The label of the credentials that sign the exchange.
pub open spec fn bootstrap_label() -> Seq<char> {
    "assumed-role-credentials"@
}

/// The label of the credentials that the exchange issues.
pub open spec fn issued_label() -> Seq<char> {
    "AssumeRoleWithMFAToken"@
}

/// The region to operate in: the one chosen, else the one discovered, else
/// the fallback.
pub open spec fn operating_region(chosen: Option<Seq<char>>, discovered: Option<Seq<char>>) -> Seq<
    char,
> {
    match chosen {
        Some(region) => region,
        None => match discovered {
            Some(region) => region,
            None => fallback_region(),
        },
    }
}

/// Decides the region to operate in: the one chosen, else the one
/// discovered, else the fallback.
pub fn choose_region(chosen: &Option<String>, discovered: &Option<String>) -> (r: String)
    ensures
        r@ == operating_region(text_of(*chosen), text_of(*discovered)),
{
    match chosen {
        Some(region) => region.clone(),
        None => match discovered {
            Some(region) => region.clone(),
            None => "us-east-1".to_owned(),
        },
    }
}

/// Session credentials as mathematical values.
pub struct CredentialsView {
    pub access_key_id: Seq<char>,
    pub secret_access_key: Seq<char>,
    pub session_token: Option<Seq<char>>,
    pub provider_name: Seq<char>,
}

/// The credentials of one run: a key pair, the session token if they are
/// temporary, and the label of the method that issued them.
#[derive(Debug)]
pub struct SessionCredentials {
    pub access_key_id: String,
    pub secret_access_key: String,
    pub session_token: Option<String>,
    pub provider_name: &'static str,
}

impl View for SessionCredentials {
    type V = CredentialsView;

    open spec fn view(&self) -> CredentialsView {
        CredentialsView {
            access_key_id: self.access_key_id@,
            secret_access_key: self.secret_access_key@,
            session_token: text_of(self.session_token),
            provider_name: self.provider_name@,
        }
    }
}

/// The credential block of a federation response; the service may leave out
/// any of its fields.
#[derive(Debug)]
pub struct IssuedCredentials {
    pub access_key_id: Option<String>,
    pub secret_access_key: Option<String>,
    pub session_token: Option<String>,
}

/// A call of the federation service as mathematical values.
pub struct AssumeRoleCallView {
    pub credentials: CredentialsView,
    pub region: Seq<char>,
    pub role_arn: Seq<char>,
    pub role_session_name: Seq<char>,
    pub serial_number: Seq<char>,
    pub token_code: Seq<char>,
}

/// One call of the federation service: who signs it, where it goes, and
/// what it asks for.
#[derive(Debug)]
pub struct AssumeRoleCall {
    pub credentials: SessionCredentials,
    pub region: String,
    pub role_arn: String,
    pub role_session_name: String,
    pub serial_number: String,
    pub token_code: String,
}

impl View for AssumeRoleCall {
    type V = AssumeRoleCallView;

    open spec fn view(&self) -> AssumeRoleCallView {
        AssumeRoleCallView {
            credentials: self.credentials@,
            region: self.region@,
            role_arn: self.role_arn@,
            role_session_name: self.role_session_name@,
            serial_number: self.serial_number@,
            token_code: self.token_code@,
        }
    }
}

/// The credentials that sign the exchange: the long-lived key pair of the
/// request, without a session token.
pub open spec fn bootstrap_credentials(request: RequestView) -> CredentialsView {
    CredentialsView {
        access_key_id: request.key,
        secret_access_key: request.secret,
        session_token: None,
        provider_name: bootstrap_label(),
    }
}

/// The call that exchanges the one-time code `token` for the role of
/// `request`, in `region`.
pub open spec fn assume_role_call(request: RequestView, region: Seq<char>, token: Seq<char>) -> AssumeRoleCallView {
    AssumeRoleCallView {
        credentials: bootstrap_credentials(request),
        region,
        role_arn: request.role,
        role_session_name: session_name(),
        serial_number: request.mfa_serial,
        token_code: token,
    }
}

impl AssumeRoleWithMFATokenProviderRequest {
    /// The call that exchanges the one-time code `token` for the role of
    /// this request, in `region`.
    pub fn into_call(self, region: String, token: String) -> (r: AssumeRoleCall)
        ensures
            r@ == assume_role_call(self@, region@, token@),
    {
        AssumeRoleCall {
            credentials: SessionCredentials {
                access_key_id: self.key,
                secret_access_key: self.secret,
                session_token: None,
                provider_name: "assumed-role-credentials",
            },
            region,
            role_arn: self.role,
            role_session_name: "envfmt".to_owned(),
            serial_number: self.mfa_serial,
            token_code: token,
        }
    }
}

/// Why no credentials were provided.
#[derive(Debug)]
pub enum MfaError {
    /// The local profile store could not be loaded.
    ProfilesNotLoaded(String),
    /// The profile did not resolve to a request.
    Unresolved(ResolveError),
    /// The one-time code could not be read.
    PromptFailed(String),
    /// The federation service rejected the exchange.
    ExchangeFailed(String),
    /// The federation service answered without a usable credential block.
    MalformedResponse,
    /// An event arrived that the provider was not waiting for.
    OutOfTurn,
}

impl MfaError {
    /// What the error says.
    pub open spec fn spec_message(self) -> Seq<char> {
        match self {
            MfaError::ProfilesNotLoaded(reason) => reason@,
            MfaError::Unresolved(error) => error.spec_message(),
            MfaError::PromptFailed(reason) => reason@,
            MfaError::ExchangeFailed(reason) => reason@,
            MfaError::MalformedResponse =>
                "Successfully assume role, but not credentials were returned"@,
            MfaError::OutOfTurn => "The credential provider was driven out of turn"@,
        }
    }

    /// What the error says.
    pub fn message(&self) -> (r: String)
        ensures
            r@ == self.spec_message(),
    {
        match self {
            MfaError::ProfilesNotLoaded(reason) => reason.clone(),
            MfaError::Unresolved(error) => error.message().to_owned(),
            MfaError::PromptFailed(reason) => reason.clone(),
            MfaError::ExchangeFailed(reason) => reason.clone(),
            MfaError::MalformedResponse => {
                "Successfully assume role, but not credentials were returned".to_owned()
            },
            MfaError::OutOfTurn => "The credential provider was driven out of turn".to_owned(),
        }
    }
}

/// Where a provider stands between two steps of a resolution.
#[derive(Debug)]
pub enum MfaState {
    /// Nothing has been asked for yet.
    Idle,
    /// The profile store is being loaded.
    LoadingProfiles,
    /// The one-time code is being read from the console.
    AwaitingToken { request: AssumeRoleWithMFATokenProviderRequest, region: String },
    /// The federation service is being called.
    AwaitingRole,
    /// The resolution has ended, with credentials or with an error.
    Finished,
}

/// What came back from the work that the provider asked for.
#[derive(Debug)]
pub enum MfaEvent {
    /// A resolution is asked for.
    Started,
    /// The profile store was loaded; `region` is the region discovered for
    /// the profile, if any.
    ProfilesLoaded { profiles: ProfileSet, region: Option<String> },
    /// The profile store could not be loaded.
    ProfilesFailed(String),
    /// A line was read from the console.
    TokenRead(String),
    /// The console could not be written to or read from.
    TokenFailed(String),
    /// The federation service answered, with or without a credential block.
    RoleAssumed(Option<IssuedCredentials>),
    /// The federation service rejected the exchange.
    RoleRefused(String),
}

/// What the provider asks its caller to do next.
#[derive(Debug)]
pub enum MfaAction {
    /// Load the profile store, and discover the region of this profile.
    LoadProfiles { profile_name: String },
    /// Prompt for the one-time code and read one line.
    PromptToken,
    /// Call the federation service.
    AssumeRole(AssumeRoleCall),
    /// Hand out these credentials.
    Provide(SessionCredentials),
    /// Give up with this error.
    Fail(MfaError),
}

/// The credentials that a federation response issues. It issues none when
/// its credential block, the access key or the secret key is missing.
pub open spec fn issued(response: Option<IssuedCredentials>) -> Option<CredentialsView> {
    match response {
        Some(block) => match (block.access_key_id, block.secret_access_key) {
            (Some(key), Some(secret)) => Some(
                CredentialsView {
                    access_key_id: key@,
                    secret_access_key: secret@,
                    session_token: text_of(block.session_token),
                    provider_name: issued_label(),
                },
            ),
            _ => None,
        },
        None => None,
    }
}

/// Provides the credentials of a role that is assumed with an MFA code.
#[derive(Debug)]
pub struct AssumeRoleWithMFATokenProvider {
    pub profile: Option<String>,
    pub token: Option<String>,
    pub region: Option<String>,
}

impl AssumeRoleWithMFATokenProvider {
    /// A provider for the default profile, which prompts for the one-time
    /// code and discovers its region.
    pub fn new() -> (r: Self)
        ensures
            r.profile is None,
            r.token is None,
            r.region is None,
    {
        Self { profile: None, token: None, region: None }
    }

    /// Chooses the profile to resolve; `None` stands for the default one.
    pub fn set_profile(&mut self, profile: Option<String>) -> (r: &mut Self)
        ensures
            r.profile == profile,
            r.token == old(self).token,
            r.region == old(self).region,
            *final(self) == *final(r),
    {
        self.profile = profile;
        self
    }

    /// Supplies the one-time code; with `None` it is read from the console.
    pub fn set_token(&mut self, token: Option<String>) -> (r: &mut Self)
        ensures
            r.profile == old(self).profile,
            r.token == token,
            r.region == old(self).region,
            *final(self) == *final(r),
    {
        self.token = token;
        self
    }

    /// Chooses the region to operate in; with `None` it is discovered.
    pub fn set_region(&mut self, region: Option<String>) -> (r: &mut Self)
        ensures
            r.profile == old(self).profile,
            r.token == old(self).token,
            r.region == region,
            *final(self) == *final(r),
    {
        self.region = region;
        self
    }

    /// The name of the profile to resolve.
    pub open spec fn spec_profile_name(&self) -> Seq<char> {
        match self.profile {
            Some(name) => name@,
            None => default_profile(),
        }
    }

    /// The name of the profile to resolve: the one chosen, or the default.
    pub fn profile_name(&self) -> (r: String)
        ensures
            r@ == self.spec_profile_name(),
    {
        match &self.profile {
            Some(name) => name.clone(),
            None => "default".to_owned(),
        }
    }
}

impl AssumeRoleWithMFATokenProvider {
    /// Whether `next` is what follows the arrival of the profile store: a
    /// failure when the profile does not resolve; else the exchange itself
    /// when the one-time code was supplied, which is used as it is; else the
    /// prompt for the code.
    pub open spec fn profiles_lead_to(
        &self,
        profiles: ProfileSet,
        discovered: Option<String>,
        next: (MfaState, MfaAction),
    ) -> bool {
        let region = operating_region(text_of(self.region), text_of(discovered));
        match resolved(profile_set_profiles(profiles), self.spec_profile_name()) {
            Err(error) => next.0 is Finished && next.1 == MfaAction::Fail(
                MfaError::Unresolved(error),
            ),
            Ok(request) => match self.token {
                Some(token) => {
                    &&& next.0 is AwaitingRole
                    &&& next.1 matches MfaAction::AssumeRole(call)
                    &&& call@ == assume_role_call(request, region, token@)
                },
                None => {
                    &&& next.1 is PromptToken
                    &&& next.0 matches MfaState::AwaitingToken { request: held, region: kept }
                    &&& held@ == request
                    &&& kept@ == region
                },
            },
        }
    }

    /// Whether `next` is what follows the reading of the line `line`: the
    /// exchange, with the line stripped of surrounding whitespace as code.
    pub open spec fn token_leads_to(
        request: AssumeRoleWithMFATokenProviderRequest,
        region: String,
        line: String,
        next: (MfaState, MfaAction),
    ) -> bool {
        &&& next.0 is AwaitingRole
        &&& next.1 matches MfaAction::AssumeRole(call)
        &&& call@ == assume_role_call(request@, region@, trimmed(line@))
    }

    /// Whether `next` is what follows the answer of the federation service:
    /// the credentials it issued, or a failure when the credential block,
    /// the access key or the secret key is missing.
    pub open spec fn response_leads_to(
        response: Option<IssuedCredentials>,
        next: (MfaState, MfaAction),
    ) -> bool {
        &&& next.0 is Finished
        &&& match issued(response) {
            Some(credentials) => next.1 matches MfaAction::Provide(provided) && provided@
                == credentials,
            None => next.1 == MfaAction::Fail(MfaError::MalformedResponse),
        }
    }

    /// Whether `next` is the state and the action that follow the arrival of
    /// `event` in `state`.
    pub open spec fn follows(
        &self,
        state: MfaState,
        event: MfaEvent,
        next: (MfaState, MfaAction),
    ) -> bool {
        match (state, event) {
            (MfaState::Idle, MfaEvent::Started) => {
                &&& next.0 is LoadingProfiles
                &&& next.1 matches MfaAction::LoadProfiles { profile_name }
                &&& profile_name@ == self.spec_profile_name()
            },
            (MfaState::LoadingProfiles, MfaEvent::ProfilesLoaded { profiles, region }) => {
                self.profiles_lead_to(profiles, region, next)
            },
            (MfaState::LoadingProfiles, MfaEvent::ProfilesFailed(reason)) => {
                next.0 is Finished && next.1 == MfaAction::Fail(MfaError::ProfilesNotLoaded(reason))
            },
            (MfaState::AwaitingToken { request, region }, MfaEvent::TokenRead(line)) => {
                Self::token_leads_to(request, region, line, next)
            },
            (MfaState::AwaitingToken { .. }, MfaEvent::TokenFailed(reason)) => {
                next.0 is Finished && next.1 == MfaAction::Fail(MfaError::PromptFailed(reason))
            },
            (MfaState::AwaitingRole, MfaEvent::RoleAssumed(response)) => {
                Self::response_leads_to(response, next)
            },
            (MfaState::AwaitingRole, MfaEvent::RoleRefused(reason)) => {
                next.0 is Finished && next.1 == MfaAction::Fail(MfaError::ExchangeFailed(reason))
            },
            _ => next.0 is Finished && next.1 == MfaAction::Fail(MfaError::OutOfTurn),
        }
    }

    /// Resolves the profile in the profile store that was loaded, and
    /// decides how the one-time code is obtained.
    pub fn on_profiles(&self, profiles: &ProfileSet, discovered: &Option<String>) -> (r: (
        MfaState,
        MfaAction,
    ))
        ensures
            self.profiles_lead_to(*profiles, *discovered, r),
    {
        let name = self.profile_name();
        match AssumeRoleWithMFATokenProviderRequest::from_profile_set(name.as_str(), profiles) {
            Err(error) => (MfaState::Finished, MfaAction::Fail(MfaError::Unresolved(error))),
            Ok(request) => {
                let region = choose_region(&self.region, discovered);
                match &self.token {
                    Some(token) => (
                        MfaState::AwaitingRole,
                        MfaAction::AssumeRole(request.into_call(region, token.clone())),
                    ),
                    None => (MfaState::AwaitingToken { request, region }, MfaAction::PromptToken),
                }
            },
        }
    }

    /// Takes the line that was read from the console as the one-time code.
    pub fn on_token(
        request: AssumeRoleWithMFATokenProviderRequest,
        region: String,
        line: String,
    ) -> (r: (MfaState, MfaAction))
        ensures
            Self::token_leads_to(request, region, line, r),
    {
        let token = trim(line.as_str()).to_owned();
        (MfaState::AwaitingRole, MfaAction::AssumeRole(request.into_call(region, token)))
    }

    /// Takes the credentials out of the answer of the federation service.
    pub fn on_response(response: Option<IssuedCredentials>) -> (r: (MfaState, MfaAction))
        ensures
            Self::response_leads_to(response, r),
    {
        match response {
            Some(block) => match (block.access_key_id, block.secret_access_key) {
                (Some(access_key_id), Some(secret_access_key)) => (
                    MfaState::Finished,
                    MfaAction::Provide(
                        SessionCredentials {
                            access_key_id,
                            secret_access_key,
                            session_token: block.session_token,
                            provider_name: "AssumeRoleWithMFAToken",
                        },
                    ),
                ),
                _ => (MfaState::Finished, MfaAction::Fail(MfaError::MalformedResponse)),
            },
            None => (MfaState::Finished, MfaAction::Fail(MfaError::MalformedResponse)),
        }
    }

    /// One step of a resolution: takes what came back from the work asked
    /// for last, and says what to do next. Every resolution starts in
    /// `Idle` with `Started` and is over once the state is `Finished`.
    pub fn step(&self, state: MfaState, event: MfaEvent) -> (r: (MfaState, MfaAction))
        ensures
            self.follows(state, event, r),
    {
        match (state, event) {
            (MfaState::Idle, MfaEvent::Started) => (
                MfaState::LoadingProfiles,
                MfaAction::LoadProfiles { profile_name: self.profile_name() },
            ),
            (MfaState::LoadingProfiles, MfaEvent::ProfilesLoaded { profiles, region }) => {
                self.on_profiles(&profiles, &region)
            },
            (MfaState::LoadingProfiles, MfaEvent::ProfilesFailed(reason)) => (
                MfaState::Finished,
                MfaAction::Fail(MfaError::ProfilesNotLoaded(reason)),
            ),
            (MfaState::AwaitingToken { request, region }, MfaEvent::TokenRead(line)) => {
                Self::on_token(request, region, line)
            },
            (MfaState::AwaitingToken { .. }, MfaEvent::TokenFailed(reason)) => (
                MfaState::Finished,
                MfaAction::Fail(MfaError::PromptFailed(reason)),
            ),
            (MfaState::AwaitingRole, MfaEvent::RoleAssumed(response)) => Self::on_response(
                response,
            ),
            (MfaState::AwaitingRole, MfaEvent::RoleRefused(reason)) => (
                MfaState::Finished,
                MfaAction::Fail(MfaError::ExchangeFailed(reason)),
            ),
            _ => (MfaState::Finished, MfaAction::Fail(MfaError::OutOfTurn)),
        }
    }
}

/// Whether `chain` lists profiles of `profiles` of which each names the
/// next as its source profile.
pub open spec fn is_chain(
    profiles: Map<Seq<char>, Map<Seq<char>, Seq<char>>>,
    chain: Seq<Seq<char>>,
) -> bool {
    &&& chain.len() >= 1
    &&& forall|i: int| 0 <= i < chain.len() ==> profiles.contains_key(#[trigger] chain[i])
    &&& forall|i: int|
        0 <= i < chain.len() - 1 ==> {
            &&& profiles[#[trigger] chain[i]].contains_key("source_profile"@)
            &&& profiles[chain[i]]["source_profile"@] == chain[i + 1]
        }
}

proof fn lemma_chain_reaches_its_end(
    profiles: Map<Seq<char>, Map<Seq<char>, Seq<char>>>,
    chain: Seq<Seq<char>>,
    at: int,
    hops: nat,
)
    requires
        is_chain(profiles, chain),
        !profiles[chain.last()].contains_key("source_profile"@),
        0 <= at < chain.len(),
        hops >= chain.len() - 1 - at,
    ensures
        chain_root(profiles, chain[at], hops) == Some(chain.last()),
    decreases chain.len() - at,
{
    if at < chain.len() - 1 {
        lemma_chain_reaches_its_end(profiles, chain, at + 1, (hops - 1) as nat);
    }
}

proof fn lemma_chain_outlasts_hops(
    profiles: Map<Seq<char>, Map<Seq<char>, Seq<char>>>,
    chain: Seq<Seq<char>>,
    at: int,
)
    requires
        is_chain(profiles, chain),
        profiles[chain.last()].contains_key("source_profile"@),
        0 <= at < chain.len(),
    ensures
        chain_root(profiles, chain[at], (chain.len() - 1 - at) as nat) is None,
    decreases chain.len() - at,
{
    if at < chain.len() - 1 {
        lemma_chain_outlasts_hops(profiles, chain, at + 1);
    }
}

proof fn lemma_chain_breaks_off(
    profiles: Map<Seq<char>, Map<Seq<char>, Seq<char>>>,
    chain: Seq<Seq<char>>,
    at: int,
    hops: nat,
)
    requires
        is_chain(profiles, chain),
        profiles[chain.last()].contains_key("source_profile"@),
        !profiles.contains_key(profiles[chain.last()]["source_profile"@]),
        0 <= at < chain.len(),
    ensures
        chain_root(profiles, chain[at], hops) is None,
    decreases chain.len() - at,
{
    if hops > 0 {
        if at < chain.len() - 1 {
            lemma_chain_breaks_off(profiles, chain, at + 1, (hops - 1) as nat);
        } else {
            assert(chain_root(
                profiles,
                profiles[chain.last()]["source_profile"@],
                (hops - 1) as nat,
            ) is None);
        }
    }
}

/// A profile at the head of a chain of at most `MAX_CHAIN_DEPTH` references,
/// whose last profile names no source and holds both keys, resolves to the
/// role and the MFA device of the head and to the keys of the last profile,
/// whatever the length of the chain. This is stated of heads that hold no
/// key of their own that differs from the last profile's, since a profile's
/// own keys go before those it inherits.
pub proof fn chain_resolves_to_root_keys(
    profiles: Map<Seq<char>, Map<Seq<char>, Seq<char>>>,
    chain: Seq<Seq<char>>,
)
    requires
        is_chain(profiles, chain),
        chain.len() <= MAX_CHAIN_DEPTH + 1,
        !profiles[chain.last()].contains_key("source_profile"@),
        profiles[chain.last()].contains_key("aws_access_key_id"@),
        profiles[chain.last()].contains_key("aws_secret_access_key"@),
        profiles[chain[0]].contains_key("role_arn"@),
        profiles[chain[0]].contains_key("mfa_serial"@),
        profiles[chain[0]].contains_key("aws_access_key_id"@)
            ==> profiles[chain[0]]["aws_access_key_id"@]
            == profiles[chain.last()]["aws_access_key_id"@],
        profiles[chain[0]].contains_key("aws_secret_access_key"@)
            ==> profiles[chain[0]]["aws_secret_access_key"@]
            == profiles[chain.last()]["aws_secret_access_key"@],
    ensures
        resolved(profiles, chain[0]) == Ok::<RequestView, ResolveError>(
            RequestView {
                role: profiles[chain[0]]["role_arn"@],
                key: profiles[chain.last()]["aws_access_key_id"@],
                secret: profiles[chain.last()]["aws_secret_access_key"@],
                mfa_serial: profiles[chain[0]]["mfa_serial"@],
            },
        ),
{
    lemma_chain_reaches_its_end(profiles, chain, 0, MAX_CHAIN_DEPTH as nat);
    let order = seq![profiles[chain[0]], profiles[chain.last()]];
    assert(order.drop_first() =~= seq![profiles[chain.last()]]);
    assert(order.drop_first().drop_first() =~= Seq::empty());
    assert(first_defined("aws_access_key_id"@, order.drop_first()) == Some(
        profiles[chain.last()]["aws_access_key_id"@],
    ));
    assert(first_defined("aws_secret_access_key"@, order.drop_first()) == Some(
        profiles[chain.last()]["aws_secret_access_key"@],
    ));
}

/// A profile whose chain of source profiles has not ended after
/// `MAX_CHAIN_DEPTH` references, as every chain that runs in a circle, does
/// not resolve: the resolution fails instead of following it further.
pub proof fn overlong_chain_is_unresolved(
    profiles: Map<Seq<char>, Map<Seq<char>, Seq<char>>>,
    chain: Seq<Seq<char>>,
)
    requires
        is_chain(profiles, chain),
        chain.len() == MAX_CHAIN_DEPTH + 1,
        profiles[chain.last()].contains_key("source_profile"@),
    ensures
        resolved(profiles, chain[0]) == Err::<RequestView, ResolveError>(
            ResolveError::ChainUnresolved,
        ),
{
    lemma_chain_outlasts_hops(profiles, chain, 0);
}

/// A profile whose chain of source profiles names a profile that the set
/// does not hold does not resolve.
pub proof fn broken_chain_is_unresolved(
    profiles: Map<Seq<char>, Map<Seq<char>, Seq<char>>>,
    chain: Seq<Seq<char>>,
)
    requires
        is_chain(profiles, chain),
        profiles[chain.last()].contains_key("source_profile"@),
        !profiles.contains_key(profiles[chain.last()]["source_profile"@]),
    ensures
        resolved(profiles, chain[0]) == Err::<RequestView, ResolveError>(
            ResolveError::ChainUnresolved,
        ),
{
    lemma_chain_breaks_off(profiles, chain, 0, MAX_CHAIN_DEPTH as nat);
}

} // verus!
