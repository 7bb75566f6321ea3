//! Named credential profiles and the in-memory store that owns them.
//!
//! A profile is created empty (name only) and becomes *initialized* exactly
//! when credentials are stored into it; the access token, refresh token and
//! expiry are always set together, never one at a time. The store keeps the
//! profiles in insertion order and enforces name uniqueness at insertion.
//! Durable persistence (reading and writing the backing file) is left to an
//! unverified shell; the store offers the encode/decode half of it through
//! [`crate::json`].

use vstd::prelude::*;

verus! {

/// Failures of the profile store. `Filesystem` is never produced by the
/// verified store itself; it exists so that an unverified persistence shell
/// can report I/O trouble in the same taxonomy.
#[derive(Clone, Copy, Debug, PartialEq, Eq, Structural)]
pub enum ConfigError {
    /// A profile with the requested name is already registered.
    AlreadyExists,
    /// No profile with the requested name exists.
    NotFound,
    /// The persisted document does not decode to a well-formed store.
    Malformed,
    /// Reading or writing the backing file failed.
    Filesystem,
}

/// The mathematical content of one profile: every field as a plain value.
pub struct ProfileData {
    pub name: Seq<char>,
    pub vendor_id: Option<Seq<char>>,
    pub access_token: Option<Seq<char>>,
    pub refresh_token: Option<Seq<char>>,
    pub token_type: Seq<char>,
    pub expires_at: Option<u64>,
}

/// One named credential record. `expires_at` is an absolute UTC timestamp in
/// whole seconds since the Unix epoch.
#[derive(Debug)]
pub struct ConfigProfile {
    pub name: String,
    pub vendor_id: Option<String>,
    pub access_token: Option<String>,
    pub refresh_token: Option<String>,
    pub token_type: String,
    pub expires_at: Option<u64>,
}

impl View for ConfigProfile {
    type V = ProfileData;

    open spec fn view(&self) -> ProfileData {
        ProfileData {
            name: self.name@,
            vendor_id: match self.vendor_id {
                Some(v) => Some(v@),
                None => None,
            },
            access_token: match self.access_token {
                Some(v) => Some(v@),
                None => None,
            },
            refresh_token: match self.refresh_token {
                Some(v) => Some(v@),
                None => None,
            },
            token_type: self.token_type@,
            expires_at: self.expires_at,
        }
    }
}

/// `a + b`, stopping at the largest representable timestamp instead of
/// wrapping.
pub open spec fn spec_sat_add(a: u64, b: u64) -> u64 {
    if a + b <= u64::MAX {
        (a + b) as u64
    } else {
        u64::MAX
    }
}

/// The lifecycle invariant: the three credential fields are set together or
/// not at all.
pub open spec fn profile_wf(p: ProfileData) -> bool {
    &&& p.access_token.is_some() == p.refresh_token.is_some()
    &&& p.access_token.is_some() == p.expires_at.is_some()
}

/// A profile is initialized exactly when it carries an access token.
pub open spec fn profile_initialized(p: ProfileData) -> bool {
    p.access_token.is_some()
}

/// A profile is valid at instant `now` when it is initialized and its expiry
/// lies strictly in the future.
pub open spec fn profile_valid_at(p: ProfileData, now: u64) -> bool {
    profile_initialized(p) && match p.expires_at {
        Some(e) => e > now,
        None => false,
    }
}

/// Relies on std's `SystemTime::now` and `SystemTime::duration_since` for
/// the current UTC time in whole seconds since the Unix epoch; a host clock
/// set before the epoch reads as zero, so the call never panics. Nothing
/// can be promised of a clock reading, so callers state only what holds of
/// every possible instant.
#[verifier::external_body]
pub(crate) fn now_seconds() -> u64 {
    match std::time::SystemTime::now().duration_since(std::time::UNIX_EPOCH) {
        Ok(elapsed) => elapsed.as_secs(),
        Err(_) => 0,
    }
}

/// Character-for-character string equality, proved rather than assumed.
pub fn str_eq(a: &str, b: &str) -> (r: bool)
    ensures
        r == (a@ == b@),
{
    let la = a.unicode_len();
    let lb = b.unicode_len();
    if la != lb {
        return false;
    }
    let mut i: usize = 0;
    while i < la
        invariant
            la == a@.len() && lb == b@.len() && la == lb,
            i <= la,
            forall|j: int| 0 <= j < i ==> a@[j] == b@[j],
        decreases la - i,
    {
        if a.get_char(i) != b.get_char(i) {
            return false;
        }
        i += 1;
    }
    proof {
        assert(a@ =~= b@);
    }
    true
}

impl Clone for ConfigProfile {
    fn clone(&self) -> (r: Self)
        ensures
            r@ == self@,
    {
        ConfigProfile {
            name: self.name.clone(),
            vendor_id: match &self.vendor_id {
                Some(v) => Some(v.clone()),
                None => None,
            },
            access_token: match &self.access_token {
                Some(v) => Some(v.clone()),
                None => None,
            },
            refresh_token: match &self.refresh_token {
                Some(v) => Some(v.clone()),
                None => None,
            },
            token_type: self.token_type.clone(),
            expires_at: self.expires_at,
        }
    }
}

impl ConfigProfile {
    /// A freshly registered profile: named, uninitialized, bearer-typed.
    pub fn new(name: String) -> (r: Self)
        ensures
            r@.name == name@,
            r@.vendor_id is None,
            r@.access_token is None,
            r@.refresh_token is None,
            r@.token_type == "Bearer"@,
            r@.expires_at is None,
            profile_wf(r@),
            !profile_initialized(r@),
    {
        ConfigProfile {
            name,
            vendor_id: None,
            access_token: None,
            refresh_token: None,
            token_type: String::from_str("Bearer"),
            expires_at: None,
        }
    }

    /// Store fresh credentials, all lifecycle fields together, with the
    /// expiry computed from the given instant. The name and token type are
    /// untouched.
    pub fn init_at(
        &mut self,
        access_token: String,
        refresh_token: String,
        expires_in: u64,
        vendor_id: String,
        now: u64,
    )
        ensures
            final(self)@ == (ProfileData {
                vendor_id: Some(vendor_id@),
                access_token: Some(access_token@),
                refresh_token: Some(refresh_token@),
                expires_at: Some(spec_sat_add(now, expires_in)),
                ..old(self)@
            }),
            profile_wf(final(self)@),
            profile_initialized(final(self)@),
    {
        self.vendor_id = Some(vendor_id);
        self.access_token = Some(access_token);
        self.refresh_token = Some(refresh_token);
        self.expires_at = Some(if expires_in <= u64::MAX - now {
            now + expires_in
        } else {
            u64::MAX
        });
    }

    /// As [`Self::init_at`], but against the real clock. The exact expiry
    /// depends on the instant the clock returned, so only its presence is
    /// promised here; callers that need the exact value use `init_at`.
    pub fn init(
        &mut self,
        access_token: String,
        refresh_token: String,
        expires_in: u64,
        vendor_id: String,
    )
        ensures
            final(self)@.name == old(self)@.name,
            final(self)@.token_type == old(self)@.token_type,
            final(self)@.vendor_id == Some(vendor_id@),
            final(self)@.access_token == Some(access_token@),
            final(self)@.refresh_token == Some(refresh_token@),
            final(self)@.expires_at is Some,
            profile_wf(final(self)@),
            profile_initialized(final(self)@),
    {
        let now = now_seconds();
        self.init_at(access_token, refresh_token, expires_in, vendor_id, now);
    }

    /// Whether credentials have ever been stored into this profile.
    pub fn is_initialized(&self) -> (r: bool)
        ensures
            r == profile_initialized(self@),
    {
        self.access_token.is_some()
    }

    /// Whether the stored credential may be presented at instant `now`.
    pub fn is_valid_at(&self, now: u64) -> (r: bool)
        ensures
            r == profile_valid_at(self@, now),
    {
        self.is_initialized() && match self.expires_at {
            Some(e) => e > now,
            None => false,
        }
    }

    /// As [`Self::is_valid_at`], but against the real clock. Whatever
    /// instant the clock returned, a valid profile is initialized, carries
    /// an expiry, and (when well formed) a refresh token.
    pub fn is_valid(&self) -> (r: bool)
        ensures
            r ==> profile_initialized(self@),
            r ==> self@.expires_at is Some,
            profile_wf(self@) && r ==> self@.refresh_token is Some,
    {
        let now = now_seconds();
        self.is_valid_at(now)
    }
}

/// Initialization is exactly the presence of an access token, and validity
/// never outruns initialization, at any instant.
pub proof fn lemma_valid_implies_initialized(p: ProfileData, now: u64)
    ensures
        profile_initialized(p) == p.access_token.is_some(),
        profile_valid_at(p, now) ==> profile_initialized(p),
{
}

/// The index of the first profile with the given name, if any.
pub open spec fn spec_find(ps: Seq<ProfileData>, name: Seq<char>) -> Option<int>
    decreases ps.len(),
{
    if ps.len() == 0 {
        None
    } else if ps[0].name == name {
        Some(0)
    } else {
        match spec_find(ps.skip(1), name) {
            Some(i) => Some(i + 1),
            None => None,
        }
    }
}

/// What a successful find promises: an in-range index of a profile with that
/// name.
pub proof fn lemma_find_some(ps: Seq<ProfileData>, name: Seq<char>)
    ensures
        match spec_find(ps, name) {
            Some(i) => 0 <= i < ps.len() && ps[i].name == name,
            None => forall|i: int| 0 <= i < ps.len() ==> ps[i].name != name,
        },
    decreases ps.len(),
{
    if ps.len() > 0 && ps[0].name != name {
        lemma_find_some(ps.skip(1), name);
        match spec_find(ps.skip(1), name) {
            Some(i) => {
                assert(ps.skip(1)[i] == ps[i + 1]);
            },
            None => {
                assert forall|i: int| 0 <= i < ps.len() implies ps[i].name != name by {
                    if i > 0 {
                        assert(ps.skip(1)[i - 1] == ps[i]);
                    }
                }
            },
        }
    }
}

/// The store invariant: every profile is well formed and no two share a
/// name.
pub open spec fn config_wf(ps: Seq<ProfileData>) -> bool {
    &&& forall|i: int| 0 <= i < ps.len() ==> profile_wf(#[trigger] ps[i])
    &&& forall|i: int, j: int|
        0 <= i < ps.len() && 0 <= j < ps.len() && i != j ==> ps[i].name != ps[j].name
}

/// The in-memory registry of profiles, in insertion order.
#[derive(Debug)]
pub struct Config {
    profiles: Vec<ConfigProfile>,
}

impl View for Config {
    type V = Seq<ProfileData>;

    closed spec fn view(&self) -> Seq<ProfileData> {
        self.profiles@.map_values(|p: ConfigProfile| p@)
    }
}

impl Config {
    /// A store with no profiles.
    pub fn empty() -> (r: Self)
        ensures
            r@ == Seq::<ProfileData>::empty(),
            config_wf(r@),
    {
        let r = Config { profiles: Vec::new() };
        proof {
            assert(r@ =~= Seq::<ProfileData>::empty());
        }
        r
    }

    /// Rebuild a store from decoded profiles; used by the decoding path
    /// after it has checked well-formedness.
    pub fn from_profiles(profiles: Vec<ConfigProfile>) -> (r: Self)
        ensures
            r@ == profiles@.map_values(|p: ConfigProfile| p@),
    {
        Config { profiles }
    }

    /// How many profiles are registered.
    pub fn len(&self) -> (r: usize)
        ensures
            r == self@.len(),
    {
        self.profiles.len()
    }

    /// The profile at a position, for enumeration.
    pub fn profile_at(&self, i: usize) -> (r: &ConfigProfile)
        requires
            i < self@.len(),
        ensures
            r@ == self@[i as int],
    {
        &self.profiles[i]
    }

    /// Exact-match lookup by name: the first profile carrying `name`, or
    /// `None` when no profile does.
    pub fn get_profile(&self, name: &str) -> (r: Option<&ConfigProfile>)
        ensures
            match r {
                Some(p) => {
                    &&& spec_find(self@, name@) matches Some(i) && p@ == self@[i]
                    &&& p@.name == name@
                },
                None => spec_find(self@, name@) is None,
            },
    {
        proof {
            lemma_find_some(self@, name@);
        }
        let mut i: usize = 0;
        while i < self.profiles.len()
            invariant
                i <= self.profiles.len(),
                forall|j: int| 0 <= j < i ==> self@[j].name != name@,
            decreases self.profiles.len() - i,
        {
            if str_eq(self.profiles[i].name.as_str(), name) {
                proof {
                    lemma_find_first_hit(self@, name@, i as int);
                }
                return Some(&self.profiles[i]);
            }
            i += 1;
        }
        proof {
            if spec_find(self@, name@) matches Some(k) {
                lemma_find_some(self@, name@);
            }
        }
        None
    }

    /// Register a new profile. A duplicate name is refused with
    /// `AlreadyExists` and leaves the store unchanged; otherwise the profile
    /// is appended.
    pub fn add_profile(&mut self, profile: &ConfigProfile) -> (r: Result<(), ConfigError>)
        ensures
            match r {
                Ok(()) => {
                    &&& spec_find(old(self)@, profile@.name) is None
                    &&& final(self)@ == old(self)@.push(profile@)
                },
                Err(e) => {
                    &&& e == ConfigError::AlreadyExists
                    &&& spec_find(old(self)@, profile@.name) is Some
                    &&& final(self)@ == old(self)@
                },
            },
            config_wf(old(self)@) && profile_wf(profile@) && r is Ok ==> config_wf(final(self)@),
    {
        if self.get_profile(profile.name.as_str()).is_some() {
            return Err(ConfigError::AlreadyExists);
        }
        proof {
            lemma_find_some(self@, profile@.name);
        }
        let ghost pre = self@;
        self.profiles.push(profile.clone());
        proof {
            assert(self@ =~= pre.push(profile@));
            if config_wf(pre) && profile_wf(profile@) {
                assert forall|i: int, j: int|
                    0 <= i < self@.len() && 0 <= j < self@.len() && i != j implies self@[i].name
                    != self@[j].name by {
                    if i < pre.len() && j < pre.len() {
                    } else if i == pre.len() {
                        assert(self@[j].name != profile@.name);
                    } else {
                        assert(self@[i].name != profile@.name);
                    }
                }
            }
        }
        Ok(())
    }

    /// Overwrite the four credential-lifecycle fields of the named profile
    /// together, with the expiry computed from the given instant. Everything
    /// else about the store, and the profile's name and token type, are
    /// untouched. Fails with `NotFound` when no such profile exists.
    #[verifier::loop_isolation(false)]
    pub fn update_profile_tokens_at(
        &mut self,
        name: &str,
        access_token: String,
        refresh_token: String,
        expires_in: u64,
        vendor_id: String,
        now: u64,
    ) -> (r: Result<(), ConfigError>)
        ensures
            match r {
                Ok(()) => {
                    &&& spec_find(old(self)@, name@) matches Some(i) && final(self)@ == old(
                        self,
                    )@.update(
                        i,
                        ProfileData {
                            vendor_id: Some(vendor_id@),
                            access_token: Some(access_token@),
                            refresh_token: Some(refresh_token@),
                            expires_at: Some(spec_sat_add(now, expires_in)),
                            ..old(self)@[i]
                        },
                    )
                },
                Err(e) => {
                    &&& e == ConfigError::NotFound
                    &&& spec_find(old(self)@, name@) is None
                    &&& final(self)@ == old(self)@
                },
            },
            config_wf(old(self)@) && r is Ok ==> config_wf(final(self)@),
    {
        proof {
            lemma_find_some(self@, name@);
        }
        let ghost pre = self@;
        let mut i: usize = 0;
        while i < self.profiles.len()
            invariant
                i <= self.profiles.len(),
                forall|j: int| 0 <= j < i ==> self@[j].name != name@,
                self@ == pre,
            decreases self.profiles.len() - i,
        {
            if str_eq(self.profiles[i].name.as_str(), name) {
                proof {
                    lemma_find_first_hit(self@, name@, i as int);
                }
                let p = &mut self.profiles[i];
                p.init_at(access_token, refresh_token, expires_in, vendor_id, now);
                proof {
                    assert(self@ =~= pre.update(
                        i as int,
                        ProfileData {
                            vendor_id: Some(vendor_id@),
                            access_token: Some(access_token@),
                            refresh_token: Some(refresh_token@),
                            expires_at: Some(spec_sat_add(now, expires_in)),
                            ..pre[i as int]
                        },
                    ));
                    if config_wf(pre) {
                        assert forall|a: int, b: int|
                            0 <= a < self@.len() && 0 <= b < self@.len() && a != b implies self@[
                            a].name != self@[b].name by {
                            assert(self@[a].name == pre[a].name);
                            assert(self@[b].name == pre[b].name);
                        }
                    }
                }
                return Ok(());
            }
            i += 1;
        }
        proof {
            if spec_find(self@, name@) matches Some(k) {
                lemma_find_some(self@, name@);
            }
        }
        Err(ConfigError::NotFound)
    }

    /// As [`Self::update_profile_tokens_at`], but against the real clock:
    /// all four lifecycle fields are still overwritten together, only the
    /// exact expiry depends on the instant the clock returned.
    pub fn update_profile_tokens(
        &mut self,
        name: &str,
        access_token: String,
        refresh_token: String,
        expires_in: u64,
        vendor_id: String,
    ) -> (r: Result<(), ConfigError>)
        ensures
            match r {
                Ok(()) => {
                    &&& spec_find(old(self)@, name@) matches Some(i) && {
                        &&& final(self)@.len() == old(self)@.len()
                        &&& final(self)@[i].name == old(self)@[i].name
                        &&& final(self)@[i].token_type == old(self)@[i].token_type
                        &&& final(self)@[i].vendor_id == Some(vendor_id@)
                        &&& final(self)@[i].access_token == Some(access_token@)
                        &&& final(self)@[i].refresh_token == Some(refresh_token@)
                        &&& final(self)@[i].expires_at is Some
                        &&& forall|j: int|
                            0 <= j < old(self)@.len() && j != i ==> final(self)@[j] == old(
                                self,
                            )@[j]
                    }
                },
                Err(e) => {
                    &&& e == ConfigError::NotFound
                    &&& spec_find(old(self)@, name@) is None
                    &&& final(self)@ == old(self)@
                },
            },
            config_wf(old(self)@) && r is Ok ==> config_wf(final(self)@),
    {
        let now = now_seconds();
        let r = self.update_profile_tokens_at(
            name,
            access_token,
            refresh_token,
            expires_in,
            vendor_id,
            now,
        );
        proof {
            lemma_find_some(old(self)@, name@);
        }
        r
    }
}

/// When a scan has ruled out every position before `i` and position `i`
/// matches, the first hit is exactly `i`.
proof fn lemma_find_first_hit(ps: Seq<ProfileData>, name: Seq<char>, i: int)
    requires
        0 <= i < ps.len(),
        ps[i].name == name,
        forall|j: int| 0 <= j < i ==> ps[j].name != name,
    ensures
        spec_find(ps, name) == Some(i),
    decreases i,
{
    if i > 0 {
        assert(ps.skip(1)[i - 1] == ps[i]);
        assert forall|j: int| 0 <= j < i - 1 implies ps.skip(1)[j].name != name by {
            assert(ps.skip(1)[j] == ps[j + 1]);
        }
        lemma_find_first_hit(ps.skip(1), name, i - 1);
    }
}

} // verus!
