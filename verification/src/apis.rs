//! The consumer side of a credential: the validity gate that every API
//! call passes before a bearer token is handed out, and the verified pieces
//! of the skill-package export call (its URL, its authorization header and
//! its success shape). The network exchange itself lives in an unverified
//! shell.

use vstd::prelude::*;

use crate::config::{
    config_wf, profile_initialized, profile_valid_at, spec_find, spec_sat_add, Config, ConfigError,
    ProfileData,
};
use crate::auth::TokenResponse;
use crate::json::{parse_lit, parse_string, sp_lit, sp_string};

verus! {

/// The stage of a skill a package operation addresses.
#[derive(Clone, Copy, Debug, PartialEq, Eq, Structural)]
pub enum SkillStage {
    Development,
    Live,
}

/// How a stage is written in request paths.
pub open spec fn spec_stage_name(stage: SkillStage) -> Seq<char> {
    match stage {
        SkillStage::Development => "development"@,
        SkillStage::Live => "live"@,
    }
}

impl SkillStage {
    /// The stage's name as it appears in request paths.
    pub fn stage_name(&self) -> (r: String)
        ensures
            r@ == spec_stage_name(*self),
    {
        match self {
            SkillStage::Development => String::from_str("development"),
            SkillStage::Live => String::from_str("live"),
        }
    }
}

/// A successful export request: where to fetch the package and the export's
/// identifier.
#[derive(Debug)]
pub struct ExportSkillPackageResponse {
    pub location: String,
    pub export_id: String,
}

/// The export endpoint for one skill and stage.
pub open spec fn spec_export_url(skill_id: Seq<char>, stage: SkillStage) -> Seq<char> {
    "https://api.amazonalexa.com/v1/skills/"@ + skill_id + "/stages/"@ + spec_stage_name(stage)
        + "/exports"@
}

/// Build the export endpoint URL.
pub fn export_url(skill_id: &str, stage: &SkillStage) -> (r: String)
    ensures
        r@ == spec_export_url(skill_id@, *stage),
{
    let mut url = String::from_str("https://api.amazonalexa.com/v1/skills/");
    url.append(skill_id);
    url.append("/stages/");
    let name = stage.stage_name();
    url.append(name.as_str());
    url.append("/exports");
    url
}

/// The `Authorization` header value for one access token.
pub fn bearer_header(access_token: &str) -> (r: String)
    ensures
        r@ == "Bearer "@ + access_token@,
{
    let mut h = String::from_str("Bearer ");
    h.append(access_token);
    h
}

/// What the validity gate decides for one lookup.
#[derive(Clone, Copy, Debug, PartialEq, Eq, Structural)]
pub enum GateDecision {
    /// The profile is valid: present its bearer token.
    UseToken,
    /// The profile is initialized but stale and auto-refresh is engaged:
    /// refresh first, with the stored refresh token.
    Refresh,
    /// No profile of that name exists.
    NotFound,
    /// The profile cannot be used: uninitialized, or stale with no usable
    /// refresh path.
    NotValid,
}

/// What the validity check decides: look the profile up by name; a valid
/// profile is used; a stale one is refreshed only when auto-refresh is
/// engaged and a refresh token is stored; everything else is turned away.
pub open spec fn spec_gate_decision(
    ps: Seq<ProfileData>,
    name: Seq<char>,
    auto_refresh: bool,
    now: u64,
) -> GateDecision {
    match spec_find(ps, name) {
        None => GateDecision::NotFound,
        Some(i) => if profile_valid_at(ps[i], now) {
            GateDecision::UseToken
        } else if auto_refresh && ps[i].refresh_token is Some {
            GateDecision::Refresh
        } else {
            GateDecision::NotValid
        },
    }
}

/// The outcome of the validity check, with its payload.
pub enum TokenGate {
    /// The ready `Authorization` header value.
    Header { value: String },
    /// The stored refresh token to exchange before proceeding.
    RefreshNeeded { refresh_token: String },
    NotFound,
    NotValid,
}

/// Pass the validity gate for a named profile at instant `now`. No network
/// is touched here: when a refresh is owed, the stored refresh token is
/// handed back and the caller performs the exchange and stores the result
/// before asking again.
pub fn bearer_for_profile(cfg: &Config, name: &str, auto_refresh: bool, now: u64) -> (r: TokenGate)
    ensures
        match spec_gate_decision(cfg@, name@, auto_refresh, now) {
            GateDecision::UseToken => r matches TokenGate::Header { value } && (spec_find(
                cfg@,
                name@,
            ) matches Some(i) && value@ == "Bearer "@ + cfg@[i].access_token.unwrap()),
            GateDecision::Refresh => r matches TokenGate::RefreshNeeded { refresh_token } && (
            spec_find(cfg@, name@) matches Some(i) && refresh_token@ == cfg@[
                i
            ].refresh_token.unwrap()),
            GateDecision::NotFound => r is NotFound,
            GateDecision::NotValid => r is NotValid,
        },
{
    proof {
        crate::config::lemma_find_some(cfg@, name@);
    }
    match cfg.get_profile(name) {
        None => TokenGate::NotFound,
        Some(p) => {
            if p.is_valid_at(now) {
                TokenGate::Header { value: bearer_header(p.access_token.as_ref().unwrap().as_str()) }
            } else if auto_refresh && p.refresh_token.is_some() {
                TokenGate::RefreshNeeded { refresh_token: p.refresh_token.as_ref().unwrap().clone() }
            } else {
                TokenGate::NotValid
            }
        },
    }
}

/// Store a refreshed credential into its profile: the token quadruple is
/// written together, the vendor identifier is kept (empty when none was
/// recorded yet), and the expiry is recomputed from `now`.
pub fn apply_refresh(cfg: &mut Config, name: &str, token: TokenResponse, now: u64) -> (r: Result<
    (),
    ConfigError,
>)
    ensures
        match r {
            Ok(()) => {
                &&& spec_find(old(cfg)@, name@) matches Some(i) && final(cfg)@ == old(
                    cfg,
                )@.update(
                    i,
                    ProfileData {
                        vendor_id: Some(
                            match old(cfg)@[i].vendor_id {
                                Some(v) => v,
                                None => Seq::empty(),
                            },
                        ),
                        access_token: Some(token.access_token@),
                        refresh_token: Some(token.refresh_token@),
                        expires_at: Some(spec_sat_add(now, token.expires_in)),
                        ..old(cfg)@[i]
                    },
                )
            },
            Err(e) => {
                &&& e == ConfigError::NotFound
                &&& spec_find(old(cfg)@, name@) is None
                &&& final(cfg)@ == old(cfg)@
            },
        },
        config_wf(old(cfg)@) && r is Ok ==> config_wf(final(cfg)@),
{
    proof {
        crate::config::lemma_find_some(cfg@, name@);
    }
    let vendor: String = match cfg.get_profile(name) {
        Some(p) => match &p.vendor_id {
            Some(v) => v.clone(),
            None => String::new(),
        },
        None => {
            return Err(ConfigError::NotFound);
        },
    };
    cfg.update_profile_tokens_at(
        name,
        token.access_token,
        token.refresh_token,
        token.expires_in,
        vendor,
        now,
    )
}

/// A stale but initialized profile is sent to refresh exactly when
/// auto-refresh is engaged; with auto-refresh off it is turned away, so
/// no exchange is ever owed.
pub proof fn lemma_gate_on_expired_profile(ps: Seq<ProfileData>, name: Seq<char>, now: u64)
    requires
        config_wf(ps),
        spec_find(ps, name) matches Some(i) && profile_initialized(ps[i]) && !profile_valid_at(
            ps[i],
            now,
        ),
    ensures
        spec_gate_decision(ps, name, true, now) is Refresh,
        spec_gate_decision(ps, name, false, now) is NotValid,
{
    crate::config::lemma_find_some(ps, name);
}

/// A refresh that grants at least one second of life leaves the profile
/// valid at the instant the expiry was computed from.
pub proof fn lemma_refresh_restores_validity(p: ProfileData, token_expiry: u64, now: u64)
    requires
        p.access_token is Some,
        p.expires_at == Some(spec_sat_add(now, token_expiry)),
        token_expiry >= 1,
        now < u64::MAX,
    ensures
        profile_valid_at(p, now),
{
}

/// An export success body: the package location and the export identifier,
/// when the body is exactly that.
pub open spec fn sp_export(s: Seq<char>) -> Option<(Seq<char>, Seq<char>)> {
    match sp_lit(s, "{\"location\":"@) {
        None => None,
        Some(s1) => match sp_string(s1) {
            None => None,
            Some((loc, s2)) => match sp_lit(s2, ",\"export_id\":"@) {
                None => None,
                Some(s3) => match sp_string(s3) {
                    None => None,
                    Some((eid, s4)) => match sp_lit(s4, "}"@) {
                        Some(r) => if r.len() == 0 {
                            Some((loc, eid))
                        } else {
                            None
                        },
                        None => None,
                    },
                },
            },
        },
    }
}

/// Decode an export success body, read off its canonical spelling.
pub fn parse_export_response(body: &Vec<char>) -> (r: Option<ExportSkillPackageResponse>)
    ensures
        match r {
            Some(e) => sp_export(crate::auth::spec_canonical_body(body@)) == Some(
                (e.location@, e.export_id@),
            ),
            None => sp_export(crate::auth::spec_canonical_body(body@)) is None,
        },
{
    let body = &crate::auth::canonical_body(body);
    proof {
        assert(body@.skip(0) =~= body@);
    }
    let s1 = match parse_lit(body, 0, "{\"location\":") {
        Some(j) => j,
        None => {
            return None;
        },
    };
    let (loc, s2) = match parse_string(body, s1) {
        Some(v) => v,
        None => {
            return None;
        },
    };
    let s3 = match parse_lit(body, s2, ",\"export_id\":") {
        Some(j) => j,
        None => {
            return None;
        },
    };
    let (eid, s4) = match parse_string(body, s3) {
        Some(v) => v,
        None => {
            return None;
        },
    };
    let s5 = match parse_lit(body, s4, "}") {
        Some(j) => j,
        None => {
            return None;
        },
    };
    if s5 == body.len() {
        proof {
            assert(body@.skip(s5 as int).len() == 0);
        }
        Some(ExportSkillPackageResponse { location: loc, export_id: eid })
    } else {
        None
    }
}

} // verus!
