//! The account-service response shapes the engine consumes. The
//! network exchange happens outside the library; only the plain data
//! comes through.
use vstd::prelude::*;

verus! {

pub struct AuthenticateResponse {
    pub error: Option<String>,
    pub error_message: Option<String>,
    pub access_token: Option<String>,
    pub client_token: Option<String>,
    pub available_profiles: Option<Vec<AuthenticateResponseProfile>>,
    pub selected_profile: Option<AuthenticateResponseProfile>,
    pub user: Option<AuthenticateResponseUser>,
}

pub struct AuthenticateResponseProfile {
    pub agent: Option<String>,
    pub id: Option<String>,
    pub name: Option<String>,
    pub user_id: Option<String>,
    pub created_at: Option<i64>,
    pub legacy_profile: Option<bool>,
    pub suspended: Option<bool>,
    pub paid: Option<bool>,
    pub migrated: Option<bool>,
    pub legacy: Option<bool>,
}

pub struct AuthenticateResponseUser {
    pub id: Option<String>,
    pub email: Option<String>,
    pub username: Option<String>,
    pub register_ip: Option<String>,
    pub migrated_from: Option<String>,
    pub migrated_at: Option<i64>,
    pub registered_at: Option<i64>,
    pub password_changed_at: Option<i64>,
    pub date_of_birth: Option<u64>,
    pub suspended: Option<bool>,
    pub blocked: Option<bool>,
    pub secured: Option<bool>,
    pub migrated: Option<bool>,
    pub email_verified: Option<bool>,
    pub legacy_user: Option<bool>,
    pub verified_by_parent: Option<bool>,
    pub properties: Option<Vec<UserProperty>>,
}

pub struct RefreshResponse {
    pub error: Option<String>,
    pub error_message: Option<String>,
    pub access_token: Option<String>,
    pub client_token: Option<String>,
    pub selected_profile: Option<RefreshResponseProfile>,
    pub user: Option<RefreshResponseUser>,
}

pub struct RefreshResponseProfile {
    pub id: Option<String>,
    pub name: Option<String>,
}

pub struct RefreshResponseUser {
    pub id: Option<String>,
    pub properties: Option<Vec<UserProperty>>,
}

pub struct UserProperty {
    pub name: String,
    pub value: String,
}

} // verus!
