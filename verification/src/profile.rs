//! Congregation profiles: DTOs, settings defaults and the rules applied
//! before a profile row is written.

use vstd::prelude::*;

use crate::content::{seed_has, validate_content_locale, ContentLanguageDto};
use crate::error::AppError;
use crate::text::{concat2, owned, trim, trim_seq, utf8_len, utf8_len_within, chars_of};
use crate::week::{err_says, opt_view};

verus! {

/// Opaque profile identifier (a UUID string over IPC).
#[derive(Debug, Clone)]
pub struct ProfileId(pub String);

impl ProfileId {
    /// Borrows the UUID string.
    pub fn as_str(&self) -> (s: &str)
        ensures
            s@ == self.0@,
    {
        self.0.as_str()
    }
}

/// Profile row as seen by the console. `content_locale` is a JW `langwritten` code.
#[derive(Debug, Clone)]
pub struct ProfileDto {
    pub id: ProfileId,
    pub name: String,
    pub ui_locale: String,
    pub content_locale: String,
    pub media_provider: String,
    pub created_at: String,
    pub updated_at: String,
}

/// Payload for creating a profile. New profiles start with UI locale `en`.
#[derive(Debug, Clone)]
pub struct CreateProfileDto {
    pub name: String,
}

/// Payload for selecting a profile.
#[derive(Debug, Clone)]
pub struct SelectProfileDto {
    pub id: String,
}

/// Payload for a partial profile update. Only provided fields are written.
#[derive(Debug, Clone)]
pub struct UpdateProfileDto {
    pub id: String,
    pub name: Option<String>,
    pub ui_locale: Option<String>,
    pub content_locale: Option<String>,
}

/// Lookup key for one settings cell.
#[derive(Debug, Clone)]
pub struct SettingKeyDto {
    pub profile_id: String,
    pub key: String,
}

/// One settings cell: a JSON object string for a named key.
#[derive(Debug, Clone)]
pub struct SettingDto {
    pub profile_id: String,
    pub key: String,
    pub value_json: String,
}

/// Console appearance stored per profile.
#[derive(Debug, Clone)]
pub struct AppearanceSetting {
    pub theme: String,
    pub accent: String,
    pub density: String,
}

impl Default for AppearanceSetting {
    fn default() -> (r: AppearanceSetting)
        ensures
            r.theme@ == "system"@,
            r.accent@ == "blue"@,
            r.density@ == "compact"@,
    {
        AppearanceSetting { theme: owned("system"), accent: owned("blue"), density: owned("compact") }
    }
}

/// Operator right-panel chrome stored per profile.
#[derive(Debug, Clone)]
pub struct PanelSetting {
    pub collapsed: bool,
    pub width: u32,
}

impl Default for PanelSetting {
    fn default() -> (r: PanelSetting)
        ensures
            !r.collapsed,
            r.width == 280,
    {
        PanelSetting { collapsed: false, width: 280 }
    }
}

/// Storage of congregation profiles; the database layer implements it.
pub trait ProfileStore {
    /// Every profile, name order.
    fn list(&self) -> Result<Vec<ProfileDto>, AppError>;

    /// Inserts a profile. `ui_locale` is always `en` for a new row.
    fn create(&self, input: CreateProfileDto) -> Result<ProfileDto, AppError>;

    /// Marks the profile as last used.
    fn select(&self, id: &ProfileId) -> Result<ProfileDto, AppError>;

    /// Last used profile, or `NotFound` when there is none.
    fn selected(&self) -> Result<ProfileDto, AppError>;

    /// Partial update of name, UI locale and content locale.
    fn update(&self, input: UpdateProfileDto) -> Result<ProfileDto, AppError>;

    /// One profile by id.
    fn get(&self, id: &ProfileId) -> Result<ProfileDto, AppError>;
}

/// The complaint about a congregation name, if any (its trimmed text must
/// be 1 to 80 bytes).
pub open spec fn profile_name_problem(name: Seq<char>) -> Option<Seq<char>> {
    let t = trim_seq(name);
    if t.len() == 0 {
        Some("profile name is required"@)
    } else if utf8_len(t) > 80 {
        Some("profile name is too long"@)
    } else {
        None
    }
}

/// Trims and rejects empty or overly long congregation names.
pub fn validate_profile_name(name: &str) -> (r: Result<String, AppError>)
    ensures
        match profile_name_problem(name@) {
            None => r is Ok && r->Ok_0@ == trim_seq(name@),
            Some(msg) => r is Err && err_says(r->Err_0, msg),
        },
{
    let trimmed = trim(name);
    let cs = chars_of(trimmed.as_str());
    if cs.len() == 0 {
        return Err(AppError::rule("profile name is required"));
    }
    match utf8_len_within(&cs, 80) {
        Some(_) => Ok(trimmed),
        None => Err(AppError::rule("profile name is too long")),
    }
}

/// Name of a duplicated profile: `{name} (copy)`.
pub fn duplicate_name(name: &str) -> (r: String)
    ensures
        r@ == name@ + " (copy)"@,
{
    concat2(name, " (copy)")
}

/// A profile may be deleted only while another one remains.
pub fn check_delete(count: i64) -> (r: Result<(), AppError>)
    ensures
        r is Ok <==> count > 1,
        r is Err ==> r->Err_0 is LastProfile,
{
    if count <= 1 {
        return Err(AppError::LastProfile);
    }
    Ok(())
}

/// Whether every provided field of a partial update is acceptable.
pub open spec fn update_ok(
    name: Option<Seq<char>>,
    ui_locale: Option<Seq<char>>,
    content_locale: Option<Seq<char>>,
    seed: Seq<ContentLanguageDto>,
) -> bool {
    &&& (name matches Some(n) ==> profile_name_problem(n) is None)
    &&& (ui_locale matches Some(u) ==> trim_seq(u).len() != 0)
    &&& (content_locale matches Some(c) ==> trim_seq(c).len() != 0 && seed_has(seed, trim_seq(c)))
}

/// Name, UI locale and content locale to write for a partial update of a
/// profile whose current values are given: provided fields are validated
/// and trimmed, missing ones kept.
pub fn updated_fields(
    current_name: String,
    current_ui: String,
    current_content: String,
    input: &UpdateProfileDto,
    seed: &Vec<ContentLanguageDto>,
) -> (r: Result<(String, String, String), AppError>)
    ensures
        match r {
            Ok((n, u, c)) => {
                &&& n@ == (match input.name {
                    Some(x) => trim_seq(x@),
                    None => current_name@,
                })
                &&& u@ == (match input.ui_locale {
                    Some(x) => trim_seq(x@),
                    None => current_ui@,
                })
                &&& c@ == (match input.content_locale {
                    Some(x) => trim_seq(x@),
                    None => current_content@,
                })
                &&& update_ok(opt_view(input.name), opt_view(input.ui_locale), opt_view(input.content_locale), seed@)
            },
            Err(e) => match input.name {
                Some(x) if profile_name_problem(x@) is Some => err_says(e, profile_name_problem(x@)->0),
                _ => match input.ui_locale {
                    Some(u) if trim_seq(u@).len() == 0 => err_says(e, "ui_locale is required"@),
                    _ => e is UnknownContentLanguage && !update_ok(opt_view(input.name), opt_view(input.ui_locale), opt_view(input.content_locale), seed@),
                },
            },
        },
{
    let name = match &input.name {
        Some(raw) => match validate_profile_name(raw.as_str()) {
            Ok(n) => n,
            Err(e) => return Err(e),
        },
        None => current_name,
    };
    let ui = match &input.ui_locale {
        Some(raw) => {
            let t = trim(raw.as_str());
            if t.as_str().is_empty() {
                return Err(AppError::rule("ui_locale is required"));
            }
            t
        },
        None => current_ui,
    };
    let content = match &input.content_locale {
        Some(raw) => match validate_content_locale(raw.as_str(), seed) {
            Ok(c) => c,
            Err(e) => return Err(e),
        },
        None => current_content,
    };
    Ok((name, ui, content))
}

} // verus!
