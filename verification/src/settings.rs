//! The user settings of the chat model, as shown and as updated.
use vstd::prelude::*;

use crate::text::chars_of;
use crate::text::string_of;
use crate::runtime::key_hint_of;
use crate::runtime::redact_key;
use crate::runtime::DeepSeekConfig;

verus! {

/// The chat-model settings shown to the user. The key is never shown: `deepseek_api_key`
/// holds only its masked hint.
#[derive(Debug, Clone)]
pub struct UserSettings {
    pub deepseek_api_key: String,
    pub deepseek_model: String,
    pub deepseek_base_url: String,
}

/// A change of the chat-model settings: each field given is stored.
#[derive(Debug, Clone)]
pub struct UpdateUserSettingsPayload {
    pub deepseek_api_key: Option<String>,
    pub deepseek_model: Option<String>,
    pub deepseek_base_url: Option<String>,
}

/// A text made of the characters of a literal.
fn text(value: &str) -> (r: String)
    ensures
        r@ == value@,
{
    string_of(chars_of(value).as_slice())
}

/// The settings shown: the masked hint of the configured key (whether it is set, and at most
/// a fragment of it), the model and the endpoint; or, without a configuration, an empty key
/// field with the default model and endpoint.
pub fn user_settings_from(config: Option<DeepSeekConfig>) -> (r: UserSettings)
    ensures
        config matches Some(c) ==> r.deepseek_api_key@ == key_hint_of(c.api_key@) && r.deepseek_model
            == c.model && r.deepseek_base_url == c.base_url,
        config is None ==> r.deepseek_api_key@.len() == 0 && r.deepseek_model@ == "deepseek-v4-flash"@
            && r.deepseek_base_url@ == "https://api.deepseek.com"@,
{
    match config {
        Some(c) => UserSettings {
            deepseek_api_key: redact_key(c.api_key.as_str()),
            deepseek_model: c.model,
            deepseek_base_url: c.base_url,
        },
        None => UserSettings {
            deepseek_api_key: String::new(),
            deepseek_model: text("deepseek-v4-flash"),
            deepseek_base_url: text("https://api.deepseek.com"),
        },
    }
}

/// The (key, value) pairs an update stores: the API key, the model, the endpoint, each only
/// when given.
pub open spec fn entries_to_store(payload: UpdateUserSettingsPayload) -> Seq<(Seq<char>, Seq<char>)> {
    (match payload.deepseek_api_key {
        Some(v) => seq![("DEEPSEEK_API_KEY"@, v@)],
        None => seq![],
    }) + (match payload.deepseek_model {
        Some(v) => seq![("DEEPSEEK_MODEL"@, v@)],
        None => seq![],
    }) + (match payload.deepseek_base_url {
        Some(v) => seq![("DEEPSEEK_BASE_URL"@, v@)],
        None => seq![],
    })
}

/// The views of (key, value) pairs.
pub open spec fn setting_views(pairs: Seq<(String, String)>) -> Seq<(Seq<char>, Seq<char>)> {
    pairs.map_values(|p: (String, String)| (p.0@, p.1@))
}

/// The settings an update stores, as (key, value) pairs.
pub fn settings_to_store(payload: UpdateUserSettingsPayload) -> (r: Vec<(String, String)>)
    ensures
        setting_views(r@) == entries_to_store(payload),
{
    let ghost expected = entries_to_store(payload);
    let mut out: Vec<(String, String)> = Vec::new();
    match payload.deepseek_api_key {
        Some(key) => out.push((text("DEEPSEEK_API_KEY"), key)),
        None => {},
    }
    match payload.deepseek_model {
        Some(model) => out.push((text("DEEPSEEK_MODEL"), model)),
        None => {},
    }
    match payload.deepseek_base_url {
        Some(url) => out.push((text("DEEPSEEK_BASE_URL"), url)),
        None => {},
    }
    assert(setting_views(out@) =~= expected);
    out
}

} // verus!
