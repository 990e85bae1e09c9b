//! Webhook registration: the payloads of the hosting API's create-webhook
//! endpoint and the url it is posted to. The HTTP call itself is the
//! surrounding program's.

use vstd::prelude::*;

verus! {

/// Why an API call failed.
#[derive(Debug, Clone, Copy, PartialEq, Eq, Structural)]
pub enum ApiCallError {
    /// The request payload could not be rendered.
    DtoToJsonStringError,
    /// The request could not be sent.
    SendError,
    /// The response body could not be decoded.
    JsonToDtoError,
}

/// The body of a create-webhook request.
#[derive(Debug, Clone, PartialEq, Eq)]
pub struct GithubWebhookCreateDto {
    pub name: String,
    pub active: bool,
    pub events: Vec<String>,
    pub config: GithhubWebhookConfigDto,
}

/// A webhook as the hosting API reports it.
#[derive(Debug, Clone, PartialEq, Eq)]
pub struct GithubWebhookDto {
    pub type_field: String,
    pub id: i64,
    pub name: String,
    pub active: bool,
    pub events: Vec<String>,
    pub config: GithhubWebhookConfigDto,
    pub updated_at: String,
    pub created_at: String,
    pub url: String,
    pub test_url: String,
    pub ping_url: String,
    pub deliveries_url: String,
}

/// A webhook's delivery configuration.
#[derive(Debug, Clone, PartialEq, Eq)]
pub struct GithhubWebhookConfigDto {
    pub content_type: String,
    pub insecure_ssl: String,
    pub url: String,
}

/// The authorization header value the API client sends: `Bearer ` + token.
pub fn bearer_header_value(token: &String) -> (r: String)
    ensures
        r@ == "Bearer "@ + token@,
{
    "Bearer ".to_owned().concat(token.as_str())
}

/// The create-webhook endpoint for one repository:
/// `https://api.github.com/repos/{owner}/{repo}/hooks`.
pub fn create_webhook_url(owner_name: &String, repo_name: &String) -> (r: String)
    ensures
        r@ == "https://api.github.com/repos/"@ + owner_name@ + "/"@ + repo_name@ + "/hooks"@,
{
    let mut url = "https://api.github.com/repos/".to_owned();
    url.append(owner_name.as_str());
    url.append("/");
    url.append(repo_name.as_str());
    url.append("/hooks");
    url
}

/// The request body registering an active push-event webhook that delivers
/// JSON to `delivery_url`.
pub fn push_webhook_create_dto(delivery_url: String) -> (r: GithubWebhookCreateDto)
    ensures
        r.name@ == "web"@,
        r.active,
        r.events.deep_view() == seq!["push"@],
        r.config.content_type@ == "json"@,
        r.config.insecure_ssl@ == "0"@,
        r.config.url@ == delivery_url@,
{
    let mut events: Vec<String> = Vec::new();
    events.push("push".to_owned());
    proof {
        assert(events.deep_view() =~= seq!["push"@]);
    }
    GithubWebhookCreateDto {
        name: "web".to_owned(),
        active: true,
        events,
        config: GithhubWebhookConfigDto {
            content_type: "json".to_owned(),
            insecure_ssl: "0".to_owned(),
            url: delivery_url,
        },
    }
}

} // verus!
