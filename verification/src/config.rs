//! Application configuration types.
//!
//! Loading the configuration from disk is the application's concern; the
//! types themselves, and the defaults the rest of the logic relies on, live
//! here.

use vstd::prelude::*;

verus! {

/// How to authenticate against the remote service.
#[derive(Debug, Clone, Copy, PartialEq, Eq, Structural)]
pub enum AuthType {
    /// Auto-detect from the URL: a cloud-hosted domain uses cloud
    /// authentication, everything else on-premise.
    Auto,
    /// Cloud: basic authentication with email and API token.
    Cloud,
    /// On-premise: bearer authentication with a personal access token,
    /// falling back to basic authentication.
    Onpremise,
}

impl Default for AuthType {
    fn default() -> (r: Self)
        ensures
            r == AuthType::Auto,
    {
        AuthType::Auto
    }
}

/// Connection settings for the remote issue tracker.
#[derive(Debug, Clone)]
pub struct JiraConfig {
    pub url: String,
    pub email: String,
    /// Custom field name for the epic link.
    pub epic_field: Option<String>,
    pub auth_type: AuthType,
}

/// Board view settings.
#[derive(Debug, Clone)]
pub struct BoardsConfig {
    /// Swimlane names to hide in board views, lowercased.
    pub hide_swimlanes: Vec<String>,
}

impl Default for BoardsConfig {
    fn default() -> (r: Self)
        ensures
            r.hide_swimlanes@.len() == 0,
    {
        BoardsConfig { hide_swimlanes: Vec::new() }
    }
}

/// The application configuration.
#[derive(Debug, Clone)]
pub struct Config {
    pub jira: JiraConfig,
    pub default_project: Option<String>,
    /// Custom title for the header; defaults to the service domain.
    pub title: Option<String>,
    pub boards: BoardsConfig,
}

} // verus!
