//! Target configuration types.

use vstd::prelude::*;
use crate::data::text::owned;

verus! {

/// Target configuration.
#[derive(Debug, Clone)]
pub enum TargetConfig {
    BaseVn { basevn: BaseVnConfig },
}

/// Base.vn-specific configuration.
#[derive(Debug, Clone)]
pub struct BaseVnConfig {
    pub base_url: String,
    pub app: String,
    pub entity: String,
    pub auth: AuthConfig,
    pub options: BaseVnOptions,
}

/// Default Base.vn API base URL.
pub fn default_basevn_base_url() -> (r: String)
    ensures
        r@ == "https://api.base.vn"@,
{
    owned("https://api.base.vn")
}

/// Authentication configuration.
#[derive(Debug, Clone)]
pub struct AuthConfig {
    pub auth_type: AuthType,
    pub token: Option<String>,
}

/// Authentication type.
#[derive(Debug, Clone, Copy, PartialEq, Eq, Structural)]
pub enum AuthType {
    AccessToken,
}

/// Base.vn API options.
#[derive(Debug, Clone)]
pub struct BaseVnOptions {
    pub batch_size: usize,
    pub rate_limit: usize,
    pub timeout: u64,
    pub max_retries: usize,
}

impl Default for BaseVnOptions {
    fn default() -> (r: Self)
        ensures
            r.batch_size == 100,
            r.rate_limit == 10,
            r.timeout == 30,
            r.max_retries == 3,
    {
        BaseVnOptions {
            batch_size: default_batch_size(),
            rate_limit: default_rate_limit(),
            timeout: default_timeout(),
            max_retries: default_max_retries(),
        }
    }
}

/// Default batch size (records per API call).
pub fn default_batch_size() -> (r: usize)
    ensures
        r == 100,
{
    100
}

/// Default rate limit (requests per second).
pub fn default_rate_limit() -> (r: usize)
    ensures
        r == 10,
{
    10
}

/// Default request timeout (seconds).
pub fn default_timeout() -> (r: u64)
    ensures
        r == 30,
{
    30
}

/// Default maximum retry attempts of a batch.
pub fn default_max_retries() -> (r: usize)
    ensures
        r == 3,
{
    3
}

} // verus!
