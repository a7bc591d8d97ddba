//! The settings of the two programs.

use vstd::prelude::*;

verus! {

/// Where the controller listens.
#[derive(Debug)]
pub struct ServerConfig {
    pub host: String,
    pub port: u16,
}

impl Default for ServerConfig {
    /// All interfaces, port 4000.
    fn default() -> (r: Self)
        ensures
            r.host@ == "0.0.0.0"@,
            r.port == 4000,
    {
        ServerConfig { host: "0.0.0.0".to_owned(), port: 4000 }
    }
}

impl Clone for ServerConfig {
    fn clone(&self) -> (r: Self)
        ensures
            r.host@ == self.host@,
            r.port == self.port,
    {
        ServerConfig { host: self.host.clone(), port: self.port }
    }
}

/// The settings of a worker agent.
#[derive(Debug)]
pub struct AgentConfig {
    pub controller_url: String,
    pub token: String,
    pub concurrency: u32,
    pub ffmpeg_path: String,
    pub job_timeout_secs: u64,
    pub upload_max_retries: u32,
    pub request_connect_timeout_secs: u64,
    pub request_timeout_secs: u64,
}

impl Clone for AgentConfig {
    fn clone(&self) -> (r: Self)
        ensures
            r.controller_url@ == self.controller_url@,
            r.token@ == self.token@,
            r.concurrency == self.concurrency,
            r.ffmpeg_path@ == self.ffmpeg_path@,
            r.job_timeout_secs == self.job_timeout_secs,
            r.upload_max_retries == self.upload_max_retries,
            r.request_connect_timeout_secs == self.request_connect_timeout_secs,
            r.request_timeout_secs == self.request_timeout_secs,
    {
        AgentConfig {
            controller_url: self.controller_url.clone(),
            token: self.token.clone(),
            concurrency: self.concurrency,
            ffmpeg_path: self.ffmpeg_path.clone(),
            job_timeout_secs: self.job_timeout_secs,
            upload_max_retries: self.upload_max_retries,
            request_connect_timeout_secs: self.request_connect_timeout_secs,
            request_timeout_secs: self.request_timeout_secs,
        }
    }
}

} // verus!
