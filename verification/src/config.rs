//! Configuration: the recognized sections and keys, their defaults, and a
//! reader for the agent's TOML configuration text.
//!
//! Reading the configuration file from disk is the caller's part;
//! `Config::load` takes the file text. The reader understands the subset
//! of TOML the configuration uses: `[section]` headers and
//! `key = value` lines with string, integer, boolean and integer-array
//! values; `#` starts a comment.

use vstd::prelude::*;
use crate::types::{AgentError, AgentResult};

verus! {

pub struct ServerConfig {
    pub url: String,
    pub cert_pin: String,
    pub client_cert: String,
    pub client_key: String,
    pub public_key: Option<String>,
    pub timeout_seconds: Option<u64>,
}

pub struct AgentConfig {
    pub id: String,
    pub rotation_interval: u64,
    pub grace_period: u64,
    pub rotation_threshold_seconds: Option<u64>,
}

pub struct TpmConfig {
    pub enabled: bool,
    pub fallback_encrypted_storage: Option<String>,
}

pub struct ManagementConfig {
    pub allowed_uids: Vec<u32>,
    pub ipc_socket_path: Option<String>,
    pub api_port: Option<u16>,
    pub rate_limit_requests_per_minute: Option<u64>,
}

pub struct DegradedModeConfig {
    pub enabled: bool,
    pub grace_period_days: u64,
    pub retry_interval_seconds: u64,
    pub auto_deactivate_on_reconnect: bool,
    pub alert_thresholds_hours: Vec<u64>,
}

pub struct Config {
    pub server: ServerConfig,
    pub agent: AgentConfig,
    pub tpm: TpmConfig,
    pub management: ManagementConfig,
    pub degraded_mode: DegradedModeConfig,
    pub config_path: String,
}

/// The default rotation-check interval: one day.
pub fn default_rotation_interval() -> (r: u64)
    ensures
        r == 86400,
{
    86400
}

/// The default grace period: seven days.
pub fn default_grace_period() -> (r: u64)
    ensures
        r == 604800,
{
    604800
}

/// What `Config::validate` accepts: an HTTPS server URL and non-zero
/// rotation and grace intervals. (Whether the client certificate and key
/// paths exist on disk is checked by the caller, which owns the
/// filesystem.)
pub open spec fn https_prefix() -> Seq<u8> {
    seq![104u8, 116u8, 116u8, 112u8, 115u8, 58u8, 47u8, 47u8]
}

pub open spec fn config_ok(c: &Config) -> bool {
    &&& vstd::utf8::encode_utf8(c.server.url@).len() >= 8
    &&& vstd::utf8::encode_utf8(c.server.url@).subrange(0, 8) == https_prefix()
    &&& c.agent.rotation_interval > 0
    &&& c.agent.grace_period > 0
}

impl Config {
    /// Reads and validates a configuration from its file text.
    pub fn load(text: &str) -> (r: AgentResult<Config>)
        ensures
            r matches Ok(c) ==> config_ok(&c),
    {
        let entries = toml_entries(text)?;
        let c = config_of_entries(&entries)?;
        match c.validate() {
            Ok(u) => Ok(c),
            Err(e) => Err(e),
        }
    }

    /// Checks the loaded values: the server URL must be HTTPS and the
    /// intervals non-zero.
    pub fn validate(&self) -> (r: AgentResult<()>)
        ensures
            r is Ok <==> config_ok(self),
    {
        let url_bytes = self.server.url.as_str().as_bytes();
        if url_bytes.len() < 8 {
            return Err(AgentError::ConfigError("Server URL must use HTTPS".to_owned()));
        }
        let prefix: &[u8] = &url_bytes[0..8];
        let mut expected: Vec<u8> = Vec::new();
        expected.push(104);
        expected.push(116);
        expected.push(116);
        expected.push(112);
        expected.push(115);
        expected.push(58);
        expected.push(47);
        expected.push(47);
        proof {
            assert(expected@ =~= https_prefix());
            assert(prefix@ =~= vstd::utf8::encode_utf8(self.server.url@).subrange(0, 8));
        }
        if !crate::crypto::constant_time_compare(prefix, expected.as_slice()) {
            return Err(AgentError::ConfigError("Server URL must use HTTPS".to_owned()));
        }
        if self.agent.rotation_interval == 0 {
            return Err(AgentError::ConfigError("Rotation interval must be > 0".to_owned()));
        }
        if self.agent.grace_period == 0 {
            return Err(AgentError::ConfigError("Grace period must be > 0".to_owned()));
        }
        Ok(())
    }

    /// Where this configuration was loaded from, as recorded by the caller.
    pub fn config_path(&self) -> (r: &String)
        ensures
            r@ == self.config_path@,
    {
        &self.config_path
    }

    /// Records where the configuration text came from.
    pub fn set_config_path(&mut self, path: String)
        ensures
            final(self).config_path@ == path@,
    {
        self.config_path = path;
    }

    /// The state-file path.
    pub fn state_path(&self) -> (r: String)
        ensures
            r@ == "/var/lib/license-agent/state.json"@,
    {
        String::from_str("/var/lib/license-agent/state.json")
    }

    /// The audit-log path.
    pub fn audit_log_path(&self) -> (r: String)
        ensures
            r@ == "/var/log/license-agent/audit.log"@,
    {
        String::from_str("/var/log/license-agent/audit.log")
    }

    /// The IPC socket path: the configured one, or the default.
    pub fn ipc_socket_path(&self) -> (r: String)
        ensures
            match self.management.ipc_socket_path {
                Some(p) => r@ == p@,
                None => r@ == "/var/run/license-agent.sock"@,
            },
    {
        match &self.management.ipc_socket_path {
            Some(p) => p.clone(),
            None => String::from_str("/var/run/license-agent.sock"),
        }
    }
}

impl Default for ServerConfig {
    /// An example server endpoint with the default timeout.
    fn default() -> (r: ServerConfig)
        ensures
            r.timeout_seconds == Some(30u64),
    {
        ServerConfig {
            url: String::from_str("https://license-server.example.com"),
            cert_pin: String::new(),
            client_cert: String::from_str("/etc/license-agent/client.pem"),
            client_key: String::from_str("/etc/license-agent/client.key"),
            public_key: None,
            timeout_seconds: Some(30),
        }
    }
}

impl Default for DegradedModeConfig {
    /// Enabled, a seven-day grace horizon, five-minute retries,
    /// auto-deactivation, and alerts at one, three and six days.
    fn default() -> (r: DegradedModeConfig)
        ensures
            r.enabled,
            r.grace_period_days == 7,
            r.retry_interval_seconds == 300,
            r.auto_deactivate_on_reconnect,
            r.alert_thresholds_hours@.len() == 3,
    {
        let mut thresholds: Vec<u64> = Vec::new();
        thresholds.push(24);
        thresholds.push(72);
        thresholds.push(144);
        DegradedModeConfig {
            enabled: true,
            grace_period_days: 7,
            retry_interval_seconds: 300,
            auto_deactivate_on_reconnect: true,
            alert_thresholds_hours: thresholds,
        }
    }
}

/// Section and key names of the configuration file.
pub open spec fn l_sec_server() -> Seq<u8> {
    seq![115u8, 101u8, 114u8, 118u8, 101u8, 114u8]
}

pub open spec fn l_sec_agent() -> Seq<u8> {
    seq![97u8, 103u8, 101u8, 110u8, 116u8]
}

pub open spec fn l_sec_tpm() -> Seq<u8> {
    seq![116u8, 112u8, 109u8]
}

pub open spec fn l_sec_management() -> Seq<u8> {
    seq![109u8, 97u8, 110u8, 97u8, 103u8, 101u8, 109u8, 101u8, 110u8, 116u8]
}

pub open spec fn l_sec_degraded_mode() -> Seq<u8> {
    seq![100u8, 101u8, 103u8, 114u8, 97u8, 100u8, 101u8, 100u8, 95u8, 109u8, 111u8, 100u8, 101u8]
}

pub open spec fn l_key_url() -> Seq<u8> {
    seq![117u8, 114u8, 108u8]
}

pub open spec fn l_key_cert_pin() -> Seq<u8> {
    seq![99u8, 101u8, 114u8, 116u8, 95u8, 112u8, 105u8, 110u8]
}

pub open spec fn l_key_client_cert() -> Seq<u8> {
    seq![99u8, 108u8, 105u8, 101u8, 110u8, 116u8, 95u8, 99u8, 101u8, 114u8, 116u8]
}

pub open spec fn l_key_client_key() -> Seq<u8> {
    seq![99u8, 108u8, 105u8, 101u8, 110u8, 116u8, 95u8, 107u8, 101u8, 121u8]
}

pub open spec fn l_key_public_key() -> Seq<u8> {
    seq![112u8, 117u8, 98u8, 108u8, 105u8, 99u8, 95u8, 107u8, 101u8, 121u8]
}

pub open spec fn l_key_timeout_seconds() -> Seq<u8> {
    seq![116u8, 105u8, 109u8, 101u8, 111u8, 117u8, 116u8, 95u8, 115u8, 101u8, 99u8, 111u8, 110u8, 100u8, 115u8]
}

pub open spec fn l_key_id() -> Seq<u8> {
    seq![105u8, 100u8]
}

pub open spec fn l_key_rotation_interval() -> Seq<u8> {
    seq![114u8, 111u8, 116u8, 97u8, 116u8, 105u8, 111u8, 110u8, 95u8, 105u8, 110u8, 116u8, 101u8, 114u8, 118u8, 97u8, 108u8]
}

pub open spec fn l_key_grace_period() -> Seq<u8> {
    seq![103u8, 114u8, 97u8, 99u8, 101u8, 95u8, 112u8, 101u8, 114u8, 105u8, 111u8, 100u8]
}

pub open spec fn l_key_rotation_threshold_seconds() -> Seq<u8> {
    seq![114u8, 111u8, 116u8, 97u8, 116u8, 105u8, 111u8, 110u8, 95u8, 116u8, 104u8, 114u8, 101u8, 115u8, 104u8, 111u8, 108u8, 100u8, 95u8, 115u8, 101u8, 99u8, 111u8, 110u8, 100u8, 115u8]
}

pub open spec fn l_key_enabled() -> Seq<u8> {
    seq![101u8, 110u8, 97u8, 98u8, 108u8, 101u8, 100u8]
}

pub open spec fn l_key_fallback_encrypted_storage() -> Seq<u8> {
    seq![102u8, 97u8, 108u8, 108u8, 98u8, 97u8, 99u8, 107u8, 95u8, 101u8, 110u8, 99u8, 114u8, 121u8, 112u8, 116u8, 101u8, 100u8, 95u8, 115u8, 116u8, 111u8, 114u8, 97u8, 103u8, 101u8]
}

pub open spec fn l_key_allowed_uids() -> Seq<u8> {
    seq![97u8, 108u8, 108u8, 111u8, 119u8, 101u8, 100u8, 95u8, 117u8, 105u8, 100u8, 115u8]
}

pub open spec fn l_key_ipc_socket_path() -> Seq<u8> {
    seq![105u8, 112u8, 99u8, 95u8, 115u8, 111u8, 99u8, 107u8, 101u8, 116u8, 95u8, 112u8, 97u8, 116u8, 104u8]
}

pub open spec fn l_key_grace_period_days() -> Seq<u8> {
    seq![103u8, 114u8, 97u8, 99u8, 101u8, 95u8, 112u8, 101u8, 114u8, 105u8, 111u8, 100u8, 95u8, 100u8, 97u8, 121u8, 115u8]
}

pub open spec fn l_key_retry_interval_seconds() -> Seq<u8> {
    seq![114u8, 101u8, 116u8, 114u8, 121u8, 95u8, 105u8, 110u8, 116u8, 101u8, 114u8, 118u8, 97u8, 108u8, 95u8, 115u8, 101u8, 99u8, 111u8, 110u8, 100u8, 115u8]
}

pub open spec fn l_key_auto_deactivate_on_reconnect() -> Seq<u8> {
    seq![97u8, 117u8, 116u8, 111u8, 95u8, 100u8, 101u8, 97u8, 99u8, 116u8, 105u8, 118u8, 97u8, 116u8, 101u8, 95u8, 111u8, 110u8, 95u8, 114u8, 101u8, 99u8, 111u8, 110u8, 110u8, 101u8, 99u8, 116u8]
}

pub open spec fn l_key_alert_thresholds_hours() -> Seq<u8> {
    seq![97u8, 108u8, 101u8, 114u8, 116u8, 95u8, 116u8, 104u8, 114u8, 101u8, 115u8, 104u8, 111u8, 108u8, 100u8, 115u8, 95u8, 104u8, 111u8, 117u8, 114u8, 115u8]
}

fn b_sec_server() -> (r: Vec<u8>)
    ensures
        r@ == l_sec_server(),
{
    let mut v: Vec<u8> = Vec::new();
    v.push(115);
    v.push(101);
    v.push(114);
    v.push(118);
    v.push(101);
    v.push(114);
    proof {
        assert(v@ =~= l_sec_server());
    }
    v
}

fn b_sec_agent() -> (r: Vec<u8>)
    ensures
        r@ == l_sec_agent(),
{
    let mut v: Vec<u8> = Vec::new();
    v.push(97);
    v.push(103);
    v.push(101);
    v.push(110);
    v.push(116);
    proof {
        assert(v@ =~= l_sec_agent());
    }
    v
}

fn b_sec_tpm() -> (r: Vec<u8>)
    ensures
        r@ == l_sec_tpm(),
{
    let mut v: Vec<u8> = Vec::new();
    v.push(116);
    v.push(112);
    v.push(109);
    proof {
        assert(v@ =~= l_sec_tpm());
    }
    v
}

fn b_sec_management() -> (r: Vec<u8>)
    ensures
        r@ == l_sec_management(),
{
    let mut v: Vec<u8> = Vec::new();
    v.push(109);
    v.push(97);
    v.push(110);
    v.push(97);
    v.push(103);
    v.push(101);
    v.push(109);
    v.push(101);
    v.push(110);
    v.push(116);
    proof {
        assert(v@ =~= l_sec_management());
    }
    v
}

fn b_sec_degraded_mode() -> (r: Vec<u8>)
    ensures
        r@ == l_sec_degraded_mode(),
{
    let mut v: Vec<u8> = Vec::new();
    v.push(100);
    v.push(101);
    v.push(103);
    v.push(114);
    v.push(97);
    v.push(100);
    v.push(101);
    v.push(100);
    v.push(95);
    v.push(109);
    v.push(111);
    v.push(100);
    v.push(101);
    proof {
        assert(v@ =~= l_sec_degraded_mode());
    }
    v
}

fn b_key_url() -> (r: Vec<u8>)
    ensures
        r@ == l_key_url(),
{
    let mut v: Vec<u8> = Vec::new();
    v.push(117);
    v.push(114);
    v.push(108);
    proof {
        assert(v@ =~= l_key_url());
    }
    v
}

fn b_key_cert_pin() -> (r: Vec<u8>)
    ensures
        r@ == l_key_cert_pin(),
{
    let mut v: Vec<u8> = Vec::new();
    v.push(99);
    v.push(101);
    v.push(114);
    v.push(116);
    v.push(95);
    v.push(112);
    v.push(105);
    v.push(110);
    proof {
        assert(v@ =~= l_key_cert_pin());
    }
    v
}

fn b_key_client_cert() -> (r: Vec<u8>)
    ensures
        r@ == l_key_client_cert(),
{
    let mut v: Vec<u8> = Vec::new();
    v.push(99);
    v.push(108);
    v.push(105);
    v.push(101);
    v.push(110);
    v.push(116);
    v.push(95);
    v.push(99);
    v.push(101);
    v.push(114);
    v.push(116);
    proof {
        assert(v@ =~= l_key_client_cert());
    }
    v
}

fn b_key_client_key() -> (r: Vec<u8>)
    ensures
        r@ == l_key_client_key(),
{
    let mut v: Vec<u8> = Vec::new();
    v.push(99);
    v.push(108);
    v.push(105);
    v.push(101);
    v.push(110);
    v.push(116);
    v.push(95);
    v.push(107);
    v.push(101);
    v.push(121);
    proof {
        assert(v@ =~= l_key_client_key());
    }
    v
}

fn b_key_public_key() -> (r: Vec<u8>)
    ensures
        r@ == l_key_public_key(),
{
    let mut v: Vec<u8> = Vec::new();
    v.push(112);
    v.push(117);
    v.push(98);
    v.push(108);
    v.push(105);
    v.push(99);
    v.push(95);
    v.push(107);
    v.push(101);
    v.push(121);
    proof {
        assert(v@ =~= l_key_public_key());
    }
    v
}

fn b_key_timeout_seconds() -> (r: Vec<u8>)
    ensures
        r@ == l_key_timeout_seconds(),
{
    let mut v: Vec<u8> = Vec::new();
    v.push(116);
    v.push(105);
    v.push(109);
    v.push(101);
    v.push(111);
    v.push(117);
    v.push(116);
    v.push(95);
    v.push(115);
    v.push(101);
    v.push(99);
    v.push(111);
    v.push(110);
    v.push(100);
    v.push(115);
    proof {
        assert(v@ =~= l_key_timeout_seconds());
    }
    v
}

fn b_key_id() -> (r: Vec<u8>)
    ensures
        r@ == l_key_id(),
{
    let mut v: Vec<u8> = Vec::new();
    v.push(105);
    v.push(100);
    proof {
        assert(v@ =~= l_key_id());
    }
    v
}

fn b_key_rotation_interval() -> (r: Vec<u8>)
    ensures
        r@ == l_key_rotation_interval(),
{
    let mut v: Vec<u8> = Vec::new();
    v.push(114);
    v.push(111);
    v.push(116);
    v.push(97);
    v.push(116);
    v.push(105);
    v.push(111);
    v.push(110);
    v.push(95);
    v.push(105);
    v.push(110);
    v.push(116);
    v.push(101);
    v.push(114);
    v.push(118);
    v.push(97);
    v.push(108);
    proof {
        assert(v@ =~= l_key_rotation_interval());
    }
    v
}

fn b_key_grace_period() -> (r: Vec<u8>)
    ensures
        r@ == l_key_grace_period(),
{
    let mut v: Vec<u8> = Vec::new();
    v.push(103);
    v.push(114);
    v.push(97);
    v.push(99);
    v.push(101);
    v.push(95);
    v.push(112);
    v.push(101);
    v.push(114);
    v.push(105);
    v.push(111);
    v.push(100);
    proof {
        assert(v@ =~= l_key_grace_period());
    }
    v
}

fn b_key_rotation_threshold_seconds() -> (r: Vec<u8>)
    ensures
        r@ == l_key_rotation_threshold_seconds(),
{
    let mut v: Vec<u8> = Vec::new();
    v.push(114);
    v.push(111);
    v.push(116);
    v.push(97);
    v.push(116);
    v.push(105);
    v.push(111);
    v.push(110);
    v.push(95);
    v.push(116);
    v.push(104);
    v.push(114);
    v.push(101);
    v.push(115);
    v.push(104);
    v.push(111);
    v.push(108);
    v.push(100);
    v.push(95);
    v.push(115);
    v.push(101);
    v.push(99);
    v.push(111);
    v.push(110);
    v.push(100);
    v.push(115);
    proof {
        assert(v@ =~= l_key_rotation_threshold_seconds());
    }
    v
}

fn b_key_enabled() -> (r: Vec<u8>)
    ensures
        r@ == l_key_enabled(),
{
    let mut v: Vec<u8> = Vec::new();
    v.push(101);
    v.push(110);
    v.push(97);
    v.push(98);
    v.push(108);
    v.push(101);
    v.push(100);
    proof {
        assert(v@ =~= l_key_enabled());
    }
    v
}

fn b_key_fallback_encrypted_storage() -> (r: Vec<u8>)
    ensures
        r@ == l_key_fallback_encrypted_storage(),
{
    let mut v: Vec<u8> = Vec::new();
    v.push(102);
    v.push(97);
    v.push(108);
    v.push(108);
    v.push(98);
    v.push(97);
    v.push(99);
    v.push(107);
    v.push(95);
    v.push(101);
    v.push(110);
    v.push(99);
    v.push(114);
    v.push(121);
    v.push(112);
    v.push(116);
    v.push(101);
    v.push(100);
    v.push(95);
    v.push(115);
    v.push(116);
    v.push(111);
    v.push(114);
    v.push(97);
    v.push(103);
    v.push(101);
    proof {
        assert(v@ =~= l_key_fallback_encrypted_storage());
    }
    v
}

fn b_key_allowed_uids() -> (r: Vec<u8>)
    ensures
        r@ == l_key_allowed_uids(),
{
    let mut v: Vec<u8> = Vec::new();
    v.push(97);
    v.push(108);
    v.push(108);
    v.push(111);
    v.push(119);
    v.push(101);
    v.push(100);
    v.push(95);
    v.push(117);
    v.push(105);
    v.push(100);
    v.push(115);
    proof {
        assert(v@ =~= l_key_allowed_uids());
    }
    v
}

fn b_key_ipc_socket_path() -> (r: Vec<u8>)
    ensures
        r@ == l_key_ipc_socket_path(),
{
    let mut v: Vec<u8> = Vec::new();
    v.push(105);
    v.push(112);
    v.push(99);
    v.push(95);
    v.push(115);
    v.push(111);
    v.push(99);
    v.push(107);
    v.push(101);
    v.push(116);
    v.push(95);
    v.push(112);
    v.push(97);
    v.push(116);
    v.push(104);
    proof {
        assert(v@ =~= l_key_ipc_socket_path());
    }
    v
}

fn b_key_grace_period_days() -> (r: Vec<u8>)
    ensures
        r@ == l_key_grace_period_days(),
{
    let mut v: Vec<u8> = Vec::new();
    v.push(103);
    v.push(114);
    v.push(97);
    v.push(99);
    v.push(101);
    v.push(95);
    v.push(112);
    v.push(101);
    v.push(114);
    v.push(105);
    v.push(111);
    v.push(100);
    v.push(95);
    v.push(100);
    v.push(97);
    v.push(121);
    v.push(115);
    proof {
        assert(v@ =~= l_key_grace_period_days());
    }
    v
}

fn b_key_retry_interval_seconds() -> (r: Vec<u8>)
    ensures
        r@ == l_key_retry_interval_seconds(),
{
    let mut v: Vec<u8> = Vec::new();
    v.push(114);
    v.push(101);
    v.push(116);
    v.push(114);
    v.push(121);
    v.push(95);
    v.push(105);
    v.push(110);
    v.push(116);
    v.push(101);
    v.push(114);
    v.push(118);
    v.push(97);
    v.push(108);
    v.push(95);
    v.push(115);
    v.push(101);
    v.push(99);
    v.push(111);
    v.push(110);
    v.push(100);
    v.push(115);
    proof {
        assert(v@ =~= l_key_retry_interval_seconds());
    }
    v
}

fn b_key_auto_deactivate_on_reconnect() -> (r: Vec<u8>)
    ensures
        r@ == l_key_auto_deactivate_on_reconnect(),
{
    let mut v: Vec<u8> = Vec::new();
    v.push(97);
    v.push(117);
    v.push(116);
    v.push(111);
    v.push(95);
    v.push(100);
    v.push(101);
    v.push(97);
    v.push(99);
    v.push(116);
    v.push(105);
    v.push(118);
    v.push(97);
    v.push(116);
    v.push(101);
    v.push(95);
    v.push(111);
    v.push(110);
    v.push(95);
    v.push(114);
    v.push(101);
    v.push(99);
    v.push(111);
    v.push(110);
    v.push(110);
    v.push(101);
    v.push(99);
    v.push(116);
    proof {
        assert(v@ =~= l_key_auto_deactivate_on_reconnect());
    }
    v
}

fn b_key_alert_thresholds_hours() -> (r: Vec<u8>)
    ensures
        r@ == l_key_alert_thresholds_hours(),
{
    let mut v: Vec<u8> = Vec::new();
    v.push(97);
    v.push(108);
    v.push(101);
    v.push(114);
    v.push(116);
    v.push(95);
    v.push(116);
    v.push(104);
    v.push(114);
    v.push(101);
    v.push(115);
    v.push(104);
    v.push(111);
    v.push(108);
    v.push(100);
    v.push(115);
    v.push(95);
    v.push(104);
    v.push(111);
    v.push(117);
    v.push(114);
    v.push(115);
    proof {
        assert(v@ =~= l_key_alert_thresholds_hours());
    }
    v
}

/// One parsed configuration value.
pub enum TomlValue {
    Text(Vec<u8>),
    Integer(u64),
    Boolean(bool),
    Numbers(Vec<u64>),
}

/// Mathematical view of a configuration value.
pub enum TomlValueV {
    Text(Seq<u8>),
    Integer(u64),
    Boolean(bool),
    Numbers(Seq<u64>),
}

impl View for TomlValue {
    type V = TomlValueV;

    open spec fn view(&self) -> TomlValueV {
        match self {
            TomlValue::Text(b) => TomlValueV::Text(b@),
            TomlValue::Integer(n) => TomlValueV::Integer(*n),
            TomlValue::Boolean(b) => TomlValueV::Boolean(*b),
            TomlValue::Numbers(v) => TomlValueV::Numbers(v@),
        }
    }
}

/// One `key = value` line with the section it stands under.
pub struct ConfigEntry {
    pub section: Vec<u8>,
    pub key: Vec<u8>,
    pub value: TomlValue,
}

/// Mathematical view of one entry.
pub struct EntryV {
    pub section: Seq<u8>,
    pub key: Seq<u8>,
    pub value: TomlValueV,
}

impl View for ConfigEntry {
    type V = EntryV;

    open spec fn view(&self) -> EntryV {
        EntryV { section: self.section@, key: self.key@, value: self.value@ }
    }
}

/// Entry views of an entry vector.
pub open spec fn entry_views(entries: Seq<ConfigEntry>) -> Seq<EntryV> {
    entries.map_values(|e: ConfigEntry| e@)
}

/// The last text value of `section.key` among the entries, if any.
pub open spec fn last_text(entries: Seq<EntryV>, section: Seq<u8>, key: Seq<u8>) -> Option<
    Seq<u8>,
>
    decreases entries.len(),
{
    if entries.len() == 0 {
        None
    } else {
        let e = entries.last();
        if e.section == section && e.key == key && e.value is Text {
            Some(e.value->Text_0)
        } else {
            last_text(entries.drop_last(), section, key)
        }
    }
}

/// The last integer value of `section.key` among the entries, if any.
pub open spec fn last_int(entries: Seq<EntryV>, section: Seq<u8>, key: Seq<u8>) -> Option<u64>
    decreases entries.len(),
{
    if entries.len() == 0 {
        None
    } else {
        let e = entries.last();
        if e.section == section && e.key == key && e.value is Integer {
            Some(e.value->Integer_0)
        } else {
            last_int(entries.drop_last(), section, key)
        }
    }
}

/// The last boolean value of `section.key` among the entries, if any.
pub open spec fn last_bool(entries: Seq<EntryV>, section: Seq<u8>, key: Seq<u8>) -> Option<bool>
    decreases entries.len(),
{
    if entries.len() == 0 {
        None
    } else {
        let e = entries.last();
        if e.section == section && e.key == key && e.value is Boolean {
            Some(e.value->Boolean_0)
        } else {
            last_bool(entries.drop_last(), section, key)
        }
    }
}

/// The last number-list value of `section.key` among the entries, if any.
pub open spec fn last_nums(entries: Seq<EntryV>, section: Seq<u8>, key: Seq<u8>) -> Option<
    Seq<u64>,
>
    decreases entries.len(),
{
    if entries.len() == 0 {
        None
    } else {
        let e = entries.last();
        if e.section == section && e.key == key && e.value is Numbers {
            Some(e.value->Numbers_0)
        } else {
            last_nums(entries.drop_last(), section, key)
        }
    }
}

/// The numbers that fit a UID, in order.
pub open spec fn uids_of(nums: Seq<u64>) -> Seq<u32>
    decreases nums.len(),
{
    if nums.len() == 0 {
        Seq::empty()
    } else if nums.last() <= u32::MAX {
        uids_of(nums.drop_last()).push(nums.last() as u32)
    } else {
        uids_of(nums.drop_last())
    }
}

/// A text value as a `String`, if it is UTF-8.
pub open spec fn text_string_ok(b: Seq<u8>, s: Seq<char>) -> bool {
    vstd::utf8::encode_utf8(s) == b
}

/// Splits the configuration text into its entries: trimmed lines, with
/// blanks and `#` comments dropped, each a `[section]` header (tagged onto
/// the following pairs) or a `key = value` pair. A line that is neither is
/// refused.
pub fn toml_entries(text: &str) -> (r: AgentResult<Vec<ConfigEntry>>)
{
    let bytes = text.as_bytes();
    let mut section: Vec<u8> = Vec::new();
    let mut entries: Vec<ConfigEntry> = Vec::new();
    let mut i: usize = 0;
    while i < bytes.len()
        decreases bytes@.len() - i,
    {
        let mut j: usize = i;
        while j < bytes.len() && bytes[j] != 10
            invariant
                i <= j <= bytes@.len(),
            decreases bytes@.len() - j,
        {
            j += 1;
        }
        match parse_line(bytes, i, j) {
            ParsedLine::Section(name) => {
                section = name;
            },
            ParsedLine::Pair(key, value) => {
                entries.push(
                    ConfigEntry {
                        section: crate::persist::str_bytes_copy(&section),
                        key,
                        value,
                    },
                );
            },
            ParsedLine::Blank => {},
            ParsedLine::Bad => {
                return Err(AgentError::ConfigError("Failed to parse config".to_owned()));
            },
        }
        i = if j < bytes.len() {
            j + 1
        } else {
            j
        };
    }
    Ok(entries)
}

/// Builds a configuration from its entries. Which key fills which field:
/// for each recognized `section.key` the last entry wins; string fields
/// default to empty, `agent.rotation_interval` to 86400,
/// `agent.grace_period` to 604800, `tpm.enabled` to false, the
/// degraded-mode settings to enabled, 7 days, 300 seconds,
/// auto-deactivate, alerts at 24/72/144 hours; `management.allowed_uids`
/// keeps the listed numbers that fit a UID. A text value that is not UTF-8
/// is refused.
pub fn config_of_entries(entries: &Vec<ConfigEntry>) -> (r: AgentResult<Config>)
    ensures
        r matches Ok(c) ==> server_section_ok(entry_views(entries@), &c.server)
            && agent_section_ok(entry_views(entries@), &c.agent) && tpm_section_ok(
            entry_views(entries@),
            &c.tpm,
        ) && management_section_ok(entry_views(entries@), &c.management)
            && degraded_section_ok(entry_views(entries@), &c.degraded_mode),
{
    let server = server_of_entries(entries)?;
    let agent = agent_of_entries(entries)?;
    let tpm = tpm_of_entries(entries)?;
    let management = management_of_entries(entries)?;
    let degraded_mode = degraded_of_entries(entries)?;
    Ok(
        Config {
            server,
            agent,
            tpm,
            management,
            degraded_mode,
            config_path: String::new(),
        },
    )
}

/// The `[server]` keys fill the server settings; the last entry of each
/// wins; missing strings are empty.
pub open spec fn server_section_ok(ev: Seq<EntryV>, c: &ServerConfig) -> bool {
    &&& text_string_ok(
        match last_text(ev, l_sec_server(), l_key_url()) {
            Some(b) => b,
            None => Seq::empty(),
        },
        c.url@,
    )
    &&& text_string_ok(
        match last_text(ev, l_sec_server(), l_key_cert_pin()) {
            Some(b) => b,
            None => Seq::empty(),
        },
        c.cert_pin@,
    )
    &&& text_string_ok(
        match last_text(ev, l_sec_server(), l_key_client_cert()) {
            Some(b) => b,
            None => Seq::empty(),
        },
        c.client_cert@,
    )
    &&& text_string_ok(
        match last_text(ev, l_sec_server(), l_key_client_key()) {
            Some(b) => b,
            None => Seq::empty(),
        },
        c.client_key@,
    )
    &&& (match last_text(ev, l_sec_server(), l_key_public_key()) {
        Some(b) => c.public_key matches Some(s) && text_string_ok(b, s@),
        None => c.public_key is None,
    })
    &&& c.timeout_seconds == last_int(ev, l_sec_server(), l_key_timeout_seconds())
}

/// The `[agent]` keys fill the agent settings, with the documented
/// defaults.
pub open spec fn agent_section_ok(ev: Seq<EntryV>, c: &AgentConfig) -> bool {
    &&& text_string_ok(
        match last_text(ev, l_sec_agent(), l_key_id()) {
            Some(b) => b,
            None => Seq::empty(),
        },
        c.id@,
    )
    &&& c.rotation_interval == (match last_int(ev, l_sec_agent(), l_key_rotation_interval()) {
        Some(n) => n,
        None => 86400u64,
    })
    &&& c.grace_period == (match last_int(ev, l_sec_agent(), l_key_grace_period()) {
        Some(n) => n,
        None => 604800u64,
    })
    &&& c.rotation_threshold_seconds == last_int(
        ev,
        l_sec_agent(),
        l_key_rotation_threshold_seconds(),
    )
}

/// The `[tpm]` keys fill the sealing settings.
pub open spec fn tpm_section_ok(ev: Seq<EntryV>, c: &TpmConfig) -> bool {
    &&& c.enabled == (match last_bool(ev, l_sec_tpm(), l_key_enabled()) {
        Some(b) => b,
        None => false,
    })
    &&& (match last_text(ev, l_sec_tpm(), l_key_fallback_encrypted_storage()) {
        Some(b) => c.fallback_encrypted_storage matches Some(s) && text_string_ok(b, s@),
        None => c.fallback_encrypted_storage is None,
    })
}

/// The `[management]` keys fill the management settings; listed UIDs keep
/// the numbers that fit.
pub open spec fn management_section_ok(ev: Seq<EntryV>, c: &ManagementConfig) -> bool {
    &&& c.allowed_uids@ == uids_of(
        match last_nums(ev, l_sec_management(), l_key_allowed_uids()) {
            Some(ns) => ns,
            None => Seq::empty(),
        },
    )
    &&& (match last_text(ev, l_sec_management(), l_key_ipc_socket_path()) {
        Some(b) => c.ipc_socket_path matches Some(s) && text_string_ok(b, s@),
        None => c.ipc_socket_path is None,
    })
    &&& c.api_port is None
    &&& c.rate_limit_requests_per_minute is None
}

/// The `[degraded_mode]` keys fill the supervisor settings, with the
/// documented defaults.
pub open spec fn degraded_section_ok(ev: Seq<EntryV>, c: &DegradedModeConfig) -> bool {
    &&& c.enabled == (match last_bool(ev, l_sec_degraded_mode(), l_key_enabled()) {
        Some(b) => b,
        None => true,
    })
    &&& c.grace_period_days == (match last_int(
        ev,
        l_sec_degraded_mode(),
        l_key_grace_period_days(),
    ) {
        Some(n) => n,
        None => 7u64,
    })
    &&& c.retry_interval_seconds == (match last_int(
        ev,
        l_sec_degraded_mode(),
        l_key_retry_interval_seconds(),
    ) {
        Some(n) => n,
        None => 300u64,
    })
    &&& c.auto_deactivate_on_reconnect == (match last_bool(
        ev,
        l_sec_degraded_mode(),
        l_key_auto_deactivate_on_reconnect(),
    ) {
        Some(b) => b,
        None => true,
    })
    &&& c.alert_thresholds_hours@ == (match last_nums(
        ev,
        l_sec_degraded_mode(),
        l_key_alert_thresholds_hours(),
    ) {
        Some(ns) => ns,
        None => seq![24u64, 72u64, 144u64],
    })
}

fn server_of_entries(entries: &Vec<ConfigEntry>) -> (r: AgentResult<ServerConfig>)
    ensures
        r matches Ok(c) ==> server_section_ok(entry_views(entries@), &c),
{
    let url = match find_last_text(entries, &b_sec_server(), &b_key_url()) {
        Some(b) => b,
        None => Vec::new(),
    };
    let cert_pin = match find_last_text(entries, &b_sec_server(), &b_key_cert_pin()) {
        Some(b) => b,
        None => Vec::new(),
    };
    let client_cert = match find_last_text(entries, &b_sec_server(), &b_key_client_cert()) {
        Some(b) => b,
        None => Vec::new(),
    };
    let client_key = match find_last_text(entries, &b_sec_server(), &b_key_client_key()) {
        Some(b) => b,
        None => Vec::new(),
    };
    let public_key = match find_last_text(entries, &b_sec_server(), &b_key_public_key()) {
        Some(b) => Some(bytes_to_string(b)?),
        None => None,
    };
    let timeout_seconds = find_last_int(entries, &b_sec_server(), &b_key_timeout_seconds());
    Ok(
        ServerConfig {
            url: bytes_to_string(url)?,
            cert_pin: bytes_to_string(cert_pin)?,
            client_cert: bytes_to_string(client_cert)?,
            client_key: bytes_to_string(client_key)?,
            public_key,
            timeout_seconds,
        },
    )
}

fn agent_of_entries(entries: &Vec<ConfigEntry>) -> (r: AgentResult<AgentConfig>)
    ensures
        r matches Ok(c) ==> agent_section_ok(entry_views(entries@), &c),
{
    let id = match find_last_text(entries, &b_sec_agent(), &b_key_id()) {
        Some(b) => b,
        None => Vec::new(),
    };
    let rotation_interval = match find_last_int(
        entries,
        &b_sec_agent(),
        &b_key_rotation_interval(),
    ) {
        Some(n) => n,
        None => 86400,
    };
    let grace_period = match find_last_int(entries, &b_sec_agent(), &b_key_grace_period()) {
        Some(n) => n,
        None => 604800,
    };
    let rotation_threshold_seconds = find_last_int(
        entries,
        &b_sec_agent(),
        &b_key_rotation_threshold_seconds(),
    );
    Ok(
        AgentConfig {
            id: bytes_to_string(id)?,
            rotation_interval,
            grace_period,
            rotation_threshold_seconds,
        },
    )
}

fn tpm_of_entries(entries: &Vec<ConfigEntry>) -> (r: AgentResult<TpmConfig>)
    ensures
        r matches Ok(c) ==> tpm_section_ok(entry_views(entries@), &c),
{
    let enabled = match find_last_bool(entries, &b_sec_tpm(), &b_key_enabled()) {
        Some(b) => b,
        None => false,
    };
    let fallback_encrypted_storage = match find_last_text(
        entries,
        &b_sec_tpm(),
        &b_key_fallback_encrypted_storage(),
    ) {
        Some(b) => Some(bytes_to_string(b)?),
        None => None,
    };
    Ok(TpmConfig { enabled, fallback_encrypted_storage })
}

fn management_of_entries(entries: &Vec<ConfigEntry>) -> (r: AgentResult<ManagementConfig>)
    ensures
        r matches Ok(c) ==> management_section_ok(entry_views(entries@), &c),
{
    let uid_nums = match find_last_nums(entries, &b_sec_management(), &b_key_allowed_uids()) {
        Some(ns) => ns,
        None => Vec::new(),
    };
    let ipc_socket_path = match find_last_text(
        entries,
        &b_sec_management(),
        &b_key_ipc_socket_path(),
    ) {
        Some(b) => Some(bytes_to_string(b)?),
        None => None,
    };
    let allowed_uids = uids_from_nums(&uid_nums);
    Ok(
        ManagementConfig {
            allowed_uids,
            ipc_socket_path,
            api_port: None,
            rate_limit_requests_per_minute: None,
        },
    )
}

fn degraded_of_entries(entries: &Vec<ConfigEntry>) -> (r: AgentResult<DegradedModeConfig>)
    ensures
        r matches Ok(c) ==> degraded_section_ok(entry_views(entries@), &c),
{
    let enabled = match find_last_bool(entries, &b_sec_degraded_mode(), &b_key_enabled()) {
        Some(b) => b,
        None => true,
    };
    let grace_period_days = match find_last_int(
        entries,
        &b_sec_degraded_mode(),
        &b_key_grace_period_days(),
    ) {
        Some(n) => n,
        None => 7,
    };
    let retry_interval_seconds = match find_last_int(
        entries,
        &b_sec_degraded_mode(),
        &b_key_retry_interval_seconds(),
    ) {
        Some(n) => n,
        None => 300,
    };
    let auto_deactivate_on_reconnect = match find_last_bool(
        entries,
        &b_sec_degraded_mode(),
        &b_key_auto_deactivate_on_reconnect(),
    ) {
        Some(b) => b,
        None => true,
    };
    let alert_thresholds_hours = match find_last_nums(
        entries,
        &b_sec_degraded_mode(),
        &b_key_alert_thresholds_hours(),
    ) {
        Some(ns) => ns,
        None => {
            let mut v: Vec<u64> = Vec::new();
            v.push(24);
            v.push(72);
            v.push(144);
            proof {
                assert(v@ =~= seq![24u64, 72u64, 144u64]);
            }
            v
        },
    };
    Ok(
        DegradedModeConfig {
            enabled,
            grace_period_days,
            retry_interval_seconds,
            auto_deactivate_on_reconnect,
            alert_thresholds_hours,
        },
    )
}

/// The last text value of `section.key`, scanning from the end.
fn find_last_text(
    entries: &Vec<ConfigEntry>,
    section: &Vec<u8>,
    key: &Vec<u8>,
) -> (r: Option<Vec<u8>>)
    ensures
        match r {
            Some(b) => last_text(entry_views(entries@), section@, key@) == Some(b@),
            None => last_text(entry_views(entries@), section@, key@) is None,
        },
{
    let ghost ev = entry_views(entries@);
    proof {
        assert(ev.subrange(0, ev.len() as int) =~= ev);
    }
    let mut i: usize = entries.len();
    while i > 0
        invariant
            i <= entries@.len(),
            ev == entry_views(entries@),
            ev.len() == entries@.len(),
            forall|k: int| 0 <= k < entries@.len() ==> #[trigger] ev[k] == entries@[k]@,
            last_text(ev, section@, key@) == last_text(ev.subrange(0, i as int), section@, key@),
        decreases i,
    {
        i -= 1;
        proof {
            assert(ev.subrange(0, i + 1).drop_last() =~= ev.subrange(0, i as int));
            assert(ev.subrange(0, i + 1).last() == ev[i as int]);
        }
        let e = &entries[i];
        if crate::crypto::constant_time_compare(e.section.as_slice(), section.as_slice())
            && crate::crypto::constant_time_compare(e.key.as_slice(), key.as_slice()) {
            match &e.value {
                TomlValue::Text(b) => {
                    return Some(crate::persist::str_bytes_copy(b));
                },
                _ => {},
            }
        }
    }
    proof {
        assert(ev.subrange(0, 0).len() == 0);
    }
    None
}

/// The last integer value of `section.key`, scanning from the end.
fn find_last_int(entries: &Vec<ConfigEntry>, section: &Vec<u8>, key: &Vec<u8>) -> (r: Option<
    u64,
>)
    ensures
        r == last_int(entry_views(entries@), section@, key@),
{
    let ghost ev = entry_views(entries@);
    proof {
        assert(ev.subrange(0, ev.len() as int) =~= ev);
    }
    let mut i: usize = entries.len();
    while i > 0
        invariant
            i <= entries@.len(),
            ev == entry_views(entries@),
            ev.len() == entries@.len(),
            forall|k: int| 0 <= k < entries@.len() ==> #[trigger] ev[k] == entries@[k]@,
            last_int(ev, section@, key@) == last_int(ev.subrange(0, i as int), section@, key@),
        decreases i,
    {
        i -= 1;
        proof {
            assert(ev.subrange(0, i + 1).drop_last() =~= ev.subrange(0, i as int));
            assert(ev.subrange(0, i + 1).last() == ev[i as int]);
        }
        let e = &entries[i];
        if crate::crypto::constant_time_compare(e.section.as_slice(), section.as_slice())
            && crate::crypto::constant_time_compare(e.key.as_slice(), key.as_slice()) {
            match &e.value {
                TomlValue::Integer(n) => {
                    return Some(*n);
                },
                _ => {},
            }
        }
    }
    proof {
        assert(ev.subrange(0, 0).len() == 0);
    }
    None
}

/// The last boolean value of `section.key`, scanning from the end.
fn find_last_bool(entries: &Vec<ConfigEntry>, section: &Vec<u8>, key: &Vec<u8>) -> (r: Option<
    bool,
>)
    ensures
        r == last_bool(entry_views(entries@), section@, key@),
{
    let ghost ev = entry_views(entries@);
    proof {
        assert(ev.subrange(0, ev.len() as int) =~= ev);
    }
    let mut i: usize = entries.len();
    while i > 0
        invariant
            i <= entries@.len(),
            ev == entry_views(entries@),
            ev.len() == entries@.len(),
            forall|k: int| 0 <= k < entries@.len() ==> #[trigger] ev[k] == entries@[k]@,
            last_bool(ev, section@, key@) == last_bool(ev.subrange(0, i as int), section@, key@),
        decreases i,
    {
        i -= 1;
        proof {
            assert(ev.subrange(0, i + 1).drop_last() =~= ev.subrange(0, i as int));
            assert(ev.subrange(0, i + 1).last() == ev[i as int]);
        }
        let e = &entries[i];
        if crate::crypto::constant_time_compare(e.section.as_slice(), section.as_slice())
            && crate::crypto::constant_time_compare(e.key.as_slice(), key.as_slice()) {
            match &e.value {
                TomlValue::Boolean(b) => {
                    return Some(*b);
                },
                _ => {},
            }
        }
    }
    proof {
        assert(ev.subrange(0, 0).len() == 0);
    }
    None
}

/// The last number-list value of `section.key`, scanning from the end.
fn find_last_nums(
    entries: &Vec<ConfigEntry>,
    section: &Vec<u8>,
    key: &Vec<u8>,
) -> (r: Option<Vec<u64>>)
    ensures
        match r {
            Some(ns) => last_nums(entry_views(entries@), section@, key@) == Some(ns@),
            None => last_nums(entry_views(entries@), section@, key@) is None,
        },
{
    let ghost ev = entry_views(entries@);
    proof {
        assert(ev.subrange(0, ev.len() as int) =~= ev);
    }
    let mut i: usize = entries.len();
    while i > 0
        invariant
            i <= entries@.len(),
            ev == entry_views(entries@),
            ev.len() == entries@.len(),
            forall|k: int| 0 <= k < entries@.len() ==> #[trigger] ev[k] == entries@[k]@,
            last_nums(ev, section@, key@) == last_nums(ev.subrange(0, i as int), section@, key@),
        decreases i,
    {
        i -= 1;
        proof {
            assert(ev.subrange(0, i + 1).drop_last() =~= ev.subrange(0, i as int));
            assert(ev.subrange(0, i + 1).last() == ev[i as int]);
        }
        let e = &entries[i];
        if crate::crypto::constant_time_compare(e.section.as_slice(), section.as_slice())
            && crate::crypto::constant_time_compare(e.key.as_slice(), key.as_slice()) {
            match &e.value {
                TomlValue::Numbers(ns) => {
                    return Some(clone_nums(ns));
                },
                _ => {},
            }
        }
    }
    proof {
        assert(ev.subrange(0, 0).len() == 0);
    }
    None
}

/// Copies a number list.
fn clone_nums(v: &Vec<u64>) -> (r: Vec<u64>)
    ensures
        r@ == v@,
{
    let mut out: Vec<u64> = Vec::new();
    let mut i: usize = 0;
    while i < v.len()
        invariant
            i <= v@.len(),
            out@ == v@.subrange(0, i as int),
        decreases v@.len() - i,
    {
        out.push(v[i]);
        proof {
            assert(out@ =~= v@.subrange(0, i + 1));
        }
        i += 1;
    }
    proof {
        assert(v@.subrange(0, v@.len() as int) =~= v@);
    }
    out
}

/// Keeps the numbers that fit a UID, exactly `uids_of`.
fn uids_from_nums(nums: &Vec<u64>) -> (r: Vec<u32>)
    ensures
        r@ == uids_of(nums@),
{
    let mut out: Vec<u32> = Vec::new();
    let mut i: usize = 0;
    while i < nums.len()
        invariant
            i <= nums@.len(),
            out@ == uids_of(nums@.subrange(0, i as int)),
        decreases nums@.len() - i,
    {
        proof {
            assert(nums@.subrange(0, i + 1).drop_last() =~= nums@.subrange(0, i as int));
            assert(nums@.subrange(0, i + 1).last() == nums@[i as int]);
        }
        if nums[i] <= 4294967295 {
            out.push(nums[i] as u32);
        }
        i += 1;
    }
    proof {
        assert(nums@.subrange(0, nums@.len() as int) =~= nums@);
    }
    out
}

fn bytes_to_string(b: Vec<u8>) -> (r: AgentResult<String>)
    ensures
        r matches Ok(s) ==> text_string_ok(b@, s@),
{
    let ghost bytes = b@;
    match crate::persist::string_from_utf8(b) {
        Some(s) => {
            proof {
                vstd::utf8::decode_utf8_encode_utf8(bytes);
            }
            Ok(s)
        },
        None => Err(AgentError::ConfigError("Failed to parse config".to_owned())),
    }
}

enum ParsedLine {
    Section(Vec<u8>),
    Pair(Vec<u8>, TomlValue),
    Blank,
    Bad,
}

/// Parses one line of the configuration text, bytes `start..end`.
fn parse_line(bytes: &[u8], start: usize, end: usize) -> (r: ParsedLine)
    requires
        start <= end <= bytes@.len(),
{
    // trim
    let mut a: usize = start;
    while a < end && (bytes[a] == 32 || bytes[a] == 9 || bytes[a] == 13)
        invariant
            start <= a <= end <= bytes@.len(),
        decreases end - a,
    {
        a += 1;
    }
    let mut b: usize = end;
    while b > a && (bytes[b - 1] == 32 || bytes[b - 1] == 9 || bytes[b - 1] == 13)
        invariant
            a <= b <= end <= bytes@.len(),
        decreases b,
    {
        b -= 1;
    }
    if a == b {
        return ParsedLine::Blank;
    }
    if bytes[a] == 35 {
        return ParsedLine::Blank;
    }
    if bytes[a] == 91 {
        if bytes[b - 1] != 93 || b - a < 2 {
            return ParsedLine::Bad;
        }
        let mut name: Vec<u8> = Vec::new();
        let mut k: usize = a + 1;
        while k < b - 1
            invariant
                a < k <= b - 1,
                b <= bytes@.len(),
            decreases b - k,
        {
            name.push(bytes[k]);
            k += 1;
        }
        return ParsedLine::Section(name);
    }
    // key = value
    let mut eq: usize = a;
    while eq < b && bytes[eq] != 61
        invariant
            a <= eq <= b <= bytes@.len(),
        decreases b - eq,
    {
        eq += 1;
    }
    if eq == b {
        return ParsedLine::Bad;
    }
    // trim key
    let mut ke: usize = eq;
    while ke > a && (bytes[ke - 1] == 32 || bytes[ke - 1] == 9)
        invariant
            a <= ke <= eq,
            eq <= bytes@.len(),
        decreases ke,
    {
        ke -= 1;
    }
    let mut key: Vec<u8> = Vec::new();
    let mut k: usize = a;
    while k < ke
        invariant
            a <= k <= ke <= bytes@.len(),
        decreases ke - k,
    {
        key.push(bytes[k]);
        k += 1;
    }
    // trim value
    let mut vs: usize = eq + 1;
    while vs < b && (bytes[vs] == 32 || bytes[vs] == 9)
        invariant
            eq < vs <= b <= bytes@.len(),
        decreases b - vs,
    {
        vs += 1;
    }
    if vs == b {
        return ParsedLine::Bad;
    }
    match parse_value(bytes, vs, b) {
        Some(value) => ParsedLine::Pair(key, value),
        None => ParsedLine::Bad,
    }
}

/// Parses one value: a quoted string, `true`/`false`, an unsigned integer,
/// or a bracketed list of unsigned integers.
fn parse_value(bytes: &[u8], start: usize, end: usize) -> (r: Option<TomlValue>)
    requires
        start < end <= bytes@.len(),
{
    let c = bytes[start];
    if c == 34 {
        if end - start < 2 || bytes[end - 1] != 34 {
            return None;
        }
        let mut text: Vec<u8> = Vec::new();
        let mut k: usize = start + 1;
        while k < end - 1
            invariant
                start < k <= end - 1,
                end <= bytes@.len(),
            decreases end - k,
        {
            text.push(bytes[k]);
            k += 1;
        }
        Some(TomlValue::Text(text))
    } else if c == 116 || c == 102 {
        if end - start == 4 && bytes[start] == 116 && bytes[start + 1] == 114 && bytes[start + 2]
            == 117 && bytes[start + 3] == 101 {
            Some(TomlValue::Boolean(true))
        } else if end - start == 5 && bytes[start] == 102 && bytes[start + 1] == 97 && bytes[start
            + 2] == 108 && bytes[start + 3] == 115 && bytes[start + 4] == 101 {
            Some(TomlValue::Boolean(false))
        } else {
            None
        }
    } else if c == 91 {
        if bytes[end - 1] != 93 {
            return None;
        }
        let mut nums: Vec<u64> = Vec::new();
        let mut k: usize = start + 1;
        let stop: usize = end - 1;
        while k < stop
            invariant
                start < k <= stop,
                stop < end <= bytes@.len(),
            decreases stop - k,
        {
            // skip separators and spaces
            if bytes[k] == 44 || bytes[k] == 32 || bytes[k] == 9 {
                k += 1;
            } else if 48 <= bytes[k] && bytes[k] <= 57 {
                let ghost k_entry = k as int;
                let mut val: u64 = (bytes[k] - 48) as u64;
                let mut overflow: bool = false;
                k += 1;
                while k < stop && 48 <= bytes[k] && bytes[k] <= 57
                    invariant
                        start < k <= stop,
                        k_entry < k,
                        stop < end <= bytes@.len(),
                    decreases stop - k,
                {
                    let d: u64 = (bytes[k] - 48) as u64;
                    match val.checked_mul(10) {
                        Some(v10) => match v10.checked_add(d) {
                            Some(v2) => {
                                val = v2;
                            },
                            None => {
                                overflow = true;
                            },
                        },
                        None => {
                            overflow = true;
                        },
                    }
                    k += 1;
                }
                if overflow {
                    return None;
                }
                nums.push(val);
            } else {
                return None;
            }
        }
        Some(TomlValue::Numbers(nums))
    } else if 48 <= c && c <= 57 {
        let mut val: u64 = 0;
        let mut k: usize = start;
        while k < end
            invariant
                start <= k <= end <= bytes@.len(),
            decreases end - k,
        {
            if !(48 <= bytes[k] && bytes[k] <= 57) {
                return None;
            }
            let d: u64 = (bytes[k] - 48) as u64;
            match val.checked_mul(10) {
                Some(v10) => match v10.checked_add(d) {
                    Some(v2) => {
                        val = v2;
                    },
                    None => {
                        return None;
                    },
                },
                None => {
                    return None;
                },
            }
            k += 1;
        }
        Some(TomlValue::Integer(val))
    } else {
        None
    }
}

} // verus!
