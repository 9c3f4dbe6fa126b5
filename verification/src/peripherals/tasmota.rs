//! Tasmota relay power control over MQTT.
//!
//! VM start publishes "ON" and VM stop publishes "OFF" to
//! `cmnd/<device_id>/POWER`. Every failure is soft: the application warns
//! and the VM lifecycle carries on. This module validates the broker
//! address and builds the command; the application talks to the broker.
use vstd::prelude::*;
use crate::config::TasmotaConfig;
use crate::error::{ChalybsError, Result};
use crate::fmt::{parse_unsigned, parse_unsigned_exec};
use crate::text::{lit, seqs_of, split_on, split_on_exec, string_of, trim, trim_chars, trim_str};

verus! {

/// Seconds of MQTT keep-alive for the short-lived connection.
pub const MQTT_KEEP_ALIVE_SECS: u64 = 5;

/// Capacity of the client's request channel.
pub const MQTT_CHANNEL_CAPACITY: usize = 10;

/// `mqtt_host` read as "host:port": the trimmed text split on ':'; the
/// first piece, trimmed, is the host and must not be empty; the second is
/// the port. Pieces after the second are ignored.
pub open spec fn mqtt_host_spec(h: Seq<char>) -> core::result::Result<(Seq<char>, u16), Seq<char>> {
    let raw = trim(h);
    if raw.len() == 0 {
        Err("tasmota: mqtt_host is empty"@)
    } else {
        let parts = split_on(raw, ':');
        let host = trim(parts[0]);
        if host.len() == 0 {
            Err("tasmota: invalid mqtt_host `"@ + raw + "`"@)
        } else if parts.len() < 2 {
            Err("tasmota: mqtt_host missing port `"@ + raw + "`"@)
        } else {
            match parse_unsigned(parts[1], 10, 65535) {
                Some(p) => Ok((host, p as u16)),
                None => Err("tasmota: mqtt_host has invalid port `"@ + raw + "`"@),
            }
        }
    }
}

/// One power command to publish.
#[derive(Debug)]
pub struct MqttPowerCommand {
    pub host: String,
    pub port: u16,
    pub client_id: String,
    pub topic: String,
    /// "ON" or "OFF".
    pub payload: String,
    pub keep_alive_secs: u64,
    /// Username and password (empty when not configured).
    pub credentials: Option<(String, String)>,
    pub channel_capacity: usize,
}

/// MQTT peripheral hook for a Tasmota relay.
#[derive(Debug, Clone)]
pub struct TasmotaHook {
    pub cfg: TasmotaConfig,
}

fn quoted(prefix: &str, raw: &Vec<char>) -> (r: ChalybsError)
    ensures
        r matches ChalybsError::Peripheral(m) && m@ == prefix@ + raw@ + "`"@,
{
    let mut m = lit(prefix);
    m.append(string_of(raw.as_slice()).as_str());
    m.append("`");
    ChalybsError::Peripheral(m)
}

impl TasmotaHook {
    pub fn new(cfg: TasmotaConfig) -> (r: Self)
        ensures
            r.cfg == cfg,
    {
        TasmotaHook { cfg }
    }

    /// The broker's host and port from `mqtt_host`.
    pub fn parse_mqtt_host(&self) -> (r: Result<(String, u16)>)
        ensures
            match mqtt_host_spec(self.cfg.mqtt_host@) {
                Ok((h, p)) => r matches Ok((hs, ps)) && hs@ == h && ps == p,
                Err(t) => r matches Err(ChalybsError::Peripheral(m)) && m@ == t,
            },
    {
        let raw = trim_str(self.cfg.mqtt_host.as_str());
        if raw.len() == 0 {
            return Err(ChalybsError::Peripheral(lit("tasmota: mqtt_host is empty")));
        }
        let parts = split_on_exec(raw.as_slice(), ':');
        proof {
            assert(seqs_of(parts@)[0] == parts@[0]@);
        }
        let host = trim_chars(parts[0].as_slice());
        if host.len() == 0 {
            return Err(quoted("tasmota: invalid mqtt_host `", &raw));
        }
        if parts.len() < 2 {
            return Err(quoted("tasmota: mqtt_host missing port `", &raw));
        }
        proof {
            assert(seqs_of(parts@)[1] == parts@[1]@);
        }
        match parse_unsigned_exec(parts[1].as_slice(), 10, 65535) {
            Some(p) => Ok((string_of(host.as_slice()), p as u16)),
            None => Err(quoted("tasmota: mqtt_host has invalid port `", &raw)),
        }
    }

    /// The command that switches the relay on or off, or why the broker
    /// address is unusable.
    pub fn power_command(&self, on: bool) -> (r: Result<MqttPowerCommand>)
        ensures
            match mqtt_host_spec(self.cfg.mqtt_host@) {
                Ok((h, p)) => r matches Ok(c) && {
                    &&& c.host@ == h
                    &&& c.port == p
                    &&& c.client_id@ == "chalybs-"@ + self.cfg.device_id@
                    &&& c.topic@ == "cmnd/"@ + self.cfg.device_id@ + "/POWER"@
                    &&& c.payload@ == (if on { "ON"@ } else { "OFF"@ })
                    &&& c.keep_alive_secs == MQTT_KEEP_ALIVE_SECS
                    &&& c.channel_capacity == MQTT_CHANNEL_CAPACITY
                    &&& match self.cfg.username {
                        None => c.credentials is None,
                        Some(u) => c.credentials matches Some((cu, cp)) && cu@ == u@ && cp@
                            == match self.cfg.password {
                            Some(pw) => pw@,
                            None => Seq::<char>::empty(),
                        },
                    }
                },
                Err(t) => r matches Err(ChalybsError::Peripheral(m)) && m@ == t,
            },
    {
        let (host, port) = match self.parse_mqtt_host() {
            Ok(v) => v,
            Err(e) => return Err(e),
        };
        let mut topic = lit("cmnd/");
        topic.append(self.cfg.device_id.as_str());
        topic.append("/POWER");
        let payload = if on {
            lit("ON")
        } else {
            lit("OFF")
        };
        let mut client_id = lit("chalybs-");
        client_id.append(self.cfg.device_id.as_str());
        let credentials = match &self.cfg.username {
            None => None,
            Some(u) => {
                let pass = match &self.cfg.password {
                    Some(p) => lit(p.as_str()),
                    None => String::new(),
                };
                Some((lit(u.as_str()), pass))
            },
        };
        Ok(
            MqttPowerCommand {
                host,
                port,
                client_id,
                topic,
                payload,
                keep_alive_secs: MQTT_KEEP_ALIVE_SECS,
                credentials,
                channel_capacity: MQTT_CHANNEL_CAPACITY,
            },
        )
    }
}

} // verus!
