//! DDC/CI monitor input switching over I²C.
//!
//! A switch writes a "Set VCP Feature" frame for the input-source code,
//! then reads the value back with "Get VCP Feature". The value is checked
//! only when the reply has the standard MCCS layout; monitors that answer
//! otherwise are taken as unable to verify and the write is accepted.
//! This module builds the frames and judges the reply; the application
//! performs the transfers on `/dev/i2c-<bus>`.
use vstd::prelude::*;
use crate::config::DdcConfig;
use crate::error::{ChalybsError, Result};
use crate::fmt::{dec, hex_pad, u64_to_dec, u64_to_hex_pad};
use crate::text::lit;

verus! {

/// 7-bit I²C address of a monitor's DDC/CI endpoint.
pub const DDC_I2C_ADDRESS_7BIT: u16 = 0x37;

/// On-the-wire destination address; it is folded into the checksum.
pub const DDC_DEST_ADDRESS_8BIT: u8 = 0x6e;

/// Source address byte for frames sent by the host.
pub const DDC_HOST_ADDRESS: u8 = 0x51;

/// VCP code of the input-source feature.
pub const VCP_CODE_INPUT_SOURCE: u8 = 0x60;

pub const CMD_SET_VCP_FEATURE: u8 = 0x03;

pub const CMD_GET_VCP_FEATURE: u8 = 0x01;

/// Bytes read back for a Get VCP reply.
pub const DDC_REPLY_LEN: usize = 16;

/// `seed` XOR every byte of `s`.
pub open spec fn xor_fold(seed: u8, s: Seq<u8>) -> u8
    decreases s.len(),
{
    if s.len() == 0 {
        seed
    } else {
        xor_fold(seed, s.drop_last()) ^ s.last()
    }
}

/// The DDC/CI checksum of a payload: the destination address XOR every
/// payload byte.
pub fn compute_ddc_checksum(dest_8bit: u8, payload: &[u8]) -> (cs: u8)
    ensures
        cs == xor_fold(dest_8bit, payload@),
{
    let mut cs = dest_8bit;
    let mut i: usize = 0;
    while i < payload.len()
        invariant
            i <= payload@.len(),
            cs == xor_fold(dest_8bit, payload@.take(i as int)),
        decreases payload@.len() - i,
    {
        assert(payload@.take(i + 1).drop_last() =~= payload@.take(i as int));
        cs = cs ^ payload[i];
        i = i + 1;
    }
    assert(payload@.take(payload@.len() as int) =~= payload@);
    cs
}

/// A payload followed by its checksum.
pub open spec fn framed(body: Seq<u8>) -> Seq<u8> {
    body.push(xor_fold(DDC_DEST_ADDRESS_8BIT, body))
}

/// The Set VCP Feature frame that sets `vcp` to `value` (high byte zero).
pub open spec fn set_vcp_frame(vcp: u8, value: u8) -> Seq<u8> {
    framed(seq![DDC_HOST_ADDRESS, 0x84u8, CMD_SET_VCP_FEATURE, vcp, 0x00u8, value])
}

/// The Get VCP Feature request frame for `vcp`.
pub open spec fn get_vcp_frame(vcp: u8) -> Seq<u8> {
    framed(seq![DDC_HOST_ADDRESS, 0x82u8, CMD_GET_VCP_FEATURE, vcp])
}

fn push_checksum(v: &mut Vec<u8>)
    ensures
        final(v)@ == framed(old(v)@),
{
    let cs = compute_ddc_checksum(DDC_DEST_ADDRESS_8BIT, v.as_slice());
    v.push(cs);
}

/// The Set VCP Feature frame.
pub fn set_vcp_request(vcp_code: u8, value: u8) -> (r: Vec<u8>)
    ensures
        r@ == set_vcp_frame(vcp_code, value),
{
    let mut v: Vec<u8> = Vec::new();
    v.push(DDC_HOST_ADDRESS);
    v.push(0x84);
    v.push(CMD_SET_VCP_FEATURE);
    v.push(vcp_code);
    v.push(0x00);
    v.push(value);
    assert(v@ =~= seq![DDC_HOST_ADDRESS, 0x84u8, CMD_SET_VCP_FEATURE, vcp_code, 0x00u8, value]);
    push_checksum(&mut v);
    v
}

/// The Get VCP Feature request frame.
pub fn get_vcp_request(vcp_code: u8) -> (r: Vec<u8>)
    ensures
        r@ == get_vcp_frame(vcp_code),
{
    let mut v: Vec<u8> = Vec::new();
    v.push(DDC_HOST_ADDRESS);
    v.push(0x82);
    v.push(CMD_GET_VCP_FEATURE);
    v.push(vcp_code);
    assert(v@ =~= seq![DDC_HOST_ADDRESS, 0x82u8, CMD_GET_VCP_FEATURE, vcp_code]);
    push_checksum(&mut v);
    v
}

/// Whether a Get VCP reply has the MCCS layout that makes its current
/// value trustworthy: at least nine bytes, addressed to the host, a zero
/// type byte, the requested code echoed and a zero result code.
pub open spec fn reply_is_verifiable(reply: Seq<u8>, vcp: u8) -> bool {
    &&& reply.len() >= 9
    &&& reply[0] == DDC_DEST_ADDRESS_8BIT
    &&& reply[2] == 0
    &&& reply[3] == vcp
    &&& reply[4] == 0
}

pub open spec fn mismatch_text(reported: u8, expected: u8) -> Seq<char> {
    "DDC: verification failed: monitor returned 0x"@ + hex_pad(reported as nat, 2)
        + ", expected 0x"@ + hex_pad(expected as nat, 2)
}

/// The error a reply gives: only a verifiable reply whose current value's
/// low byte differs from the requested one fails.
pub open spec fn reply_error(reply: Seq<u8>, vcp: u8, expected: u8) -> Option<Seq<char>> {
    if reply_is_verifiable(reply, vcp) && reply[8] != expected {
        Some(mismatch_text(reply[8], expected))
    } else {
        None
    }
}

/// Judge the reply to the read-back request.
pub fn verify_vcp_reply(reply: &[u8], vcp_code: u8, input_value: u8) -> (r: Result<()>)
    ensures
        match reply_error(reply@, vcp_code, input_value) {
            None => r is Ok,
            Some(t) => r matches Err(ChalybsError::Peripheral(m)) && m@ == t,
        },
{
    if reply.len() < 9 {
        return Ok(());
    }
    if reply[0] != DDC_DEST_ADDRESS_8BIT || reply[2] != 0x00 || reply[3] != vcp_code || reply[4]
        != 0x00 {
        return Ok(());
    }
    let reported = reply[8];
    if reported != input_value {
        let mut m = lit("DDC: verification failed: monitor returned 0x");
        m.append(u64_to_hex_pad(reported as u64, 2).as_str());
        m.append(", expected 0x");
        m.append(u64_to_hex_pad(input_value as u64, 2).as_str());
        return Err(ChalybsError::Peripheral(m));
    }
    Ok(())
}

/// One monitor input switch: where it goes, the frames it sends, and
/// whether a failure aborts the VM.
#[derive(Debug)]
pub struct DdcSwitch {
    pub bus: u8,
    pub vcp_code: u8,
    pub input: u8,
    /// Lifecycle phase, for the log ("vm_up", "vm_down", "irq_complete").
    pub phase: String,
    pub fatal_on_error: bool,
    /// Set VCP Feature frame.
    pub set_frame: Vec<u8>,
    /// Get VCP Feature request frame for the read-back.
    pub get_frame: Vec<u8>,
}

/// What a switch reports once the transfers are done: a failed transfer's
/// error or the verdict on the reply; a failure counts only when
/// `fatal_on_error` is set.
pub open spec fn switch_ok(fatal: bool, io: Result<Vec<u8>>, vcp: u8, input: u8) -> bool {
    !fatal || match io {
        Ok(buf) => reply_error(buf@, vcp, input) is None,
        Err(_) => false,
    }
}

impl DdcSwitch {
    /// The I²C device node, `/dev/i2c-<bus>`.
    pub fn device_path(&self) -> (r: String)
        ensures
            r@ == "/dev/i2c-"@ + dec(self.bus as nat),
    {
        let mut r = lit("/dev/i2c-");
        r.append(u64_to_dec(self.bus as u64).as_str());
        r
    }

    /// The result of the switch given what the transfers produced: the
    /// bytes read back, or the error that stopped them.
    pub fn outcome(&self, io: Result<Vec<u8>>) -> (r: Result<()>)
        ensures
            switch_ok(self.fatal_on_error, io, self.vcp_code, self.input) <==> r is Ok,
            self.fatal_on_error ==> match io {
                Err(e) => r == Err::<(), ChalybsError>(e),
                Ok(buf) => match reply_error(buf@, self.vcp_code, self.input) {
                    None => r is Ok,
                    Some(t) => r matches Err(ChalybsError::Peripheral(m)) && m@ == t,
                },
            },
    {
        let ll = match io {
            Err(e) => Err(e),
            Ok(buf) => verify_vcp_reply(buf.as_slice(), self.vcp_code, self.input),
        };
        if ll.is_err() && !self.fatal_on_error {
            Ok(())
        } else {
            ll
        }
    }
}

/// DDC peripheral hook.
#[derive(Debug, Clone, Copy)]
pub struct DdcHook {
    pub cfg: DdcConfig,
}

/// The switch to `input` described by `s`, for configuration `cfg`.
pub open spec fn is_switch(s: DdcSwitch, cfg: DdcConfig, input: u8, phase: Seq<char>) -> bool {
    &&& s.bus == cfg.monitor_i2c_bus
    &&& s.vcp_code == VCP_CODE_INPUT_SOURCE
    &&& s.input == input
    &&& s.phase@ == phase
    &&& s.fatal_on_error == cfg.fatal_on_error
    &&& s.set_frame@ == set_vcp_frame(VCP_CODE_INPUT_SOURCE, input)
    &&& s.get_frame@ == get_vcp_frame(VCP_CODE_INPUT_SOURCE)
}

impl DdcHook {
    pub fn new(cfg: DdcConfig) -> (r: Self)
        ensures
            r.cfg == cfg,
    {
        DdcHook { cfg }
    }

    /// The switch of the monitor to `input`.
    pub fn set_input(&self, input: u8, phase: &str) -> (r: DdcSwitch)
        ensures
            is_switch(r, self.cfg, input, phase@),
    {
        DdcSwitch {
            bus: self.cfg.monitor_i2c_bus,
            vcp_code: VCP_CODE_INPUT_SOURCE,
            input,
            phase: lit(phase),
            fatal_on_error: self.cfg.fatal_on_error,
            set_frame: set_vcp_request(VCP_CODE_INPUT_SOURCE, input),
            get_frame: get_vcp_request(VCP_CODE_INPUT_SOURCE),
        }
    }

    /// VM start: switch to the VM's input.
    pub fn vm_up(&self) -> (r: DdcSwitch)
        ensures
            is_switch(r, self.cfg, self.cfg.vm_input, "vm_up"@),
    {
        self.set_input(self.cfg.vm_input, "vm_up")
    }

    /// VM stop: switch back to the host's input.
    pub fn vm_down(&self) -> (r: DdcSwitch)
        ensures
            is_switch(r, self.cfg, self.cfg.host_input, "vm_down"@),
    {
        self.set_input(self.cfg.host_input, "vm_down")
    }
}

/// The switch to the VM's input made once IRQ pinning has completed.
pub fn switch_to_vm_input_after_irq(cfg: DdcConfig) -> (r: DdcSwitch)
    ensures
        is_switch(r, cfg, cfg.vm_input, "irq_complete"@),
{
    let hook = DdcHook::new(cfg);
    hook.set_input(hook.cfg.vm_input, "irq_complete")
}

} // verus!
