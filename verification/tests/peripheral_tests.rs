use chalybs::config::{DdcConfig, LookingGlassConfig, PeripheralConfig, SpiceConfig, TasmotaConfig};
use chalybs::error::ChalybsError;
use chalybs::peripherals::ddc::{
    compute_ddc_checksum, get_vcp_request, set_vcp_request, switch_to_vm_input_after_irq,
    verify_vcp_reply, DdcHook,
};
use chalybs::peripherals::tasmota::TasmotaHook;
use chalybs::peripherals::{vm_down_steps, vm_up_steps, PeripheralStep};

fn ddc_cfg(fatal: bool) -> DdcConfig {
    DdcConfig {
        monitor_i2c_bus: 4,
        vm_input: 0x0f,
        host_input: 0x11,
        fatal_on_error: fatal,
    }
}

fn tasmota(host: &str, user: Option<&str>, pass: Option<&str>) -> TasmotaHook {
    TasmotaHook::new(TasmotaConfig {
        mqtt_host: host.to_string(),
        username: user.map(|s| s.to_string()),
        password: pass.map(|s| s.to_string()),
        device_id: "desk".to_string(),
    })
}

#[test]
fn ddc_checksum_is_xor_of_address_and_payload() {
    assert_eq!(compute_ddc_checksum(0x6e, &[]), 0x6e);
    assert_eq!(compute_ddc_checksum(0x6e, &[0x51, 0x84, 0x03, 0x60, 0x00, 0x0f]), 0xd7);
}

#[test]
fn ddc_frames_are_exact() {
    assert_eq!(set_vcp_request(0x60, 0x0f), vec![0x51, 0x84, 0x03, 0x60, 0x00, 0x0f, 0xd7]);
    assert_eq!(get_vcp_request(0x60), vec![0x51, 0x82, 0x01, 0x60, 0xdc]);
}

#[test]
fn ddc_reply_verification() {
    let mut reply = [0x6e, 0x88, 0x00, 0x60, 0x00, 0x00, 0x12, 0x00, 0x0f];
    assert!(verify_vcp_reply(&reply, 0x60, 0x0f).is_ok());
    reply[8] = 0x11;
    match verify_vcp_reply(&reply, 0x60, 0x0f) {
        Err(ChalybsError::Peripheral(m)) => assert_eq!(
            m,
            "DDC: verification failed: monitor returned 0x11, expected 0x0f"
        ),
        other => panic!("unexpected: {other:?}"),
    }
    // Short or foreign replies are not judged.
    assert!(verify_vcp_reply(&reply[..8], 0x60, 0x0f).is_ok());
    reply[3] = 0x10;
    assert!(verify_vcp_reply(&reply, 0x60, 0x0f).is_ok());
}

#[test]
fn ddc_hook_switches_and_outcome() {
    let hook = DdcHook::new(ddc_cfg(true));
    let up = hook.vm_up();
    assert_eq!(up.input, 0x0f);
    assert_eq!(up.phase, "vm_up");
    assert_eq!(up.device_path(), "/dev/i2c-4");
    assert_eq!(up.set_frame, set_vcp_request(0x60, 0x0f));
    let down = hook.vm_down();
    assert_eq!(down.input, 0x11);
    assert_eq!(down.phase, "vm_down");
    let irq = switch_to_vm_input_after_irq(ddc_cfg(false));
    assert_eq!(irq.phase, "irq_complete");
    assert_eq!(irq.input, 0x0f);

    let bad_reply = vec![0x6e, 0x88, 0x00, 0x60, 0x00, 0x00, 0x12, 0x00, 0x01];
    assert!(up.outcome(Ok(bad_reply.clone())).is_err());
    assert!(up.outcome(Err(ChalybsError::Io("no device".to_string()))).is_err());
    // Not fatal: failures are swallowed.
    assert!(irq.outcome(Ok(bad_reply)).is_ok());
    assert!(irq.outcome(Err(ChalybsError::Io("no device".to_string()))).is_ok());
}

#[test]
fn tasmota_host_parsing() {
    let (h, p) = tasmota(" broker.lan:1883 ", None, None).parse_mqtt_host().unwrap();
    assert_eq!(h, "broker.lan");
    assert_eq!(p, 1883);
    let msg = |host: &str| match tasmota(host, None, None).parse_mqtt_host() {
        Err(ChalybsError::Peripheral(m)) => m,
        other => panic!("unexpected: {other:?}"),
    };
    assert_eq!(msg("  "), "tasmota: mqtt_host is empty");
    assert_eq!(msg(":1883"), "tasmota: invalid mqtt_host `:1883`");
    assert_eq!(msg("broker"), "tasmota: mqtt_host missing port `broker`");
    assert_eq!(msg("broker:99999"), "tasmota: mqtt_host has invalid port `broker:99999`");
    assert_eq!(msg("broker:x"), "tasmota: mqtt_host has invalid port `broker:x`");
}

#[test]
fn tasmota_power_command_fields() {
    let c = tasmota("10.0.0.2:1883", Some("u"), None).power_command(true).unwrap();
    assert_eq!(c.host, "10.0.0.2");
    assert_eq!(c.port, 1883);
    assert_eq!(c.client_id, "chalybs-desk");
    assert_eq!(c.topic, "cmnd/desk/POWER");
    assert_eq!(c.payload, "ON");
    assert_eq!(c.keep_alive_secs, 5);
    assert_eq!(c.channel_capacity, 10);
    assert_eq!(c.credentials, Some(("u".to_string(), String::new())));
    let off = tasmota("10.0.0.2:1883", None, None).power_command(false).unwrap();
    assert_eq!(off.payload, "OFF");
    assert!(off.credentials.is_none());
    assert!(tasmota("nope", None, None).power_command(true).is_err());
}

#[test]
fn peripheral_step_order() {
    let cfg = Some(PeripheralConfig {
        tasmota: Some(TasmotaConfig {
            mqtt_host: "b:1".to_string(),
            username: None,
            password: None,
            device_id: "d".to_string(),
        }),
        ddc: Some(ddc_cfg(false)),
        looking_glass: Some(LookingGlassConfig { shm_name: "looking-glass".to_string(), mem_mb: 64 }),
        spice: Some(SpiceConfig { enabled: true, port: 5900, addr: "127.0.0.1".to_string() }),
    });
    assert_eq!(
        vm_up_steps(&cfg, false),
        vec![
            PeripheralStep::Tasmota(true),
            PeripheralStep::DdcDeferred,
            PeripheralStep::LookingGlass(true),
            PeripheralStep::Spice(true)
        ]
    );
    assert_eq!(vm_up_steps(&cfg, true)[1], PeripheralStep::Ddc(true));
    assert_eq!(
        vm_down_steps(&cfg),
        vec![
            PeripheralStep::Tasmota(false),
            PeripheralStep::Ddc(false),
            PeripheralStep::LookingGlass(false),
            PeripheralStep::Spice(false)
        ]
    );
    assert!(vm_up_steps(&None, true).is_empty());
}
