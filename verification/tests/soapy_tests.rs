use soapy_pmt::builder::SoapyDevBuilder;
use soapy_pmt::config::pmt_to_f64;
use soapy_pmt::config::pmt_to_usize;
use soapy_pmt::config::SoapyConfig;
use soapy_pmt::config::SoapyConfigItem;
use soapy_pmt::config::SoapyDirection;
use soapy_pmt::device::DeviceCall;
use soapy_pmt::device::SoapyCommand;
use soapy_pmt::device::SoapyDevice;
use soapy_pmt::device::SoapyDir;
use soapy_pmt::error::SoapyError;
use soapy_pmt::num::trunc_f64_usize;
use soapy_pmt::num::u64_to_f64;
use soapy_pmt::num::widen_f32;
use soapy_pmt::pmt::Pmt;
use soapy_pmt::pmt::PmtAny;

fn session(chans: Vec<usize>) -> SoapyDevice {
    let mut b = SoapyDevBuilder::new();
    for c in chans {
        b = b.channel(c);
    }
    let mut dev = b.build();
    dev.apply_init_config(true, &SoapyDirection::Rx).unwrap();
    dev
}

#[test]
fn widen_matches_hardware() {
    for x in [
        0.0f32, -0.0, 1.0, 0.1, -3.75, f32::MIN_POSITIVE, f32::INFINITY, f32::NEG_INFINITY,
        f32::MAX, 1.0e-42,
    ] {
        assert_eq!(widen_f32(x.to_bits()), (x as f64).to_bits());
    }
    // A signalling-style payload stays put under the standard embedding.
    assert_eq!(widen_f32(1u32), (f32::from_bits(1) as f64).to_bits());
}

#[test]
fn u64_to_f64_matches_hardware() {
    for v in [
        0u64,
        1,
        42,
        (1u64 << 53) - 1,
        (1u64 << 53) + 1,
        (1u64 << 53) + 2,
        (1u64 << 53) + 3,
        u64::MAX,
        u64::MAX - 1023,
        0x20000000000001,
        0x20000000000003,
    ] {
        assert_eq!(u64_to_f64(v), (v as f64).to_bits(), "v = {}", v);
    }
}

#[test]
fn trunc_matches_hardware() {
    for x in [
        0.0f64, -0.0, 0.5, 2.9, -1.5, 1e18, 1.8e19, 2e19, f64::NAN, f64::INFINITY,
        f64::NEG_INFINITY, 4294967296.0,
    ] {
        assert_eq!(trunc_f64_usize(x.to_bits()), x as usize, "x = {}", x);
    }
}

#[test]
fn pmt_numeric_coercions() {
    assert_eq!(pmt_to_f64(&Pmt::F64(2.5f64.to_bits())), Ok(2.5f64.to_bits()));
    assert_eq!(pmt_to_f64(&Pmt::F32(1.0f32.to_bits())), Ok(1.0f64.to_bits()));
    assert_eq!(pmt_to_f64(&Pmt::U32(100_000_000)), Ok(100e6f64.to_bits()));
    assert_eq!(pmt_to_f64(&Pmt::U64(u64::MAX)), Ok((u64::MAX as f64).to_bits()));
    assert_eq!(
        pmt_to_f64(&Pmt::String("1.0".to_owned())),
        Err(SoapyError::Conversion)
    );
    assert_eq!(pmt_to_usize(&Pmt::U32(7)), Ok(7));
    assert_eq!(pmt_to_usize(&Pmt::F64(2.9f64.to_bits())), Ok(2));
    assert_eq!(pmt_to_usize(&Pmt::F32(3.5f32.to_bits())), Ok(3));
    assert_eq!(pmt_to_usize(&Pmt::Null), Err(SoapyError::Conversion));
}

#[test]
fn config_cmd_map() {
    // The legacy map and the directly built sequence must issue the same
    // device calls.
    let map = Pmt::MapStrPmt(vec![
        ("freq".to_owned(), Pmt::F64(100e6f64.to_bits())),
        ("gain".to_owned(), Pmt::F32(1.0f32.to_bits())),
        ("chan".to_owned(), Pmt::U32(0)),
    ]);
    let cfg = SoapyConfig::try_from(map).unwrap();

    let mut direct = SoapyConfig::new();
    direct.push(SoapyConfigItem::Channel(Some(0)));
    direct.push(SoapyConfigItem::Freq(100e6f64.to_bits()));
    direct.push(SoapyConfigItem::Gain(1.0f64.to_bits()));

    let dev = session(vec![0]);
    let from_map = dev.apply_config(&cfg, &SoapyDirection::Rx);
    let from_direct = dev.apply_config(&direct, &SoapyDirection::Rx);
    assert_eq!(from_map, from_direct);
    assert_eq!(
        from_direct,
        vec![
            DeviceCall::SetFrequency(SoapyDir::Rx, 0, 100e6f64.to_bits()),
            DeviceCall::SetGain(SoapyDir::Rx, 0, 1.0f64.to_bits()),
        ]
    );

    // Key order among independent keys does not matter.
    let map2 = Pmt::MapStrPmt(vec![
        ("chan".to_owned(), Pmt::U32(0)),
        ("gain".to_owned(), Pmt::F32(1.0f32.to_bits())),
        ("freq".to_owned(), Pmt::F64(100e6f64.to_bits())),
    ]);
    let cfg2 = SoapyConfig::try_from(map2).unwrap();
    let from_map2 = dev.apply_config(&cfg2, &SoapyDirection::Rx);
    // Same calls, possibly in a different order; here both orders produce
    // the same pair of calls on channel zero.
    let mut sorted_a: Vec<String> = from_map.iter().map(|c| format!("{:?}", c)).collect();
    let mut sorted_b: Vec<String> = from_map2.iter().map(|c| format!("{:?}", c)).collect();
    sorted_a.sort();
    sorted_b.sort();
    assert_eq!(sorted_a, sorted_b);
}

#[test]
fn channel_reset_is_reset_not_union() {
    let g2 = 2.0f64.to_bits();
    let g3 = 3.0f64.to_bits();
    let mut cfg = SoapyConfig::new();
    cfg.push(SoapyConfigItem::Channel(Some(1)));
    cfg.push(SoapyConfigItem::Gain(g2));
    cfg.push(SoapyConfigItem::Channel(None));
    cfg.push(SoapyConfigItem::Gain(g3));

    let dev = session(vec![0, 1]);
    let calls = dev.apply_config(&cfg, &SoapyDirection::Rx);
    assert_eq!(
        calls,
        vec![
            DeviceCall::SetGain(SoapyDir::Rx, 1, g2),
            DeviceCall::SetGain(SoapyDir::Rx, 0, g3),
            DeviceCall::SetGain(SoapyDir::Rx, 1, g3),
        ]
    );
    // Channel 1 last received gain 3.0; channel 0 received 3.0 and
    // never 2.0.
    assert!(!calls.contains(&DeviceCall::SetGain(SoapyDir::Rx, 0, g2)));
}

#[test]
fn sample_rate_targets_rx_channel_zero() {
    let rate = 2e6f64.to_bits();
    let mut cfg = SoapyConfig::new();
    cfg.push(SoapyConfigItem::Channel(Some(1)));
    cfg.push(SoapyConfigItem::Direction(SoapyDirection::Tx));
    cfg.push(SoapyConfigItem::SampleRate(rate));

    let dev = session(vec![0, 1]);
    let calls = dev.apply_config(&cfg, &SoapyDirection::Rx);
    assert_eq!(calls, vec![DeviceCall::SetSampleRate(SoapyDir::Rx, 0, rate)]);
}

#[test]
fn unrecognized_key_is_skipped() {
    let map = Pmt::MapStrPmt(vec![
        ("bogus".to_owned(), Pmt::U32(1)),
        ("freq".to_owned(), Pmt::F64(100e6f64.to_bits())),
        ("antenna".to_owned(), Pmt::U32(2)),
    ]);
    let cfg = SoapyConfig::try_from(map).unwrap();
    assert_eq!(cfg.0.len(), 1);
    assert!(matches!(cfg.0[0], SoapyConfigItem::Freq(b) if b == 100e6f64.to_bits()));
}

#[test]
fn empty_map_is_legal() {
    let cfg = SoapyConfig::try_from(Pmt::MapStrPmt(vec![])).unwrap();
    assert_eq!(cfg.0.len(), 0);
}

#[test]
fn try_from_prefers_opaque_path() {
    let mut direct = SoapyConfig::new();
    direct.push(SoapyConfigItem::Bandwidth(5e6f64.to_bits()));
    let cfg = SoapyConfig::try_from(direct.to_pmt()).unwrap();
    assert_eq!(cfg.0.len(), 1);
    assert!(matches!(cfg.0[0], SoapyConfigItem::Bandwidth(b) if b == 5e6f64.to_bits()));

    let single = Pmt::Any(PmtAny::ConfigItem(SoapyConfigItem::Channel(None)));
    let cfg2 = SoapyConfig::try_from(single).unwrap();
    assert_eq!(cfg2.0.len(), 1);
    assert!(matches!(cfg2.0[0], SoapyConfigItem::Channel(None)));

    assert_eq!(
        SoapyConfig::try_from(Pmt::U32(1)).unwrap_err(),
        SoapyError::Conversion
    );
}

#[test]
fn apply_without_device_is_soft_success() {
    let mut cfg = SoapyConfig::new();
    cfg.push(SoapyConfigItem::Gain(1.0f64.to_bits()));
    let dev = SoapyDevBuilder::new().channel(0).build();
    assert!(!dev.dev);
    let calls = dev.apply_config(&cfg, &SoapyDirection::Rx);
    assert!(calls.is_empty());

    let r = dev.base_cmd_handler(cfg.to_pmt(), &SoapyDirection::Rx);
    let (reply, calls) = r.unwrap();
    assert_eq!(reply, Pmt::Null);
    assert!(calls.is_empty());
}

#[test]
fn cmd_handler_paths() {
    let dev = session(vec![0]);
    let mut cfg = SoapyConfig::new();
    cfg.push(SoapyConfigItem::Freq(90e6f64.to_bits()));

    // A command through the opaque path.
    let cmd = Pmt::Any(PmtAny::Command(SoapyCommand::Config(cfg.clone())));
    let (reply, calls) = dev.base_cmd_handler(cmd, &SoapyDirection::Rx).unwrap();
    assert_eq!(reply, Pmt::Null);
    assert_eq!(
        calls,
        vec![DeviceCall::SetFrequency(SoapyDir::Rx, 0, 90e6f64.to_bits())]
    );

    // A bare configuration through the opaque path.
    let (_, calls2) = dev
        .base_cmd_handler(cfg.to_pmt(), &SoapyDirection::Rx)
        .unwrap();
    assert_eq!(calls, calls2);

    // A legacy map.
    let map = Pmt::MapStrPmt(vec![("freq".to_owned(), Pmt::F64(90e6f64.to_bits()))]);
    let (_, calls3) = dev.base_cmd_handler(map, &SoapyDirection::Rx).unwrap();
    assert_eq!(calls, calls3);

    // Unimplemented command, unconvertible value.
    let get = Pmt::Any(PmtAny::Command(SoapyCommand::GetConfig()));
    assert_eq!(
        dev.base_cmd_handler(get, &SoapyDirection::Rx).unwrap_err(),
        SoapyError::Unsupported
    );
    assert_eq!(
        dev.base_cmd_handler(Pmt::U64(1), &SoapyDirection::Rx).unwrap_err(),
        SoapyError::Conversion
    );
}

#[test]
fn direction_scope_resolution() {
    let bw = 1e6f64.to_bits();
    let mut cfg = SoapyConfig::new();
    cfg.push(SoapyConfigItem::Direction(SoapyDirection::Both));
    cfg.push(SoapyConfigItem::Bandwidth(bw));
    cfg.push(SoapyConfigItem::Direction(SoapyDirection::Neither));
    cfg.push(SoapyConfigItem::Bandwidth(bw));
    cfg.push(SoapyConfigItem::Direction(SoapyDirection::Default));
    cfg.push(SoapyConfigItem::Bandwidth(bw));

    let dev = session(vec![0]);
    let calls = dev.apply_config(&cfg, &SoapyDirection::Tx);
    assert_eq!(
        calls,
        vec![
            DeviceCall::SetBandwidth(SoapyDir::Rx, 0, bw),
            DeviceCall::SetBandwidth(SoapyDir::Tx, 0, bw),
            // Neither issues nothing; Default resolves to the block's own
            // direction.
            DeviceCall::SetBandwidth(SoapyDir::Tx, 0, bw),
        ]
    );
}

#[test]
fn is_rx_is_tx() {
    assert!(SoapyDirection::Rx.is_rx(&SoapyDirection::Neither));
    assert!(!SoapyDirection::Rx.is_tx(&SoapyDirection::Neither));
    assert!(SoapyDirection::Both.is_rx(&SoapyDirection::Neither));
    assert!(SoapyDirection::Both.is_tx(&SoapyDirection::Neither));
    assert!(SoapyDirection::Default.is_rx(&SoapyDirection::Rx));
    assert!(!SoapyDirection::Default.is_tx(&SoapyDirection::Rx));
    assert!(!SoapyDirection::Default.is_rx(&SoapyDirection::Default));
    assert!(!SoapyDirection::Neither.is_rx(&SoapyDirection::Rx));
}

#[test]
fn legacy_ports() {
    let dev = session(vec![0, 1]);
    let f = 101e6f64.to_bits();
    let (reply, calls) = dev
        .set_freq(Pmt::F64(f), &SoapyDirection::Rx)
        .unwrap();
    assert_eq!(reply, Pmt::Null);
    assert_eq!(calls, vec![DeviceCall::SetFrequency(SoapyDir::Rx, 0, f)]);

    let r = 1e6f64.to_bits();
    let (_, calls) = dev
        .set_sample_rate(Pmt::U32(1_000_000), &SoapyDirection::Tx)
        .unwrap();
    assert_eq!(calls, vec![DeviceCall::SetSampleRate(SoapyDir::Tx, 0, r)]);

    let unattached = SoapyDevBuilder::new().build();
    assert_eq!(
        unattached
            .set_freq(Pmt::F64(f), &SoapyDirection::Rx)
            .unwrap_err(),
        SoapyError::DeviceAbsent
    );
    assert_eq!(
        dev.set_freq(Pmt::Null, &SoapyDirection::Rx).unwrap_err(),
        SoapyError::Conversion
    );
}

#[test]
fn builder_and_init() {
    let f = 100e6f64.to_bits();
    let r = 1e6f64.to_bits();
    let g = 10.0f64.to_bits();
    let builder = SoapyDevBuilder::new()
        .freq(f)
        .sample_rate(r)
        .gain(g)
        .antenna("RX2")
        .filter("driver=uhd")
        .channel(0)
        .channel(1)
        .activate_time(5);
    let mut dev = builder.build();
    assert!(!dev.dev);
    assert_eq!(dev.chans, vec![0, 1]);
    assert_eq!(dev.init_cfg.activate_time, Some(5));

    // A failed lookup is fatal.
    let mut dev2 = SoapyDevBuilder::new().filter("driver=none").build();
    assert_eq!(
        dev2.apply_init_config(false, &SoapyDirection::Rx).unwrap_err(),
        SoapyError::DeviceInit
    );
    assert!(!dev2.dev);

    // A successful acquisition attaches the device, adopts the channel
    // list and plans the initial sequence.
    let calls = dev.apply_init_config(true, &SoapyDirection::Rx).unwrap();
    assert!(dev.dev);
    assert_eq!(
        calls,
        vec![
            DeviceCall::SetFrequency(SoapyDir::Rx, 0, f),
            DeviceCall::SetFrequency(SoapyDir::Rx, 1, f),
            DeviceCall::SetSampleRate(SoapyDir::Rx, 0, r),
            DeviceCall::SetGain(SoapyDir::Rx, 0, g),
            DeviceCall::SetGain(SoapyDir::Rx, 1, g),
            DeviceCall::SetAntenna(SoapyDir::Rx, 0, "RX2".to_owned()),
            DeviceCall::SetAntenna(SoapyDir::Rx, 1, "RX2".to_owned()),
        ]
    );
}

#[test]
fn default_channel_is_zero() {
    let dev = SoapyDevBuilder::new().build();
    assert_eq!(dev.chans, vec![0]);
}
