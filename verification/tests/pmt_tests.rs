use soapy_pmt::config::SoapyConfig;
use soapy_pmt::config::SoapyConfigItem;
use soapy_pmt::device::SoapyCommand;
use soapy_pmt::error::SoapyError;
use soapy_pmt::pmt::map_get;
use soapy_pmt::pmt::Pmt;
use soapy_pmt::pmt::PmtAny;
use soapy_pmt::pmt::PmtAnySerde;
use soapy_pmt::pmt::PmtKind;

#[test]
fn pmt() {
    let p = Pmt::Null;
    assert!(!p.is_string());
    assert_eq!(p.to_string(), None);
    let p = Pmt::String("foo".to_owned());
    assert!(p.is_string());
    assert_eq!(p.to_string(), Some("foo".to_owned()));
}

#[test]
fn pmt_serde() {
    let p = Pmt::Null;
    let bytes = p.serialize();
    let p2 = Pmt::deserialize(bytes.as_slice()).unwrap();
    assert_eq!(p, p2);
}

#[test]
fn pmt_eq() {
    let a = Pmt::Null;
    let b = Pmt::U32(123);
    assert_ne!(a, b);

    let c = Pmt::Null;
    let d = Pmt::U32(12);
    let e = Pmt::U32(123);
    assert_eq!(a, c);
    assert_eq!(b, e);
    assert_ne!(b, d);

    let f1 = Pmt::F32(0.1f32.to_bits());
    let f2 = Pmt::F32(0.1f32.to_bits());
    let f3 = Pmt::F32(0.2f32.to_bits());
    assert_eq!(f1, f2);
    assert_ne!(f1, f3);
}

#[test]
fn vec_pmt() {
    let vpmt = Pmt::VecPmt(vec![Pmt::U32(1), Pmt::U32(2)]);

    if let Pmt::VecPmt(v) = vpmt {
        assert_eq!(v[0], Pmt::U32(1));
        assert_eq!(v[1], Pmt::U32(2));
    } else {
        panic!("Not a Pmt::VecPmt");
    }
}

#[test]
fn map_str_pmt() {
    let u32val = 42;
    let f64val: f64 = 6.02214076e23;

    let msp = Pmt::MapStrPmt(vec![
        ("str".to_owned(), Pmt::String("a string".to_owned())),
        (
            "submap".to_owned(),
            Pmt::MapStrPmt(vec![
                ("U32".to_owned(), Pmt::U32(u32val)),
                ("F64".to_owned(), Pmt::F64(f64val.to_bits())),
            ]),
        ),
    ]);

    if let Pmt::MapStrPmt(m) = msp {
        if let Some(Pmt::MapStrPmt(sm)) = map_get(&m, "submap") {
            assert_eq!(map_get(sm, "U32"), Some(&Pmt::U32(u32val)));
            assert_eq!(map_get(sm, "F64"), Some(&Pmt::F64(f64val.to_bits())));
        } else {
            panic!("Could not get submap");
        }
    } else {
        panic!("Not a Pmt::MapStrPmt");
    }
}

#[test]
fn map_eq_ignores_entry_order() {
    let a = Pmt::MapStrPmt(vec![
        ("x".to_owned(), Pmt::U32(1)),
        ("y".to_owned(), Pmt::U32(2)),
    ]);
    let b = Pmt::MapStrPmt(vec![
        ("y".to_owned(), Pmt::U32(2)),
        ("x".to_owned(), Pmt::U32(1)),
    ]);
    assert_eq!(a, b);
    let c = Pmt::MapStrPmt(vec![
        ("x".to_owned(), Pmt::U32(1)),
        ("z".to_owned(), Pmt::U32(2)),
    ]);
    assert_ne!(a, c);
}

#[test]
fn opaque_values_equal_nothing() {
    let cfg = SoapyConfig::new();
    let a = Pmt::Any(PmtAny::Config(cfg.clone()));
    let b = Pmt::Any(PmtAny::Config(cfg));
    // The extension points are excluded from equality, even against
    // themselves.
    assert_ne!(a, b);
    assert_ne!(a, a.clone());
    assert_ne!(a, Pmt::Null);
}

#[test]
fn opaque_downcast_mismatch_is_absent() {
    let a = PmtAny::Command(SoapyCommand::GetConfig());
    let r: Option<&SoapyConfig> = a.downcast_ref::<SoapyConfig>();
    assert!(r.is_none());
    let r2: Option<&SoapyConfigItem> = a.downcast_ref::<SoapyConfigItem>();
    assert!(r2.is_none());
    let r3: Option<&SoapyCommand> = a.downcast_ref::<SoapyCommand>();
    assert!(r3.is_some());
}

#[test]
fn round_trip_primitives() {
    let values = vec![
        Pmt::Null,
        Pmt::String("hello world".to_owned()),
        Pmt::String(String::new()),
        Pmt::U32(0xDEADBEEF),
        Pmt::U64(u64::MAX),
        Pmt::F32(3.5f32.to_bits()),
        Pmt::F64((-0.25f64).to_bits()),
        Pmt::VecF32(vec![1.0f32.to_bits(), 2.5f32.to_bits()]),
        Pmt::VecU64(vec![1, 2, 3]),
        Pmt::Blob(vec![0, 255, 128]),
    ];
    for v in values {
        let bytes = v.serialize();
        let back = Pmt::deserialize(bytes.as_slice()).unwrap();
        assert_eq!(v, back);
    }
}

#[test]
fn round_trip_containers() {
    let v = Pmt::MapStrPmt(vec![
        ("list".to_owned(), Pmt::VecPmt(vec![Pmt::U32(7), Pmt::String("x".to_owned())])),
        ("blob".to_owned(), Pmt::Blob(vec![1, 2, 3])),
    ]);
    let bytes = v.serialize();
    let back = Pmt::deserialize(bytes.as_slice()).unwrap();
    assert_eq!(v, back);
}

#[test]
fn round_trip_any_serde() {
    let mut cfg = SoapyConfig::new();
    cfg.push(SoapyConfigItem::Freq(100e6f64.to_bits()));
    cfg.push(SoapyConfigItem::Antenna("TX/RX".to_owned()));
    let v = Pmt::AnySerde(PmtAnySerde::Config(cfg));
    let bytes = v.serialize();
    let back = Pmt::deserialize(bytes.as_slice()).unwrap();
    match back {
        Pmt::AnySerde(a) => {
            let got: &SoapyConfig = a.downcast_ref::<SoapyConfig>().expect("downcast failed");
            assert_eq!(got.0.len(), 2);
            assert!(matches!(got.0[0], SoapyConfigItem::Freq(b) if b == 100e6f64.to_bits()));
            assert!(matches!(&got.0[1], SoapyConfigItem::Antenna(a) if a == "TX/RX"));
        }
        _ => panic!("not Pmt::AnySerde"),
    }
}

#[test]
fn opaque_is_omitted_from_the_wire() {
    let v = Pmt::Any(PmtAny::Command(SoapyCommand::GetConfig()));
    let bytes = v.serialize();
    let back = Pmt::deserialize(bytes.as_slice()).unwrap();
    assert_eq!(back, Pmt::Null);
}

#[test]
fn deserialize_unknown_tag() {
    let v = Pmt::AnySerde(PmtAnySerde::Config(SoapyConfig::new()));
    let mut bytes = v.serialize();
    // The registry tag string starts after the value tag and the count:
    // turn "SoapyConfig" into "XoapyConfig".
    assert_eq!(bytes[9], b'S' as u8);
    bytes[9] = b'X' as u8;
    assert_eq!(Pmt::deserialize(bytes.as_slice()), Err(SoapyError::UnknownTag));
}

#[test]
fn deserialize_malformed() {
    assert_eq!(Pmt::deserialize(&[]), Err(SoapyError::Conversion));
    assert_eq!(Pmt::deserialize(&[200]), Err(SoapyError::Conversion));
    // A truncated U32.
    assert_eq!(Pmt::deserialize(&[2, 1, 2]), Err(SoapyError::Conversion));
    // Trailing bytes after a complete value.
    assert_eq!(Pmt::deserialize(&[0, 0]), Err(SoapyError::Conversion));
}

#[test]
fn from_string_parses() {
    assert_eq!(Pmt::from_string("123", &PmtKind::U32), Some(Pmt::U32(123)));
    assert_eq!(Pmt::from_string("+12", &PmtKind::U32), Some(Pmt::U32(12)));
    assert_eq!(Pmt::from_string("4294967295", &PmtKind::U32), Some(Pmt::U32(u32::MAX)));
    assert_eq!(Pmt::from_string("4294967296", &PmtKind::U32), None);
    assert_eq!(Pmt::from_string("", &PmtKind::U32), None);
    assert_eq!(Pmt::from_string("+", &PmtKind::U32), None);
    assert_eq!(Pmt::from_string("12a", &PmtKind::U32), None);
    assert_eq!(
        Pmt::from_string("18446744073709551615", &PmtKind::U64),
        Some(Pmt::U64(u64::MAX))
    );
    assert_eq!(Pmt::from_string("18446744073709551616", &PmtKind::U64), None);
    assert_eq!(
        Pmt::from_string("abc", &PmtKind::String),
        Some(Pmt::String("abc".to_owned()))
    );
    assert_eq!(Pmt::from_string("1.5", &PmtKind::Null), None);
}
