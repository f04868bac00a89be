use garden::codec::{decode_command, decode_message, encode_command, encode_message};
use garden::environment::BME688SensorReport;
use garden::flags::{DeviceStatus, StatusFlags};
use garden::protocol::{Command, DevAddr, Message, Transmission};
use garden::readings::{MoistureReading, MoistureSensorReport, Readings};

fn moisture_message(readings: &[(u16, u32)]) -> Message {
    let mut moisture = Readings::new();
    for &(clocks, duration_ms) in readings {
        moisture.push(MoistureReading { clocks, duration_ms }).unwrap();
    }
    Message::MoistureReport(MoistureSensorReport { moisture })
}

#[test]
fn moisture_message_round_trip() {
    let t = Transmission { src: DevAddr(0x69), msg: moisture_message(&[(1, 2), (65_535, u32::MAX), (0, 0)]) };
    let bytes = encode_message(&t);
    let back = decode_message(&bytes).unwrap();
    assert_eq!(back.src, DevAddr(0x69));
    match back.msg {
        Message::MoistureReport(r) => assert_eq!(
            r.moisture.to_vec(),
            vec![
                MoistureReading { clocks: 1, duration_ms: 2 },
                MoistureReading { clocks: 65_535, duration_ms: u32::MAX },
                MoistureReading { clocks: 0, duration_ms: 0 },
            ]
        ),
        other => panic!("wrong variant: {:?}", other),
    }
}

#[test]
fn full_moisture_message_round_trip() {
    let readings: Vec<(u16, u32)> = (0..8u16).map(|i| (i * 1000, 1000 + i as u32)).collect();
    let t = Transmission { src: DevAddr(7), msg: moisture_message(&readings) };
    let bytes = encode_message(&t);
    assert_eq!(bytes.len(), 2 + 2 + 8 * 6);
    match decode_message(&bytes).unwrap().msg {
        Message::MoistureReport(r) => {
            let got: Vec<(u16, u32)> = r.moisture.to_vec().iter().map(|m| (m.clocks, m.duration_ms)).collect();
            assert_eq!(got, readings);
        }
        other => panic!("wrong variant: {:?}", other),
    }
}

#[test]
fn environment_message_round_trip() {
    let rep = BME688SensorReport { temp: -12_345, pressure: 101_325_000, humidity: 45_500, gas_resistance: 4_000_000_000 };
    let t = Transmission { src: DevAddr(0x69), msg: Message::BME688Report(rep) };
    let back = decode_message(&encode_message(&t)).unwrap();
    assert_eq!(back.src, DevAddr(0x69));
    match back.msg {
        Message::BME688Report(r) => assert_eq!(r, rep),
        other => panic!("wrong variant: {:?}", other),
    }
}

#[test]
fn status_message_round_trip() {
    for flags in [StatusFlags::empty(), StatusFlags::pump(), StatusFlags::valve(), StatusFlags::all()] {
        let t = Transmission { src: DevAddr(0xffff), msg: Message::StatusUpdate(DeviceStatus { flags }) };
        let back = decode_message(&encode_message(&t)).unwrap();
        assert_eq!(back.src, DevAddr(0xffff));
        match back.msg {
            Message::StatusUpdate(s) => assert_eq!(s.flags, flags),
            other => panic!("wrong variant: {:?}", other),
        }
    }
}

#[test]
fn command_round_trip() {
    for msg in [Command::Reset, Command::SyncFlags(StatusFlags::pump()), Command::SyncFlags(StatusFlags::all())] {
        let t = Transmission { src: DevAddr(69), msg };
        let back = decode_command(&encode_command(&t)).unwrap();
        assert_eq!(back.src, DevAddr(69));
        assert_eq!(back.msg, msg);
    }
}

#[test]
fn status_frame_bytes() {
    let t = Transmission { src: DevAddr(0x0169), msg: Message::StatusUpdate(DeviceStatus { flags: StatusFlags::valve() }) };
    assert_eq!(encode_message(&t), vec![0x69, 0x01, 2, 0b10]);
}

#[test]
fn moisture_frame_bytes() {
    let t = Transmission { src: DevAddr(0x69), msg: moisture_message(&[(0x0102, 0x0a0b0c0d)]) };
    assert_eq!(encode_message(&t), vec![0x69, 0, 0, 1, 0x02, 0x01, 0x0d, 0x0c, 0x0b, 0x0a]);
}

#[test]
fn environment_frame_bytes() {
    let rep = BME688SensorReport { temp: -1, pressure: 1, humidity: 256, gas_resistance: 0x01020304 };
    let t = Transmission { src: DevAddr(1), msg: Message::BME688Report(rep) };
    assert_eq!(
        encode_message(&t),
        vec![1, 0, 1, 0xff, 0xff, 0xff, 0xff, 1, 0, 0, 0, 0, 1, 0, 0, 4, 3, 2, 1]
    );
}

#[test]
fn command_frame_bytes() {
    let t = Transmission { src: DevAddr(69), msg: Command::SyncFlags(StatusFlags::pump()) };
    assert_eq!(encode_command(&t), vec![69, 0, 0, 1]);
    let t = Transmission { src: DevAddr(69), msg: Command::Reset };
    assert_eq!(encode_command(&t), vec![69, 0, 1]);
}

#[test]
fn trailing_bytes_ignored() {
    let mut bytes = vec![69, 0, 0, 3];
    bytes.extend_from_slice(&[0; 251]);
    let t = decode_command(&bytes).unwrap();
    assert_eq!(t.msg, Command::SyncFlags(StatusFlags::all()));
}

#[test]
fn malformed_frames_rejected() {
    assert!(decode_message(&[]).is_none());
    assert!(decode_message(&[0x69, 0]).is_none());
    assert!(decode_message(&[0x69, 0, 3, 0]).is_none());
    assert!(decode_message(&[0x69, 0, 2]).is_none());
    assert!(decode_message(&[0x69, 0, 2, 4]).is_none());
    assert!(decode_message(&[0x69, 0, 0, 9]).is_none());
    assert!(decode_message(&[0x69, 0, 0, 1, 1, 2, 3, 4, 5]).is_none());
    assert!(decode_message(&[0x69, 0, 1, 0, 0, 0]).is_none());
    assert!(decode_command(&[69, 0]).is_none());
    assert!(decode_command(&[69, 0, 0]).is_none());
    assert!(decode_command(&[69, 0, 0, 0x80]).is_none());
    assert!(decode_command(&[69, 0, 2]).is_none());
}

#[test]
fn flag_bits() {
    assert_eq!(StatusFlags::empty().bits(), 0);
    assert_eq!(StatusFlags::pump().bits(), 1);
    assert_eq!(StatusFlags::valve().bits(), 2);
    assert_eq!(StatusFlags::all().bits(), 3);
    assert_eq!(StatusFlags::from_bits(2), Some(StatusFlags::valve()));
    assert_eq!(StatusFlags::from_bits(4), None);
    let mut f = StatusFlags::empty();
    f.set(StatusFlags::pump(), true);
    assert!(f.contains(StatusFlags::pump()));
    assert!(!f.contains(StatusFlags::all()));
    f.set(StatusFlags::all(), true);
    f.set(StatusFlags::pump(), false);
    assert_eq!(f, StatusFlags::valve());
    assert!(!f.is_empty());
    assert!(StatusFlags::empty().is_empty());
}
