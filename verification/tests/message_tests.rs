use open_channel::cereal::DecodeError;
use open_channel::message::Message;
use open_channel::message::Package;
use open_channel::serial_params::Parity;
use open_channel::serial_params::StopBits;

#[test]
fn scribble() {
    let bytes = b"\x08\x09\xA0\xA1 hello".to_vec();
    let le_u32 = u32::from_le_bytes((&bytes[0..4]).try_into().unwrap());

    assert_eq!(0xa1a00908, le_u32);

    let input_data: Vec<i16> = vec![100, 200, 300];

    let result_bytes: Vec<u8> = input_data
        .iter()
        .flat_map(|&value| value.to_le_bytes().to_vec())
        .collect();

    assert_eq!(result_bytes, [100, 0, 200, 0, 44, 1]);
}

#[test]
fn check_ping_pong() {
    let mut serial = Package::new();

    let ping = Message::Ping;

    ping.serialize(&mut serial).unwrap();
    assert_eq!([1], serial.get_vec()[..]);

    let rx_message = Message::deserialize(&mut serial);
    assert_eq!(rx_message.unwrap(), Message::Ping);

    let pong = Message::Pong;

    pong.serialize(&mut serial).unwrap();
    assert_eq!([2], serial.get_vec()[..]);

    let rx_message = Message::deserialize(&mut serial);
    assert_eq!(rx_message.unwrap(), Message::Pong);
}

#[test]
fn check_version() {
    let mut serial = Package::new();

    let query = Message::VersionQuery;

    query.serialize(&mut serial).unwrap();
    assert_eq!([3], serial.get_vec()[..]);

    let rx_message = Message::deserialize(&mut serial);
    assert_eq!(rx_message.unwrap(), query);

    let response = Message::VersionData {
        major: 1,
        minor: 2,
        maintenance: 3,
        build: 4,
    };

    response.serialize(&mut serial).unwrap();
    assert_eq!([4, 1, 2, 3, 4], serial.get_vec()[..]);

    let rx_message = Message::deserialize(&mut serial);
    assert_eq!(rx_message.unwrap(), response);
}

#[test]
fn check_adc() {
    let mut serial = Package::new();

    let query = Message::AdcQuery {
        channel: 1,
        length: 100,
        increment_usec: 5,
    };

    query.serialize(&mut serial).unwrap();
    assert_eq!([5, 1, 100, 5, 0, 0, 0], serial.get_vec()[..]);

    let rx_message = Message::deserialize(&mut serial);
    assert_eq!(rx_message.unwrap(), query);

    let response = Message::AdcData {
        channel: 1,
        data: [1024, 1999, 0, -800, -900].to_vec(),
    };

    response.serialize(&mut serial).unwrap();
    assert_eq!(
        [6, 1, 10, 0, 0, 4, 207, 7, 0, 0, 224, 252, 124, 252],
        serial.get_vec()[..]
    );

    let rx_message = Message::deserialize(&mut serial);
    assert_eq!(rx_message.unwrap(), response);
}

#[test]
fn check_status() {
    let mut serial = Package::new();

    let status = Message::Status {
        rcv_count: 260,
        snd_count: 270,
        rcv_fails: 0,
    };

    status.serialize(&mut serial).unwrap();
    assert_eq!([7, 4, 1, 14, 1, 0, 0], serial.get_vec()[..]);

    let rx_message = Message::deserialize(&mut serial);
    assert_eq!(rx_message.unwrap(), status);
}

#[test]
fn check_parms() {
    let mut serial = Package::new();

    let params = Message::SerialParams {
        channel: 1,
        baud: 19200,
        parity: Parity::Even,
        stop: StopBits::One,
    };

    params.serialize(&mut serial).unwrap();
    assert_eq!([8, 1, 0, 75, 0, 0, 1, 1], serial.get_vec()[..]);

    let rx_message = Message::deserialize(&mut serial);
    assert_eq!(rx_message.unwrap(), params);
}

#[test]
fn check_multiple_deserialize() {
    let mut serial = Package::new();

    let params = Message::SerialParams {
        channel: 1,
        baud: 19200,
        parity: Parity::Even,
        stop: StopBits::One,
    };
    let response = Message::AdcData {
        channel: 1,
        data: [1024, 1999, 0, -800, -900].to_vec(),
    };

    params.serialize(&mut serial).unwrap();
    assert_eq!([8, 1, 0, 75, 0, 0, 1, 1], serial.get_vec()[..]);

    response.serialize(&mut serial).unwrap();
    assert_eq!(
        [8, 1, 0, 75, 0, 0, 1, 1, 6, 1, 10, 0, 0, 4, 207, 7, 0, 0, 224, 252, 124, 252],
        serial.get_vec()[..]
    );

    let rx_message = Message::deserialize(&mut serial);
    assert_eq!(rx_message.unwrap(), params);

    assert_eq!(
        [6, 1, 10, 0, 0, 4, 207, 7, 0, 0, 224, 252, 124, 252],
        serial.get_vec()[..]
    );

    let rx_message = Message::deserialize(&mut serial);
    assert_eq!(rx_message.unwrap(), response);
}

#[test]
fn deserialize_empty_package_underruns() {
    let mut serial = Package::new();
    assert_eq!(Message::deserialize(&mut serial), Err(DecodeError::Underrun));
    assert_eq!(serial.get_vec(), Vec::<u8>::new());
}

#[test]
fn deserialize_unknown_id_fails() {
    let mut serial = Package::new();
    serial.push_bytes(&[99, 1, 2, 3]);
    assert_eq!(Message::deserialize(&mut serial), Err(DecodeError::UnknownType));
    // The id byte is consumed; the payload bytes are left.
    assert_eq!(serial.get_vec(), vec![1, 2, 3]);
}

#[test]
fn deserialize_truncated_version_data_underruns() {
    let mut serial = Package::new();
    serial.push_bytes(&[4, 1, 2]);
    assert_eq!(Message::deserialize(&mut serial), Err(DecodeError::Underrun));
    // The failing field read consumes nothing beyond the id byte.
    assert_eq!(serial.get_vec(), vec![1, 2]);
}

#[test]
fn deserialize_truncated_adc_payload_underruns() {
    let mut serial = Package::new();
    // Header promises 10 payload bytes but only 4 follow.
    serial.push_bytes(&[6, 1, 10, 0, 0, 4, 207, 7]);
    assert_eq!(Message::deserialize(&mut serial), Err(DecodeError::Underrun));
    // The three header bytes stay consumed; the partial payload is left.
    assert_eq!(serial.get_vec(), vec![0, 4, 207, 7]);
}

#[test]
fn round_trip_every_variant() {
    let messages = vec![
        Message::Ping,
        Message::Pong,
        Message::VersionQuery,
        Message::VersionData { major: 255, minor: 0, maintenance: 7, build: 9 },
        Message::AdcQuery { channel: 2, length: 0, increment_usec: u32::MAX },
        Message::AdcData { channel: 3, data: vec![i16::MIN, -1, 0, 1, i16::MAX] },
        Message::Status { rcv_count: u16::MAX, snd_count: 0, rcv_fails: 513 },
        Message::SerialParams {
            channel: 9,
            baud: 115200,
            parity: Parity::Odd,
            stop: StopBits::OneAndHalf,
        },
    ];
    for msg in &messages {
        let mut serial = Package::new();
        msg.serialize(&mut serial).unwrap();
        let back = Message::deserialize(&mut serial).unwrap();
        assert_eq!(&back, msg);
        assert!(serial.get_vec().is_empty());
    }
}

#[test]
fn empty_adc_data_encodes_header_only() {
    let mut serial = Package::new();
    let msg = Message::AdcData { channel: 5, data: Vec::new() };
    msg.serialize(&mut serial).unwrap();
    assert_eq!(serial.get_vec(), vec![6, 5, 0, 0]);
    let back = Message::deserialize(&mut serial).unwrap();
    assert_eq!(back, msg);
    assert!(serial.get_vec().is_empty());
}

#[test]
fn odd_adc_length_prefix_keeps_framing() {
    // An odd byte count consumes exactly the prefixed number of bytes; the
    // trailing odd byte carries no sample, and the next message still
    // decodes from its own id byte.
    let mut serial = Package::new();
    serial.push_bytes(&[6, 9, 3, 0, 0, 4, 7, 2]);
    let first = Message::deserialize(&mut serial).unwrap();
    assert_eq!(first, Message::AdcData { channel: 9, data: vec![1024] });
    let second = Message::deserialize(&mut serial).unwrap();
    assert_eq!(second, Message::Pong);
    assert!(serial.get_vec().is_empty());
}

#[test]
fn serial_params_lenient_enum_bytes() {
    // A parity or stop byte outside the coded sets falls back to the
    // defaults rather than failing the stream.
    let mut serial = Package::new();
    serial.push_bytes(&[8, 1, 0, 75, 0, 0, 77, 88]);
    let back = Message::deserialize(&mut serial).unwrap();
    assert_eq!(
        back,
        Message::SerialParams {
            channel: 1,
            baud: 19200,
            parity: Parity::NoParity,
            stop: StopBits::One,
        }
    );
}

#[test]
fn get_typeid_matches_catalog() {
    assert_eq!(Message::Ping.get_typeid(), 1);
    assert_eq!(Message::Pong.get_typeid(), 2);
    assert_eq!(Message::VersionQuery.get_typeid(), 3);
    assert_eq!(
        Message::VersionData { major: 0, minor: 0, maintenance: 0, build: 0 }.get_typeid(),
        4
    );
    assert_eq!(
        Message::AdcQuery { channel: 0, length: 0, increment_usec: 0 }.get_typeid(),
        5
    );
    assert_eq!(Message::AdcData { channel: 0, data: Vec::new() }.get_typeid(), 6);
    assert_eq!(
        Message::Status { rcv_count: 0, snd_count: 0, rcv_fails: 0 }.get_typeid(),
        7
    );
    assert_eq!(
        Message::SerialParams {
            channel: 0,
            baud: 0,
            parity: Parity::NoParity,
            stop: StopBits::One,
        }
        .get_typeid(),
        8
    );
}
