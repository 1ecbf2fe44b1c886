use open_channel::cereal::CerealStream;
use open_channel::cereal::ConfigError;
use open_channel::cereal::DecodeError;
use open_channel::cereal::Packager;
use open_channel::cereal::create_packger;
use open_channel::message::Message;
use open_channel::serial_params::Parity;
use open_channel::serial_params::StopBits;

#[test]
fn stream_fifo_order() {
    let mut stream = CerealStream::new();
    assert_eq!(stream.is_empty(), true);

    stream.push_bytes(&[1, 2, 3]);
    assert_eq!(stream.is_empty(), false);

    let out = stream.pop_bytes(2);
    assert_eq!(out, Ok([1, 2].to_vec()));
    assert_eq!(stream.is_empty(), false);

    let out = stream.pop_byte();
    assert_eq!(out, Ok(3));
    assert_eq!(stream.is_empty(), true);
}

#[test]
fn stream_underrun_leaves_bytes() {
    let mut stream = CerealStream::new();
    assert_eq!(stream.pop_byte(), Err(DecodeError::Underrun));
    stream.push_bytes(&[7, 8]);
    assert_eq!(stream.pop_bytes(3), Err(DecodeError::Underrun));
    assert_eq!(stream.get_vec(), vec![7, 8]);
    assert_eq!(stream.pop_bytes(2), Ok(vec![7, 8]));
    assert_eq!(stream.pop_bytes(1), Err(DecodeError::Underrun));
}

#[test]
fn stream_default_is_empty() {
    let stream = CerealStream::default();
    assert!(stream.is_empty());
    assert_eq!(stream.get_vec(), Vec::<u8>::new());
}

#[test]
fn registry_rejects_duplicate_ids() {
    let mut packager = Packager::new();
    assert_eq!(packager.add_flavor(Message::Ping), Ok(()));
    assert_eq!(packager.add_flavor(Message::Pong), Ok(()));
    assert_eq!(packager.add_flavor(Message::Ping), Err(ConfigError::DuplicateId));
    // Distinct ids still register after a rejection.
    assert_eq!(packager.add_flavor(Message::VersionQuery), Ok(()));
}

#[test]
fn packager_round_trip() {
    let mut packager = create_packger();
    assert!(packager.is_empty());

    let params = Message::SerialParams {
        channel: 1,
        baud: 19200,
        parity: Parity::Even,
        stop: StopBits::One,
    };
    let samples = Message::AdcData {
        channel: 1,
        data: [1024, 1999, 0, -800, -900].to_vec(),
    };

    packager.unpack(&params);
    packager.unpack(&samples);
    assert!(!packager.is_empty());

    packager.pack().unwrap();
    assert_eq!(packager.get_slot(8), Some(&params));

    packager.pack().unwrap();
    assert_eq!(packager.get_slot(6), Some(&samples));

    assert!(packager.is_empty());
}

#[test]
fn packager_slot_keeps_last_decoded_value() {
    let mut packager = create_packger();
    let first = Message::VersionData { major: 1, minor: 2, maintenance: 3, build: 4 };
    let second = Message::VersionData { major: 4, minor: 1, maintenance: 9, build: 3 };

    packager.unpack(&first);
    packager.unpack(&second);

    packager.pack().unwrap();
    assert_eq!(packager.get_slot(4), Some(&first));

    packager.pack().unwrap();
    assert_eq!(packager.get_slot(4), Some(&second));
}

#[test]
fn packager_unknown_id_stops_stream() {
    let mut packager = Packager::new();
    packager.add_flavor(Message::Ping).unwrap();
    let pong = Message::Pong;
    packager.unpack(&pong);
    // Pong's id was never registered, so packing it fails.
    assert_eq!(packager.pack(), Err(DecodeError::UnknownType));
}

#[test]
fn packager_underrun_on_empty_stream() {
    let mut packager = create_packger();
    assert_eq!(packager.pack(), Err(DecodeError::Underrun));
}

#[test]
fn packager_decode_loop_drains_stream() {
    let mut packager = create_packger();
    let messages = [
        Message::Ping,
        Message::VersionData { major: 1, minor: 2, maintenance: 3, build: 4 },
        Message::AdcQuery { channel: 3, length: 4, increment_usec: 1500 },
        Message::Status { rcv_count: 7, snd_count: 9, rcv_fails: 1 },
    ];
    for msg in &messages {
        packager.unpack(msg);
    }
    let mut packed: usize = 0;
    while !packager.is_empty() {
        packager.pack().unwrap();
        packed += 1;
    }
    assert_eq!(packed, messages.len());
    assert_eq!(packager.get_slot(1), Some(&messages[0]));
    assert_eq!(packager.get_slot(4), Some(&messages[1]));
    assert_eq!(packager.get_slot(5), Some(&messages[2]));
    assert_eq!(packager.get_slot(7), Some(&messages[3]));
}

#[test]
fn get_slot_unregistered_id_is_none() {
    let packager = Packager::new();
    assert_eq!(packager.get_slot(1), None);
}
