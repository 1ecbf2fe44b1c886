use open_channel::boxes::SerialParams;
use open_channel::serial_params::CharLength;
use open_channel::serial_params::Parity;
use open_channel::serial_params::StopBits;

#[test]
fn my_ser() {
    let pstr = "9600:8E1";
    let sp = SerialParams::from_str(1, pstr);

    assert_eq!(
        sp,
        Ok(SerialParams {
            channel: 1,
            baud: 9600,
            char_len: CharLength::Eight,
            parity: Parity::Even,
            stop: StopBits::One
        })
    );

    let pstr = "19200:7o2";
    let sp = SerialParams::from_str(1, pstr);

    assert_eq!(
        sp,
        Ok(SerialParams {
            channel: 1,
            baud: 19200,
            char_len: CharLength::Seven,
            parity: Parity::Odd,
            stop: StopBits::Two
        })
    );

    let pstr = "4800:7n1.5";
    let sp = SerialParams::from_str(1, pstr);

    assert_eq!(
        sp,
        Ok(SerialParams {
            channel: 1,
            baud: 4800,
            char_len: CharLength::Seven,
            parity: Parity::NoParity,
            stop: StopBits::OneAndHalf
        })
    );
}

#[test]
fn from_str_rejects_bad_format() {
    assert_eq!(SerialParams::from_str(1, "9600"), Err("invalid Params format"));
    assert_eq!(SerialParams::from_str(1, "9600:8E1:extra"), Err("invalid Params format"));
    assert_eq!(SerialParams::from_str(1, "9600:8E12"), Err("invalid Params format"));
    assert_eq!(SerialParams::from_str(1, ""), Err("invalid Params format"));
}

#[test]
fn from_str_rejects_bad_baud() {
    assert_eq!(SerialParams::from_str(1, "96a0:8E1"), Err("invalid baud"));
    assert_eq!(SerialParams::from_str(1, ":8E1"), Err("invalid baud"));
    assert_eq!(SerialParams::from_str(1, "99999999999:8E1"), Err("invalid baud"));
    assert_eq!(SerialParams::from_str(1, "+:8E1"), Err("invalid baud"));
}

#[test]
fn from_str_accepts_leading_plus_and_max() {
    let sp = SerialParams::from_str(2, "+9600:8E1").unwrap();
    assert_eq!(sp.baud, 9600);
    assert_eq!(sp.channel, 2);
    let sp = SerialParams::from_str(2, "4294967295:8E1").unwrap();
    assert_eq!(sp.baud, u32::MAX);
    assert_eq!(SerialParams::from_str(2, "4294967296:8E1"), Err("invalid baud"));
}

#[test]
fn from_str_rejects_bad_char_length() {
    assert_eq!(SerialParams::from_str(1, "9600:9E1"), Err("invalid char length"));
    assert_eq!(SerialParams::from_str(1, "9600:6E1"), Err("invalid char length"));
}

#[test]
fn from_str_rejects_bad_parity() {
    assert_eq!(SerialParams::from_str(1, "9600:8X1"), Err("invalid parity"));
}

#[test]
fn from_str_rejects_bad_stop_bits() {
    // The stop-bits check reports the same text as the parity check.
    assert_eq!(SerialParams::from_str(1, "9600:8E3"), Err("invalid parity"));
    assert_eq!(SerialParams::from_str(1, "9600:8E2.5"), Err("invalid parity"));
}

#[test]
fn serial_params_default_block() {
    let d = SerialParams::default();
    assert_eq!(
        d,
        SerialParams {
            channel: 0,
            baud: 0,
            char_len: CharLength::Eight,
            parity: Parity::NoParity,
            stop: StopBits::One
        }
    );
}

#[test]
fn default_enum_values() {
    assert_eq!(Parity::default(), Parity::NoParity);
    assert_eq!(StopBits::default(), StopBits::One);
    assert_eq!(CharLength::default(), CharLength::Eight);
}

#[test]
fn enum_bytes_round_trip() {
    assert_eq!(CharLength::from_byte(&CharLength::Eight.get_byte()), Some(CharLength::Eight));
    assert_eq!(CharLength::from_byte(&CharLength::Seven.get_byte()), Some(CharLength::Seven));
    assert_eq!(Parity::from_byte(&Parity::NoParity.get_byte()), Some(Parity::NoParity));
    assert_eq!(Parity::from_byte(&Parity::Even.get_byte()), Some(Parity::Even));
    assert_eq!(Parity::from_byte(&Parity::Odd.get_byte()), Some(Parity::Odd));
    assert_eq!(StopBits::from_byte(&StopBits::One.get_byte()), Some(StopBits::One));
    assert_eq!(StopBits::from_byte(&StopBits::Two.get_byte()), Some(StopBits::Two));
    assert_eq!(StopBits::from_byte(&StopBits::OneAndHalf.get_byte()), Some(StopBits::OneAndHalf));
    assert_eq!(Parity::from_byte(&33), None);
    assert_eq!(StopBits::from_byte(&33), None);
    assert_eq!(CharLength::from_byte(&33), None);
}
