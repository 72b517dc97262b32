use daqlink::app_msg::AppMsg;
use daqlink::framing::{MsgReader, MsgWriter, ReadError};
use daqlink::mcu_msg::{McuMsg, MAX_COUNT};
use daqlink::samples::AdcPoints;
use daqlink::wire::{
    get_bytes, get_i32, get_points, get_u16, get_u32, put_bytes, put_i32, put_points, put_u16,
    put_u32, take_points, Decoded, EncodeError,
};

fn set(base: i32) -> AdcPoints {
    AdcPoints { values: [base, base + 1, base + 2, base + 3, base + 4, base + 5] }
}

fn mcu_round_trip(msg: McuMsg, max_len: usize) {
    let frame = msg.encode(max_len).unwrap();
    assert_eq!(McuMsg::decode(&frame, max_len), Decoded::Frame { msg: msg.clone(), len: frame.len() });
    let mut longer = frame.clone();
    longer.extend_from_slice(&[0xee, 0xee]);
    assert_eq!(McuMsg::decode(&longer, max_len), Decoded::Frame { msg, len: frame.len() });
    for cut in 0..frame.len() {
        assert_eq!(McuMsg::decode(&frame[..cut], max_len), Decoded::Incomplete);
    }
}

fn app_round_trip(msg: AppMsg, max_len: usize) {
    let frame = msg.encode(max_len).unwrap();
    assert_eq!(AppMsg::decode(&frame, max_len), Decoded::Frame { msg: msg.clone(), len: frame.len() });
    let mut longer = frame.clone();
    longer.extend_from_slice(&[0xee, 0xee]);
    assert_eq!(AppMsg::decode(&longer, max_len), Decoded::Frame { msg, len: frame.len() });
    for cut in 0..frame.len() {
        assert_eq!(AppMsg::decode(&frame[..cut], max_len), Decoded::Incomplete);
    }
}

#[test]
fn scalars_are_little_endian() {
    let mut out: Vec<u8> = vec![0xaa];
    put_u16(&mut out, 0x1234);
    put_u32(&mut out, 0xdead_beef);
    put_i32(&mut out, -2);
    put_i32(&mut out, 0x0102_0304);
    assert_eq!(
        out,
        vec![0xaa, 0x34, 0x12, 0xef, 0xbe, 0xad, 0xde, 0xfe, 0xff, 0xff, 0xff, 4, 3, 2, 1]
    );
    assert_eq!(get_u16(&out, 1), 0x1234);
    assert_eq!(get_u32(&out, 3), 0xdead_beef);
    assert_eq!(get_i32(&out, 7), -2);
    assert_eq!(get_i32(&out, 11), 0x0102_0304);
}

#[test]
fn extreme_scalars_survive() {
    for v in [i32::MIN, -1, 0, 1, i32::MAX] {
        let mut out: Vec<u8> = Vec::new();
        put_i32(&mut out, v);
        assert_eq!(out, v.to_le_bytes().to_vec());
        assert_eq!(get_i32(&out, 0), v);
    }
    for v in [0u32, 1, 0x8000_0000, u32::MAX] {
        let mut out: Vec<u8> = Vec::new();
        put_u32(&mut out, v);
        assert_eq!(out, v.to_le_bytes().to_vec());
        assert_eq!(get_u32(&out, 0), v);
    }
    for v in [0u16, 255, 256, u16::MAX] {
        let mut out: Vec<u8> = Vec::new();
        put_u16(&mut out, v);
        assert_eq!(out, v.to_le_bytes().to_vec());
        assert_eq!(get_u16(&out, 0), v);
    }
}

#[test]
fn runs_of_points_and_bytes_are_packed() {
    let mut out: Vec<u8> = vec![9];
    put_points(&mut out, &[1, -1]);
    put_bytes(&mut out, &[7, 8]);
    assert_eq!(out, vec![9, 1, 0, 0, 0, 0xff, 0xff, 0xff, 0xff, 7, 8]);
    assert_eq!(get_points(&out, 1, 2), vec![1, -1]);
    assert_eq!(get_points(&out, 1, 0), Vec::<i32>::new());
    assert_eq!(get_bytes(&out, 9, 2), vec![7, 8]);
    assert_eq!(take_points(&[5, 6, 7], 2), vec![5, 6]);
}

#[test]
fn device_frames_have_the_documented_layout() {
    assert_eq!(McuMsg::Empty.encode(259), Ok(vec![0]));
    assert_eq!(McuMsg::DinUpdate { value: 0x5a }.encode(259), Ok(vec![1, 0x5a]));
    assert_eq!(McuMsg::DacRequest { count: 0x0102_0304 }.encode(259), Ok(vec![2, 4, 3, 2, 1]));
    let data = McuMsg::AdcData { points_arrays: vec![set(1)] };
    let mut expected: Vec<u8> = vec![3, 1, 0];
    for v in 1..=6u8 {
        expected.extend_from_slice(&[v, 0, 0, 0]);
    }
    assert_eq!(data.encode(259), Ok(expected));
    assert_eq!(
        McuMsg::Error { code: 7, message: b"bad".to_vec() }.encode(259),
        Ok(vec![4, 7, 3, 0, b'b', b'a', b'd'])
    );
    assert_eq!(McuMsg::Debug { message: b"hi".to_vec() }.encode(259), Ok(vec![5, 2, 0, b'h', b'i']));
}

#[test]
fn supervisor_frames_have_the_documented_layout() {
    assert_eq!(AppMsg::Connect.encode(259), Ok(vec![0]));
    assert_eq!(AppMsg::KeepAlive.encode(259), Ok(vec![1]));
    assert_eq!(AppMsg::DoutUpdate { value: 0xf }.encode(259), Ok(vec![2, 0xf]));
    assert_eq!(AppMsg::DacState { enable: true }.encode(259), Ok(vec![3, 1]));
    assert_eq!(AppMsg::DacState { enable: false }.encode(259), Ok(vec![3, 0]));
    assert_eq!(
        AppMsg::DacData { points: vec![-1, 2] }.encode(259),
        Ok(vec![4, 2, 0, 0xff, 0xff, 0xff, 0xff, 2, 0, 0, 0])
    );
    assert_eq!(AppMsg::StatsReset.encode(259), Ok(vec![5]));
}

#[test]
fn every_device_message_survives_the_round_trip() {
    mcu_round_trip(McuMsg::Empty, 259);
    mcu_round_trip(McuMsg::DinUpdate { value: 255 }, 259);
    mcu_round_trip(McuMsg::DacRequest { count: 0 }, 259);
    mcu_round_trip(McuMsg::DacRequest { count: u32::MAX }, 259);
    mcu_round_trip(McuMsg::AdcData { points_arrays: vec![] }, 259);
    mcu_round_trip(McuMsg::AdcData { points_arrays: vec![set(-3)] }, 259);
    let most: Vec<AdcPoints> = (0..10).map(|k| set(k * 1000 - 5000)).collect();
    mcu_round_trip(McuMsg::AdcData { points_arrays: most }, 259);
    mcu_round_trip(McuMsg::Error { code: 0, message: vec![] }, 259);
    mcu_round_trip(McuMsg::Error { code: 1, message: vec![b'x'] }, 259);
    mcu_round_trip(McuMsg::Error { code: 255, message: vec![0x80; 255] }, 259);
    mcu_round_trip(McuMsg::Debug { message: vec![] }, 259);
    mcu_round_trip(McuMsg::Debug { message: vec![0] }, 259);
    mcu_round_trip(McuMsg::Debug { message: (0..=255u8).collect() }, 259);
}

#[test]
fn every_supervisor_message_survives_the_round_trip() {
    app_round_trip(AppMsg::Connect, 259);
    app_round_trip(AppMsg::KeepAlive, 259);
    app_round_trip(AppMsg::StatsReset, 259);
    app_round_trip(AppMsg::DoutUpdate { value: 0 }, 259);
    app_round_trip(AppMsg::DoutUpdate { value: 255 }, 259);
    app_round_trip(AppMsg::DacState { enable: false }, 259);
    app_round_trip(AppMsg::DacState { enable: true }, 259);
    app_round_trip(AppMsg::DacData { points: vec![] }, 259);
    app_round_trip(AppMsg::DacData { points: vec![i32::MIN] }, 259);
    let most: Vec<i32> = (0..64).map(|k| k * 7 - 100).collect();
    app_round_trip(AppMsg::DacData { points: most }, 259);
}

#[test]
fn largest_count_survives_the_round_trip() {
    let message: Vec<u8> = (0..MAX_COUNT).map(|k| (k % 251) as u8).collect();
    mcu_round_trip(McuMsg::Debug { message }, 3 + MAX_COUNT);
    let points: Vec<i32> = (0..MAX_COUNT as i32).collect();
    let msg = AppMsg::DacData { points };
    let frame = msg.encode(usize::MAX).unwrap();
    assert_eq!(frame.len(), 3 + 4 * MAX_COUNT);
    assert_eq!(AppMsg::decode(&frame, usize::MAX), Decoded::Frame { msg, len: 3 + 4 * MAX_COUNT });
}

#[test]
fn frame_longer_than_allowed_is_not_written() {
    assert_eq!(McuMsg::Empty.encode(0), Err(EncodeError::TooLong));
    assert_eq!(McuMsg::DinUpdate { value: 1 }.encode(1), Err(EncodeError::TooLong));
    assert_eq!(McuMsg::DacRequest { count: 1 }.encode(4), Err(EncodeError::TooLong));
    let eleven: Vec<AdcPoints> = (0..11).map(set).collect();
    assert_eq!(McuMsg::AdcData { points_arrays: eleven }.encode(259), Err(EncodeError::TooLong));
    assert_eq!(
        McuMsg::Error { code: 1, message: vec![0; 256] }.encode(259),
        Err(EncodeError::TooLong)
    );
    assert_eq!(McuMsg::Debug { message: vec![0; 257] }.encode(259), Err(EncodeError::TooLong));
    assert_eq!(McuMsg::Debug { message: vec![0; 256] }.encode(259).map(|f| f.len()), Ok(259));
    assert_eq!(AppMsg::Connect.encode(0), Err(EncodeError::TooLong));
    assert_eq!(AppMsg::DoutUpdate { value: 1 }.encode(1), Err(EncodeError::TooLong));
    assert_eq!(AppMsg::DacState { enable: true }.encode(1), Err(EncodeError::TooLong));
    assert_eq!(AppMsg::DacData { points: vec![0; 65] }.encode(259), Err(EncodeError::TooLong));
    assert_eq!(AppMsg::DacData { points: vec![0; 64] }.encode(259).map(|f| f.len()), Ok(259));
}

#[test]
fn array_longer_than_the_count_field_is_not_written() {
    let message: Vec<u8> = vec![0; MAX_COUNT + 1];
    assert_eq!(McuMsg::Debug { message }.encode(usize::MAX), Err(EncodeError::TooLong));
    let points: Vec<i32> = vec![0; MAX_COUNT + 1];
    assert_eq!(AppMsg::DacData { points }.encode(usize::MAX), Err(EncodeError::TooLong));
}

#[test]
fn unknown_tag_is_malformed() {
    assert_eq!(McuMsg::decode(&[6], 259), Decoded::Malformed);
    assert_eq!(McuMsg::decode(&[255, 0, 0], 259), Decoded::Malformed);
    assert_eq!(AppMsg::decode(&[6], 259), Decoded::Malformed);
    assert_eq!(AppMsg::decode(&[3, 2], 259), Decoded::Malformed);
}

#[test]
fn announced_length_beyond_the_limit_is_malformed() {
    assert_eq!(McuMsg::decode(&[3, 11, 0], 259), Decoded::Malformed);
    assert_eq!(McuMsg::decode(&[3, 10, 0], 259), Decoded::Incomplete);
    assert_eq!(McuMsg::decode(&[4, 1, 0, 1], 259), Decoded::Malformed);
    assert_eq!(McuMsg::decode(&[5, 1, 1], 259), Decoded::Malformed);
    assert_eq!(McuMsg::decode(&[5, 0, 1], 259), Decoded::Incomplete);
    assert_eq!(McuMsg::decode(&[2], 4), Decoded::Malformed);
    assert_eq!(McuMsg::decode(&[0], 0), Decoded::Malformed);
    assert_eq!(AppMsg::decode(&[4, 65, 0], 259), Decoded::Malformed);
    assert_eq!(AppMsg::decode(&[4, 64, 0], 259), Decoded::Incomplete);
    assert_eq!(AppMsg::decode(&[2], 1), Decoded::Malformed);
    assert_eq!(AppMsg::decode(&[], 259), Decoded::Incomplete);
}

#[test]
fn reader_waits_for_whole_frames() {
    let mut reader = MsgReader::new(259);
    assert_eq!(reader.read_mcu(), Ok(None));
    reader.feed(&[2, 9]);
    assert_eq!(reader.read_mcu(), Ok(None));
    assert_eq!(reader.pending(), 2);
    reader.feed(&[0, 0, 0, 0, 1]);
    assert_eq!(reader.read_mcu(), Ok(Some(McuMsg::DacRequest { count: 9 })));
    assert_eq!(reader.pending(), 2);
    assert_eq!(reader.read_mcu(), Ok(Some(McuMsg::Empty)));
    assert_eq!(reader.read_mcu(), Ok(None));
    reader.feed(&[0x33]);
    assert_eq!(reader.read_mcu(), Ok(Some(McuMsg::DinUpdate { value: 0x33 })));
    assert_eq!(reader.pending(), 0);
}

#[test]
fn reader_reports_malformed_frames_and_keeps_them() {
    let mut reader = MsgReader::new(259);
    reader.feed(&[9, 9, 9]);
    assert_eq!(reader.read_mcu(), Err(ReadError::Malformed));
    assert_eq!(reader.pending(), 3);
    assert_eq!(reader.read_app(), Err(ReadError::Malformed));
}

#[test]
fn reader_reports_end_of_transport() {
    let mut reader = MsgReader::new(259);
    reader.feed(&[0, 2, 1]);
    reader.end();
    assert_eq!(reader.read_mcu(), Ok(Some(McuMsg::Empty)));
    assert_eq!(reader.read_mcu(), Err(ReadError::Disconnected));
    assert_eq!(reader.pending(), 2);
    let mut idle = MsgReader::new(259);
    idle.end();
    assert_eq!(idle.read_app(), Err(ReadError::Disconnected));
}

#[test]
fn reader_reads_what_writer_wrote() {
    let mut writer = MsgWriter::new(259);
    let sent = vec![
        AppMsg::Connect,
        AppMsg::DacData { points: vec![1, 2, 3] },
        AppMsg::DoutUpdate { value: 5 },
        AppMsg::KeepAlive,
    ];
    for msg in &sent {
        assert_eq!(writer.write_app(msg), Ok(()));
    }
    let bytes = writer.take();
    assert_eq!(bytes.len(), 1 + 15 + 2 + 1);
    assert_eq!(writer.take(), Vec::<u8>::new());
    let mut reader = MsgReader::new(259);
    for byte in bytes {
        reader.feed(&[byte]);
    }
    for msg in sent {
        assert_eq!(reader.read_app(), Ok(Some(msg)));
    }
    assert_eq!(reader.read_app(), Ok(None));
}

#[test]
fn writer_adds_frames_whole_or_not_at_all() {
    let mut writer = MsgWriter::new(7);
    assert_eq!(writer.write_mcu(&McuMsg::Debug { message: vec![1, 2, 3, 4] }), Ok(()));
    assert_eq!(
        writer.write_mcu(&McuMsg::Debug { message: vec![1, 2, 3, 4, 5] }),
        Err(EncodeError::TooLong)
    );
    assert_eq!(writer.write_app(&AppMsg::DacData { points: vec![1, 2] }), Err(EncodeError::TooLong));
    assert_eq!(writer.write_app(&AppMsg::DacData { points: vec![1] }), Ok(()));
    assert_eq!(writer.take(), vec![5, 4, 0, 1, 2, 3, 4, 4, 1, 0, 1, 0, 0, 0]);
}
