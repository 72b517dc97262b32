use daqlink::device::write_array;
use daqlink::error::Error;
use daqlink::framing::{MsgReader, MsgWriter, ReadError};
use daqlink::ioc::{InMsg, OutMsg};
use daqlink::mcu_msg::MAX_COUNT;
use daqlink::wire::{Decoded, EncodeError};

fn in_round_trip(msg: InMsg, max_len: usize) {
    let frame = msg.encode(max_len).unwrap();
    assert_eq!(InMsg::decode(&frame, max_len), Decoded::Frame { msg: msg.clone(), len: frame.len() });
    let mut longer = frame.clone();
    longer.extend_from_slice(&[0xee, 0xee]);
    assert_eq!(InMsg::decode(&longer, max_len), Decoded::Frame { msg, len: frame.len() });
    for cut in 0..frame.len() {
        assert_eq!(InMsg::decode(&frame[..cut], max_len), Decoded::Incomplete);
    }
}

fn out_round_trip(msg: OutMsg, max_len: usize) {
    let frame = msg.encode(max_len).unwrap();
    assert_eq!(OutMsg::decode(&frame, max_len), Decoded::Frame { msg: msg.clone(), len: frame.len() });
    let mut longer = frame.clone();
    longer.extend_from_slice(&[0xee, 0xee]);
    assert_eq!(OutMsg::decode(&longer, max_len), Decoded::Frame { msg, len: frame.len() });
    for cut in 0..frame.len() {
        assert_eq!(OutMsg::decode(&frame[..cut], max_len), Decoded::Incomplete);
    }
}

#[test]
fn input_frames_have_the_documented_layout() {
    assert_eq!(InMsg::Ai { value: -2 }.encode(259), Ok(vec![0, 0xfe, 0xff, 0xff, 0xff]));
    assert_eq!(
        InMsg::Aai { values: vec![1, -1] }.encode(259),
        Ok(vec![1, 2, 0, 1, 0, 0, 0, 0xff, 0xff, 0xff, 0xff])
    );
    assert_eq!(InMsg::Waveform { values: vec![0x0102_0304] }.encode(259), Ok(vec![2, 1, 0, 4, 3, 2, 1]));
    assert_eq!(InMsg::Waveform { values: vec![] }.encode(259), Ok(vec![2, 0, 0]));
    assert_eq!(InMsg::Bi { value: 1 }.encode(259), Ok(vec![3, 1, 0, 0, 0]));
    assert_eq!(InMsg::MbbiDirect { value: 0xdead_beef }.encode(259), Ok(vec![4, 0xef, 0xbe, 0xad, 0xde]));
}

#[test]
fn output_frames_have_the_documented_layout() {
    assert_eq!(OutMsg::Ao { value: i32::MIN }.encode(259), Ok(vec![0, 0, 0, 0, 0x80]));
    assert_eq!(OutMsg::Aao { values: vec![7] }.encode(259), Ok(vec![1, 1, 0, 7, 0, 0, 0]));
    assert_eq!(OutMsg::Bo { value: 0 }.encode(259), Ok(vec![2, 0, 0, 0, 0]));
    assert_eq!(OutMsg::MbboDirect { value: u32::MAX }.encode(259), Ok(vec![3, 0xff, 0xff, 0xff, 0xff]));
}

#[test]
fn every_input_message_survives_the_round_trip() {
    for value in [i32::MIN, -1, 0, 1, i32::MAX] {
        in_round_trip(InMsg::Ai { value }, 259);
    }
    for value in [0u32, 1, 0x8000_0000, u32::MAX] {
        in_round_trip(InMsg::Bi { value }, 259);
        in_round_trip(InMsg::MbbiDirect { value }, 259);
    }
    let most: Vec<i32> = (0..64).map(|k| k * 1_000_003 - 7).collect();
    for values in [vec![], vec![-5], most] {
        in_round_trip(InMsg::Aai { values: values.clone() }, 259);
        in_round_trip(InMsg::Waveform { values }, 259);
    }
}

#[test]
fn every_output_message_survives_the_round_trip() {
    for value in [i32::MIN, -1, 0, 1, i32::MAX] {
        out_round_trip(OutMsg::Ao { value }, 259);
    }
    for value in [0u32, 1, 0x8000_0000, u32::MAX] {
        out_round_trip(OutMsg::Bo { value }, 259);
        out_round_trip(OutMsg::MbboDirect { value }, 259);
    }
    let most: Vec<i32> = (0..64).map(|k| 5 - k * 99).collect();
    for values in [vec![], vec![i32::MAX], most] {
        out_round_trip(OutMsg::Aao { values }, 259);
    }
    let widest: Vec<i32> = (0..MAX_COUNT as i32).collect();
    out_round_trip(OutMsg::Aao { values: widest }, 3 + 4 * MAX_COUNT);
}

#[test]
fn variable_frames_longer_than_allowed_are_not_written() {
    assert_eq!(InMsg::Ai { value: 1 }.encode(4), Err(EncodeError::TooLong));
    assert_eq!(InMsg::Bi { value: 1 }.encode(4), Err(EncodeError::TooLong));
    assert_eq!(InMsg::MbbiDirect { value: 1 }.encode(0), Err(EncodeError::TooLong));
    assert_eq!(InMsg::Ai { value: 1 }.encode(5).map(|f| f.len()), Ok(5));
    assert_eq!(InMsg::Aai { values: vec![0; 65] }.encode(259), Err(EncodeError::TooLong));
    assert_eq!(InMsg::Aai { values: vec![0; 64] }.encode(259).map(|f| f.len()), Ok(259));
    assert_eq!(InMsg::Waveform { values: vec![] }.encode(2), Err(EncodeError::TooLong));
    assert_eq!(
        InMsg::Waveform { values: vec![0; MAX_COUNT + 1] }.encode(usize::MAX),
        Err(EncodeError::TooLong)
    );
    assert_eq!(OutMsg::Ao { value: 1 }.encode(4), Err(EncodeError::TooLong));
    assert_eq!(OutMsg::Bo { value: 1 }.encode(4), Err(EncodeError::TooLong));
    assert_eq!(OutMsg::MbboDirect { value: 1 }.encode(4), Err(EncodeError::TooLong));
    assert_eq!(OutMsg::Aao { values: vec![0; 65] }.encode(259), Err(EncodeError::TooLong));
    assert_eq!(
        OutMsg::Aao { values: vec![0; MAX_COUNT + 1] }.encode(usize::MAX),
        Err(EncodeError::TooLong)
    );
}

#[test]
fn unknown_or_overlong_variable_frames_are_malformed() {
    assert_eq!(InMsg::decode(&[5, 0, 0, 0, 0], 259), Decoded::Malformed);
    assert_eq!(OutMsg::decode(&[4, 0, 0, 0, 0], 259), Decoded::Malformed);
    assert_eq!(InMsg::decode(&[1, 65, 0], 259), Decoded::Malformed);
    assert_eq!(InMsg::decode(&[1, 64, 0], 259), Decoded::Incomplete);
    assert_eq!(InMsg::decode(&[2, 0, 1], 259), Decoded::Malformed);
    assert_eq!(InMsg::decode(&[0], 4), Decoded::Malformed);
    assert_eq!(InMsg::decode(&[1], 2), Decoded::Malformed);
    assert_eq!(InMsg::decode(&[], 259), Decoded::Incomplete);
    assert_eq!(OutMsg::decode(&[1, 65, 0], 259), Decoded::Malformed);
    assert_eq!(OutMsg::decode(&[2, 1], 4), Decoded::Malformed);
    assert_eq!(OutMsg::decode(&[], 0), Decoded::Incomplete);
}

#[test]
fn reader_reads_input_messages_frame_by_frame() {
    let mut reader = MsgReader::new(259);
    assert_eq!(reader.read_in(), Ok(None));
    reader.feed(&[0, 9, 0]);
    assert_eq!(reader.read_in(), Ok(None));
    reader.feed(&[0, 0, 1, 1, 0, 3]);
    assert_eq!(reader.read_in(), Ok(Some(InMsg::Ai { value: 9 })));
    assert_eq!(reader.read_in(), Ok(None));
    assert_eq!(reader.pending(), 4);
    reader.feed(&[0, 0, 0]);
    assert_eq!(reader.read_in(), Ok(Some(InMsg::Aai { values: vec![3] })));
    assert_eq!(reader.pending(), 0);
    reader.feed(&[3, 1]);
    reader.end();
    assert_eq!(reader.read_in(), Err(ReadError::Disconnected));
    let mut bad = MsgReader::new(259);
    bad.feed(&[77]);
    assert_eq!(bad.read_in(), Err(ReadError::Malformed));
    assert_eq!(bad.pending(), 1);
}

#[test]
fn writer_lines_up_output_messages() {
    let mut writer = MsgWriter::new(259);
    assert_eq!(writer.write_out(&OutMsg::Ao { value: 1 }), Ok(()));
    assert_eq!(writer.write_out(&OutMsg::Aao { values: vec![0; 65] }), Err(EncodeError::TooLong));
    assert_eq!(writer.write_out(&OutMsg::Aao { values: vec![2] }), Ok(()));
    assert_eq!(writer.write_out(&OutMsg::Bo { value: 1 }), Ok(()));
    assert_eq!(writer.write_out(&OutMsg::MbboDirect { value: 5 }), Ok(()));
    let bytes = writer.take();
    assert_eq!(
        bytes,
        vec![0, 1, 0, 0, 0, 1, 1, 0, 2, 0, 0, 0, 2, 1, 0, 0, 0, 3, 5, 0, 0, 0]
    );
    let mut at: usize = 0;
    let mut read: Vec<OutMsg> = Vec::new();
    while at < bytes.len() {
        match OutMsg::decode(&bytes[at..], 259) {
            Decoded::Frame { msg, len } => {
                read.push(msg);
                at += len;
            }
            other => panic!("unexpected {:?}", other),
        }
    }
    assert_eq!(
        read,
        vec![
            OutMsg::Ao { value: 1 },
            OutMsg::Aao { values: vec![2] },
            OutMsg::Bo { value: 1 },
            OutMsg::MbboDirect { value: 5 }
        ]
    );
}

#[test]
fn array_message_is_committed_whole_or_refused() {
    let frame = InMsg::Waveform { values: vec![4, 5, 6] }.encode(259).unwrap();
    let values = match InMsg::decode(&frame, 259) {
        Decoded::Frame { msg: InMsg::Waveform { values }, .. } => values,
        other => panic!("unexpected {:?}", other),
    };
    let mut variable: Vec<i32> = vec![1];
    assert_eq!(write_array(&mut variable, 2, &values), Err(Error::Oversized));
    assert_eq!(variable, vec![1]);
    assert_eq!(write_array(&mut variable, 3, &values), Ok(()));
    assert_eq!(variable, vec![4, 5, 6]);
}
