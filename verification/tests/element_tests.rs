use umber_dds::message::element::{SequenceNumber, SequenceNumberSet};

#[test]
fn test_sequence_number_set() {
    let seq_num_set = SequenceNumberSet {
        bitmap_base: SequenceNumber(2),
        num_bits: 12,
        bitmap: Vec::from([0xfff00000]),
    };
    assert!(seq_num_set.is_valid());
    let v = seq_num_set.set();
    let mut correct = Vec::new();
    for i in 2..=13 {
        correct.push(SequenceNumber(i));
    }
    assert_eq!(v, correct);
}

#[test]
fn test_sequence_number_from_vec() {
    let mut seq_num_vec = Vec::new();
    for i in 5..=42 {
        seq_num_vec.push(SequenceNumber(i));
    }
    let seq_num_set = SequenceNumberSet::from_vec(SequenceNumber(2), seq_num_vec);
    assert!(seq_num_set.is_valid());
    let v = seq_num_set.set();
    let mut correct = Vec::new();
    for i in 5..=42 {
        correct.push(SequenceNumber(i));
    }
    assert_eq!(v, correct);
}

use umber_dds::message::cdr::Endianness;
use umber_dds::message::element::{
    Locator, Parameter, ParameterList, PayloadError, RepresentationIdentifier, SerializedPayload,
    Timestamp,
};
use umber_dds::structure::parameter_id::ParameterId;

#[test]
fn unsorted_numbers_in_one_word_are_all_kept() {
    let v = vec![SequenceNumber(10), SequenceNumber(4)];
    let s = SequenceNumberSet::from_vec(SequenceNumber(2), v);
    assert_eq!(s.set(), vec![SequenceNumber(4), SequenceNumber(10)]);
}

#[test]
fn a_lower_number_after_a_higher_word_shrinks_the_bitmap() {
    let v = vec![SequenceNumber(40), SequenceNumber(4)];
    let s = SequenceNumberSet::from_vec(SequenceNumber(2), v);
    assert_eq!(s.num_bits, 39);
    assert_eq!(s.bitmap.len(), 1);
    assert_eq!(s.set(), vec![SequenceNumber(4)]);
}

#[test]
fn sequence_number_arithmetic() {
    let mut a = SequenceNumber(5);
    a.add_assign(SequenceNumber(3));
    assert_eq!(a, SequenceNumber(8));
    assert_eq!(a.sub(SequenceNumber(10)), SequenceNumber(-2));
    assert_eq!(SequenceNumber::unknown(), SequenceNumber(-4294967296));
}

#[test]
fn parameter_list_reads_back() {
    let mut pl = ParameterList::new();
    pl.add_parameter(Parameter::new(ParameterId::new(0x70), vec![1, 2, 3]));
    pl.add_parameter(Parameter::new(ParameterId::new(0x71), vec![9, 9, 9, 9]));
    let mut buf = Vec::new();
    pl.write_to(&mut buf, Endianness::LittleEndian);
    assert_eq!(buf.len(), 4 + 4 + 4 + 4 + 4);
    let (back, end) = ParameterList::read_from(&buf, 0, Endianness::LittleEndian).unwrap();
    assert_eq!(end, buf.len() - 2);
    assert_eq!(back.parameters.len(), 2);
    assert_eq!(back.parameters[0].value, vec![1, 2, 3, 0]);
    assert_eq!(back.parameters[1].value, vec![9, 9, 9, 9]);
}

#[test]
fn parameter_list_without_sentinel_is_refused() {
    let buf = vec![0x70, 0x00, 0x04, 0x00, 1, 2];
    assert!(ParameterList::read_from(&buf, 0, Endianness::LittleEndian).is_none());
}

#[test]
fn payload_needs_data_after_header() {
    assert!(matches!(
        SerializedPayload::from_bytes(&[0, 1, 0, 0]),
        Err(PayloadError::DataTooSmall)
    ));
    let p = SerializedPayload::from_bytes(&[0, 1, 0, 0, 7, 8]).unwrap();
    assert_eq!(p.value, vec![7, 8]);
    assert_eq!(p.to_bytes(), vec![0, 1, 0, 0, 7, 8]);
    assert!(matches!(
        p.representation_identifier.endianness(),
        Some(Endianness::LittleEndian)
    ));
}

#[test]
fn payload_from_cdr_data() {
    let p = SerializedPayload::new_from_cdr_data(vec![5, 6], RepresentationIdentifier::pl_cdr_be());
    assert_eq!(p.to_bytes(), vec![0x00, 0x02, 0, 0, 5, 6]);
}

#[test]
fn timestamp_difference_and_sum() {
    let a = Timestamp { seconds: 10, fraction: 0 };
    let b = Timestamp { seconds: 7, fraction: 0 };
    let d = a.sub(b);
    assert_eq!(d.as_secs(), 3);
    assert_eq!(d.subsec_nanos(), 0);
    let c = b.add(d);
    assert_eq!(c.seconds, 10);
}

#[test]
fn ipv4_locators() {
    let l = Locator::new_from_ipv4(7400, [239, 255, 0, 1]);
    assert!(l.is_ipv4_multicast());
    assert_eq!(l.address[12..], [239, 255, 0, 1]);
    assert!(l.address[..12].iter().all(|b| *b == 0));
    let u = Locator::new_from_ipv4(7410, [127, 0, 0, 1]);
    assert!(!u.is_ipv4_multicast());
    let ls = Locator::new_list_from_multi_ipv4(7400, vec![[239, 255, 0, 1], [224, 0, 0, 1]]);
    assert_eq!(ls.len(), 2);
    assert_eq!(ls[1].port, 7400);
}

#[test]
fn repeated_sorted_numbers_are_marked_once() {
    let v = vec![SequenceNumber(3), SequenceNumber(3), SequenceNumber(40), SequenceNumber(40)];
    let s = SequenceNumberSet::from_vec(SequenceNumber(1), v);
    assert_eq!(s.num_bits, 40);
    assert_eq!(s.bitmap.len(), 2);
    assert_eq!(s.set(), vec![SequenceNumber(3), SequenceNumber(40)]);
    assert!(s.is_valid());
}
