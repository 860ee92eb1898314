use rust_pcap::combo::{Digit, WORD};
use rust_pcap::multipart::{MultipartSlice, MyRange};
use rust_pcap::state::State;

#[test]
fn word_enumerates_all_words_then_ends() {
    let mut w = WORD::new(vec![1, 2], 2);
    assert_eq!(w.next(), Some(vec![1, 1]));
    assert_eq!(w.next(), Some(vec![2, 1]));
    assert_eq!(w.next(), Some(vec![1, 2]));
    assert_eq!(w.next(), Some(vec![2, 2]));
    assert_eq!(w.next(), None);
    // after the odometer wraps the enumerator starts over
    assert_eq!(w.next(), Some(vec![1, 1]));
}

#[test]
fn word_with_three_letters() {
    let mut w = WORD::new(vec![7, 8, 9], 1);
    let mut seen = Vec::new();
    while let Some(v) = w.next() {
        seen.push(v);
        assert!(seen.len() <= 3);
    }
    assert_eq!(seen, vec![vec![7], vec![8], vec![9]]);
}

#[test]
fn digit_increments_and_wraps() {
    let mut d = Digit::new(vec![1, 2, 3]);
    assert_eq!(d.value, 1);
    assert_eq!(d.inc(1), 0);
    assert_eq!(d.value, 2);
    assert_eq!(d.inc(2), 1); // 2 -> 3 -> wrap to 1
    assert_eq!(d.value, 1);
    assert_eq!(d.inc(5), 1); // 1 -> 2 -> 3 -> 1 (wrap) -> 2 -> 3
    assert_eq!(d.value, 3);
}

#[test]
fn multipart_get_stays_within_one_part() {
    let a: &[u8] = b"hello";
    let b: &[u8] = b"world";
    let ms = MultipartSlice { slices: vec![a, b] };
    let r = ms.get(MyRange { start: Some(0), end: Some(5) });
    assert_eq!(r, Some(b"hello".as_slice()));
    let r = ms.get(MyRange { start: Some(5), end: Some(8) });
    assert_eq!(r, Some(b"wor".as_slice()));
    let r = ms.get(MyRange { start: Some(7), end: None });
    assert_eq!(r, Some(b"rld".as_slice()));
    let r = ms.get(MyRange { start: None, end: Some(3) });
    assert_eq!(r, Some(b"hel".as_slice()));
    // a range straddling the parts yields nothing
    let r = ms.get(MyRange { start: Some(3), end: Some(7) });
    assert_eq!(r, None);
    // a range past the end yields nothing
    let r = ms.get(MyRange { start: Some(10), end: None });
    assert_eq!(r, None);
}

#[test]
fn multipart_len_sums_the_parts() {
    let a: &[u8] = b"hello";
    let b: &[u8] = b"world";
    let ms = MultipartSlice { slices: vec![a, b] };
    assert_eq!(ms.len(), 10);
    let empty = MultipartSlice { slices: vec![] };
    assert_eq!(empty.len(), 0);
}

#[test]
fn state_tracks_finished_rows() {
    let mut st = State::new();
    assert!(!st.is_done("alpha".to_string()));
    st.append(vec!["alpha".to_string(), "1".to_string()]);
    st.append(vec!["beta".to_string()]);
    assert!(st.is_done("alpha".to_string()));
    assert!(st.is_done("beta".to_string()));
    assert!(!st.is_done("gamma".to_string()));
    assert_eq!(st.done.len(), 2);
}

#[test]
fn multipart_get_inverted_range_yields_nothing() {
    let a: &[u8] = b"hello";
    let b: &[u8] = b"world";
    let ms = MultipartSlice { slices: vec![a, b] };
    // inverted within the first part
    assert_eq!(ms.get(MyRange { start: Some(4), end: Some(2) }), None);
    // inverted across the part boundary
    assert_eq!(ms.get(MyRange { start: Some(7), end: Some(2) }), None);
    assert_eq!(ms.get(MyRange { start: Some(20), end: Some(1) }), None);
}
