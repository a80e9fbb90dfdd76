use arendur::sample::sink::Sink;

fn filled(ndim: usize, nsample: usize) -> Sink<u32> {
    let mut s = Sink::new(ndim, nsample, 0u32);
    for i in 0..nsample {
        for d in 0..ndim {
            s.set(i, d, (i * 10 + d) as u32);
        }
    }
    s
}

#[test]
fn sink_new_shape_and_cursor() {
    let s = Sink::new(3, 4, 7u8);
    assert_eq!(s.ndim(), 3);
    assert_eq!(s.nsample(), 4);
    assert_eq!(s.idim(), 0);
    assert_eq!(s.isample(), 0);
    assert_eq!(s.get(3, 2), 7);
    assert_eq!(s.sample(1), &[7, 7, 7]);
}

#[test]
fn sink_next_dim_walks_the_current_sample() {
    let mut s = filled(2, 3);
    assert_eq!(s.next_dim(), Some(0));
    assert_eq!(s.next_dim(), Some(1));
    assert_eq!(s.next_dim(), None);
    assert_eq!(s.idim(), 2);
    assert!(s.next_sample());
    assert_eq!(s.isample(), 1);
    // the dimension cursor is not reset by next_sample
    assert_eq!(s.next_dim(), None);
    s.reset();
    assert_eq!(s.isample(), 0);
    assert_eq!(s.next_dim(), Some(0));
}

#[test]
fn sink_next_sample_stops_at_last() {
    let mut s = filled(1, 2);
    assert!(s.next_sample());
    assert!(!s.next_sample());
    assert_eq!(s.isample(), 1);
    assert_eq!(s.next_dim(), Some(10));
}

#[test]
fn sink_set_sample_index() {
    let mut s = filled(2, 3);
    assert!(s.set_sample_index(2));
    assert_eq!(s.next_dim(), Some(20));
    assert!(!s.set_sample_index(3));
    assert_eq!(s.isample(), 2);
    assert_eq!(s.sample(2), &[20, 21]);
}

#[test]
fn sink_without_samples() {
    let mut s = Sink::new(0, 5, 1u8);
    assert_eq!(s.next_dim(), None);
    let mut t = Sink::new(4, 0, 1u8);
    assert!(!t.next_sample());
    assert!(!t.set_sample_index(0));
}
