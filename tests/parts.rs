use foot_guy::classify::{classify, SpecialChar};
use foot_guy::format::{decimal_digits, footnote_block, reference_token};
use foot_guy::queues::in_mem::InMemFootNoteQ;
use foot_guy::queues::Queue;

#[test]
fn classify_markers() {
    assert_eq!(classify(b'('), SpecialChar::Open);
    assert_eq!(classify(b')'), SpecialChar::Closed);
    assert_eq!(classify(b'#'), SpecialChar::Pound);
    assert_eq!(classify(b'a'), SpecialChar::NotSpecial);
    assert_eq!(classify(b'['), SpecialChar::NotSpecial);
    assert_eq!(classify(0), SpecialChar::NotSpecial);
    assert_eq!(classify(255), SpecialChar::NotSpecial);
}

#[test]
fn decimal_digits_exact() {
    assert_eq!(decimal_digits(0), b"0".to_vec());
    assert_eq!(decimal_digits(7), b"7".to_vec());
    assert_eq!(decimal_digits(10), b"10".to_vec());
    assert_eq!(decimal_digits(907), b"907".to_vec());
    assert_eq!(decimal_digits(usize::MAX), usize::MAX.to_string().into_bytes());
}

#[test]
fn reference_token_exact() {
    assert_eq!(reference_token(1), b"^1".to_vec());
    assert_eq!(reference_token(42), b"^42".to_vec());
}

#[test]
fn footnote_block_exact() {
    assert_eq!(footnote_block(b"body".to_vec(), 3), b"\nFN-3:body\n\n".to_vec());
    assert_eq!(footnote_block(Vec::new(), 15), b"\nFN-15:\n\n".to_vec());
}

#[test]
fn queue_numbers_and_order() {
    let mut q = InMemFootNoteQ::new();
    assert_eq!(q.pop_front(), None);
    assert_eq!(q.add(None), None);
    assert_eq!(q.add(Some(b"a".to_vec())), Some(1));
    assert_eq!(q.add(Some(b"b".to_vec())), Some(2));
    assert_eq!(q.pop_front(), Some((b"a".to_vec(), 1)));
    assert_eq!(q.pop_front(), Some((b"b".to_vec(), 2)));
    assert_eq!(q.pop_front(), None);
    assert_eq!(q.add(Some(b"c".to_vec())), Some(3));
    assert_eq!(q.pop_front(), Some((b"c".to_vec(), 3)));
}
