use pdf_ocr::fingerprint::{fingerprint_fast, fingerprint_file, fingerprint_full};

#[test]
fn full_fingerprint_matches_known_sha256_vector() {
    let content: Vec<u8> = b"abc".to_vec();
    let fp = fingerprint_full(&content);
    assert_eq!(fp, "ba7816bf8f01cfea414140de5dae2223b00361a396177a9cb410ff61f20015ad");
}

#[test]
fn fingerprints_are_deterministic() {
    let content: Vec<u8> = (0u32..5000).map(|i| (i % 251) as u8).collect();
    let a = fingerprint_fast(5000, Some(77), &content);
    let b = fingerprint_fast(5000, Some(77), &content);
    assert_eq!(a, b);
    assert_eq!(a.len(), 64);
    let c = fingerprint_full(&content);
    let d = fingerprint_full(&content);
    assert_eq!(c, d);
}

#[test]
fn fast_fingerprint_ignores_middle_bytes_only() {
    let content: Vec<u8> = (0u32..3000).map(|i| (i % 251) as u8).collect();
    let mut middle_changed = content.clone();
    middle_changed[1500] = middle_changed[1500].wrapping_add(1);
    let a = fingerprint_fast(3000, Some(9), &content);
    let b = fingerprint_fast(3000, Some(9), &middle_changed);
    assert_eq!(a, b);
    let full_a = fingerprint_full(&content);
    let full_b = fingerprint_full(&middle_changed);
    assert_ne!(full_a, full_b);

    let mut head_changed = content.clone();
    head_changed[10] ^= 0xff;
    assert_ne!(fingerprint_fast(3000, Some(9), &content), fingerprint_fast(3000, Some(9), &head_changed));

    let mut tail_changed = content.clone();
    tail_changed[2999] ^= 0xff;
    assert_ne!(fingerprint_fast(3000, Some(9), &content), fingerprint_fast(3000, Some(9), &tail_changed));
}

#[test]
fn fast_fingerprint_reads_size_and_mtime() {
    let content: Vec<u8> = vec![1, 2, 3];
    let a = fingerprint_fast(3, Some(100), &content);
    let b = fingerprint_fast(3, Some(101), &content);
    let c = fingerprint_fast(4, Some(100), &content);
    let d = fingerprint_fast(3, None, &content);
    assert_ne!(a, b);
    assert_ne!(a, c);
    assert_ne!(a, d);
}

#[test]
fn fingerprint_mode_selects_the_hash() {
    let content: Vec<u8> = b"example content".to_vec();
    let full = fingerprint_file(true, 15, Some(5), &content);
    let fast = fingerprint_file(false, 15, Some(5), &content);
    assert_eq!(full, fingerprint_full(&content));
    assert_eq!(fast, fingerprint_fast(15, Some(5), &content));
    assert_ne!(full, fast);
}
