use variantplaner_rs::nucleotide::{nuc2bit, seq2bit};

#[test]
fn nuc2bit_() {
    assert_eq!(nuc2bit(b'A'), 0b00);
    assert_eq!(nuc2bit(b'C'), 0b01);
    assert_eq!(nuc2bit(b'T'), 0b10);
    assert_eq!(nuc2bit(b'G'), 0b11);
    assert_eq!(nuc2bit(b'N'), 0b11);

    assert_eq!(nuc2bit(b'a'), 0b00);
    assert_eq!(nuc2bit(b'c'), 0b01);
    assert_eq!(nuc2bit(b't'), 0b10);
    assert_eq!(nuc2bit(b'g'), 0b11);
    assert_eq!(nuc2bit(b'n'), 0b11);
}

#[test]
fn seq2bit_() {
    assert_eq!(seq2bit(b"ACTGN"), 0b0001101111);
}

#[test]
fn nuc2bit_is_bits_one_and_two_of_every_byte() {
    for byte in 0..=255u8 {
        let code = nuc2bit(byte);
        assert_eq!(code, ((byte >> 1) & 0b11) as u64);
        assert!(code < 4);
        assert_eq!(nuc2bit(byte ^ 0x20), code);
    }
}

#[test]
fn nuc2bit_takes_bytes_outside_the_alphabet() {
    assert_eq!(nuc2bit(0), 0);
    assert_eq!(nuc2bit(b'X'), 0);
    assert_eq!(nuc2bit(b'-'), 2);
    assert_eq!(nuc2bit(255), 3);
}

#[test]
fn seq2bit_of_nothing_is_zero() {
    assert_eq!(seq2bit(b""), 0);
}

#[test]
fn seq2bit_puts_the_first_base_highest() {
    assert_eq!(seq2bit(b"C"), 1);
    assert_eq!(seq2bit(b"CA"), 0b0100);
    assert_eq!(seq2bit(b"AC"), 0b0001);
    assert_eq!(seq2bit(b"acgt"), 30);
    assert_eq!(seq2bit(b"ACGT"), 30);
}

#[test]
fn seq2bit_fills_a_word_with_thirty_two_bases() {
    let bases = vec![b'T'; 32];
    assert_eq!(seq2bit(&bases), 12297829382473034410);
    assert_eq!(seq2bit(&vec![b'G'; 32]), u64::MAX);
}

#[test]
fn seq2bit_drops_bases_that_leave_the_word() {
    let mut bases = vec![b'G'];
    bases.extend(vec![b'A'; 32]);
    assert_eq!(seq2bit(&bases), 0);
}

#[test]
fn seq2bit_is_the_base_four_value_of_short_sequences() {
    let bases = b"GATTACAGATTACA";
    let mut value: u64 = 0;
    for base in bases.iter() {
        value = value * 4 + nuc2bit(*base);
    }
    assert_eq!(seq2bit(bases), value);
    assert!(value < 1u64 << (2 * bases.len()));
}
