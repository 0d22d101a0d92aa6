use sneaker_core::uuid::{random_uuid, uuid_from_nanos, uuid_from_seed};

/// The identifier as the shell's format string writes it.
fn reference(ts: u128) -> String {
    let r = (ts as u64).wrapping_mul(6364136223846793005).wrapping_add(1442695040888963407);
    format!(
        "{:08x}-{:04x}-4{:03x}-{:04x}-{:012x}",
        (r >> 32) as u32,
        (r >> 16) & 0xffff,
        r & 0xfff,
        0x8000 | ((r >> 48) & 0x3fff),
        r & 0xfffffffffff
    )
}

fn has_v4_shape(s: &str) -> bool {
    let b = s.as_bytes();
    b.len() == 36
        && (0..36).all(|i| match i {
            8 | 13 | 18 | 23 => b[i] == b'-',
            14 => b[i] == b'4',
            19 => matches!(b[i], b'8' | b'9' | b'a' | b'b'),
            _ => b[i].is_ascii_digit() || (b'a'..=b'f').contains(&b[i]),
        })
}

#[test]
fn identifier_of_zero_seed() {
    assert_eq!(uuid_from_seed(0), "00000000-0000-4000-8000-000000000000");
    assert_eq!(uuid_from_seed(u64::MAX), "ffffffff-ffff-4fff-bfff-0fffffffffff");
}

#[test]
fn identifiers_match_the_format_string() {
    let mut ts: u128 = 1;
    for k in 0..2000u128 {
        ts = ts.wrapping_mul(0x9e37_79b9_7f4a_7c15).wrapping_add(k) ^ (k << 70);
        let id = uuid_from_nanos(ts);
        assert_eq!(id, reference(ts));
        assert!(has_v4_shape(&id), "{id}");
    }
    assert_eq!(uuid_from_nanos(1_700_000_000_000_000_000), reference(1_700_000_000_000_000_000));
}

#[test]
fn random_identifier_has_the_v4_shape() {
    let id = random_uuid().expect("clock after the epoch");
    assert!(has_v4_shape(&id), "{id}");
}
