use tower_http_req_id::uuid::{
    build_v1, format_bits, parse_uuid_text, stamp_v4, ticks_from_unix, Strategy, Uuid,
    UuidGenerator, UUID_TICKS_BETWEEN_EPOCHS,
};
use tower_http_req_id::{IdGen, IdType};

#[test]
fn verify_v1_is_used_when_mac_avail() {
    let expected = match mac_address::get_mac_address() {
        Ok(Some(_)) => true,
        _ => false,
    };

    let generator = UuidGenerator::new();
    assert_eq!(expected, generator.is_v1());
}

#[test]
fn should_generate_unique_uuid() {
    let mut uuid = UuidGenerator::new();

    let mut prev = uuid.gen();
    for _ in 0..101 {
        let next = uuid.gen();
        assert_ne!(prev, next);
        prev = next;
    }
}

#[test]
fn hundred_time_ordered_ids_are_pairwise_distinct() {
    let mut gen = UuidGenerator::from_mac_lookup(Some([1, 2, 3, 4, 5, 6]));
    assert_eq!(gen.strategy, Strategy::TimeOrdered);
    let mut seen: Vec<Uuid> = Vec::new();
    for _ in 0..100 {
        let id = gen.gen();
        for earlier in &seen {
            assert_ne!(*earlier, id);
        }
        seen.push(id);
    }
}

#[test]
fn fallback_generator_reports_random_for_life() {
    let mut gen = UuidGenerator::from_mac_lookup(None);
    assert!(!gen.is_v1());
    for _ in 0..5 {
        let id = gen.gen();
        // version-4 marker and variant bits on every generated value
        assert_eq!((id.bits >> 76) & 0xF, 4);
        assert_eq!((id.bits >> 62) & 0x3, 2);
        assert!(!gen.is_v1());
    }
}

#[test]
fn time_ordered_ids_carry_version_and_node() {
    let mac = [0xAAu8, 0xBB, 0xCC, 0xDD, 0xEE, 0xFF];
    let mut gen = UuidGenerator::from_mac_lookup(Some(mac));
    let id = gen.gen();
    assert_eq!((id.bits >> 76) & 0xF, 1);
    assert_eq!((id.bits >> 62) & 0x3, 2);
    assert_eq!(id.bits & 0xFFFF_FFFF_FFFF, 0xAABBCCDDEEFF);
}

#[test]
fn format_renders_canonical_text() {
    assert_eq!(
        format_bits(0),
        "00000000-0000-0000-0000-000000000000"
    );
    assert_eq!(
        format_bits(0xa1a2a3a4b1b2c1c2d1d2d3d4d5d6d7d8),
        "a1a2a3a4-b1b2-c1c2-d1d2-d3d4d5d6d7d8"
    );
    assert_eq!(
        format_bits(u128::MAX),
        "ffffffff-ffff-ffff-ffff-ffffffffffff"
    );
}

#[test]
fn parse_reads_canonical_text() {
    let u = parse_uuid_text("a1a2a3a4-b1b2-c1c2-d1d2-d3d4d5d6d7d8").unwrap();
    assert_eq!(u.bits, 0xa1a2a3a4b1b2c1c2d1d2d3d4d5d6d7d8);
    let upper = parse_uuid_text("A1A2A3A4-B1B2-C1C2-D1D2-D3D4D5D6D7D8").unwrap();
    assert_eq!(upper.bits, 0xa1a2a3a4b1b2c1c2d1d2d3d4d5d6d7d8);
}

#[test]
fn parse_rejects_malformed_text() {
    assert!(parse_uuid_text("").is_none());
    assert!(parse_uuid_text("a1a2a3a4b1b2c1c2d1d2d3d4d5d6d7d8").is_none());
    assert!(parse_uuid_text("a1a2a3a4-b1b2-c1c2-d1d2-d3d4d5d6d7").is_none());
    assert!(parse_uuid_text("a1a2a3a4-b1b2-c1c2-d1d2-d3d4d5d6d7d8ff").is_none());
    assert!(parse_uuid_text("g1a2a3a4-b1b2-c1c2-d1d2-d3d4d5d6d7d8").is_none());
    assert!(parse_uuid_text("a1a2a3a4+b1b2-c1c2-d1d2-d3d4d5d6d7d8").is_none());
}

#[test]
fn uuid_format_parse_round_trip() {
    let id = Uuid { bits: 0x0123456789abcdef0123456789abcdef };
    let text = id.format();
    let back = <Uuid as IdType>::parse(&text).unwrap();
    assert_eq!(back, id);
}

#[test]
fn rendering_agrees_with_reference_crate() {
    let bits: u128 = 0x0123456789abcdef0123456789abcdef;
    let mine = format_bits(bits);
    let reference = uuid::Uuid::from_u128(bits);
    assert_eq!(mine, reference.to_string());
    let parsed = uuid::Uuid::parse_str(&mine).unwrap();
    assert_eq!(parsed.as_u128(), bits);
}

#[test]
fn generated_text_parses_in_reference_crate() {
    let mut gen = UuidGenerator::new();
    let text: String = <UuidGenerator as IdGen<String>>::gen(&mut gen);
    let parsed = uuid::Uuid::parse_str(&text).unwrap();
    assert_eq!(text, parsed.to_string());
}

#[test]
fn build_v1_assembles_exact_fields() {
    let u = build_v1(0x0123456789ABCDEF, 0x1234, 0xAABBCCDDEEFF);
    assert_eq!(u.bits, 0x89ABCDEF_4567_1123_9234_AABBCCDDEEFF);
}

#[test]
fn ticks_count_from_epoch_offset() {
    assert_eq!(ticks_from_unix(0, 0), UUID_TICKS_BETWEEN_EPOCHS);
    assert_eq!(
        ticks_from_unix(1, 250),
        UUID_TICKS_BETWEEN_EPOCHS + 10_000_000 + 2
    );
    assert_eq!(
        ticks_from_unix(1, 99),
        UUID_TICKS_BETWEEN_EPOCHS + 10_000_000
    );
}

#[test]
fn counter_advances_and_wraps_into_clock_seq() {
    let mut gen = UuidGenerator::from_mac_lookup(Some([0, 0, 0, 0, 0, 1]));
    assert_eq!(gen.counter, 1);
    let a = gen.gen();
    assert_eq!(gen.counter, 2);
    let b = gen.gen();
    assert_eq!(gen.counter, 3);
    assert_eq!((a.bits >> 48) & 0x3FFF, 1);
    assert_eq!((b.bits >> 48) & 0x3FFF, 2);
}

#[test]
fn counter_wraps_at_sixteen_bits() {
    let mut gen = UuidGenerator::from_mac_lookup(Some([0, 0, 0, 0, 0, 1]));
    gen.counter = 0xFFFF;
    let a = gen.gen();
    assert_eq!(gen.counter, 0);
    assert_eq!((a.bits >> 48) & 0x3FFF, (0xFFFFu128) % 0x3FFF);
}

#[test]
fn stamping_sets_only_the_markers() {
    assert_eq!(stamp_v4(0).bits, 0x0000_0000_0000_4000_8000_0000_0000_0000);
    assert_eq!(stamp_v4(u128::MAX).bits, 0xFFFF_FFFF_FFFF_4FFF_BFFF_FFFF_FFFF_FFFF);
    let drawn: u128 = 0x0123456789abcdef0123456789abcdef;
    assert_eq!(stamp_v4(drawn).bits, 0x0123456789ab4def8123456789abcdef);
}
