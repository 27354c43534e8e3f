use winguid::{Guid, GuidParseError};

fn sample() -> Guid {
    Guid::from_values(0x1f6d_b258, 0xe803, 0x48a1, [0x95, 0x46, 0xeb, 0x73, 0x53, 0x39, 0x88, 0x84])
}

#[test]
fn zeroed_formats_as_all_zero_digits() {
    let g = Guid::zeroed();
    assert_eq!(g.to_string(), "00000000-0000-0000-0000-000000000000");
    assert_eq!(g.data1, 0);
    assert_eq!(g.data2, 0);
    assert_eq!(g.data3, 0);
    assert_eq!(g.data4, [0u8; 8]);
}

#[test]
fn default_is_zeroed() {
    assert!(Guid::default() == Guid::zeroed());
}

#[test]
fn from_values_keeps_fields() {
    let g = sample();
    assert_eq!(g.data1, 0x1f6d_b258);
    assert_eq!(g.data2, 0xe803);
    assert_eq!(g.data3, 0x48a1);
    assert_eq!(g.data4, [0x95, 0x46, 0xeb, 0x73, 0x53, 0x39, 0x88, 0x84]);
}

#[test]
fn formats_upper_case_with_padding() {
    assert_eq!(sample().to_string(), "1F6DB258-E803-48A1-9546-EB7353398884");
    let g = Guid::from_values(0xa, 0xb, 0xc, [1, 2, 3, 4, 5, 6, 7, 0xff]);
    assert_eq!(g.to_string(), "0000000A-000B-000C-0102-0304050607FF");
}

#[test]
fn parse_reads_fields() {
    let g = Guid::parse("1F6DB258-E803-48A1-9546-EB7353398884").unwrap();
    assert!(g == sample());
}

#[test]
fn parse_of_format_round_trips() {
    let values = [
        Guid::zeroed(),
        sample(),
        Guid::from_values(u32::MAX, u16::MAX, u16::MAX, [0xff; 8]),
        Guid::from_values(0x0102_0304, 0x0506, 0x0708, [9, 10, 11, 12, 13, 14, 15, 16]),
    ];
    for g in values.iter() {
        let back = Guid::parse(&g.to_string()).unwrap();
        assert!(back == *g);
    }
}

#[test]
fn parse_is_case_insensitive() {
    let zero_upper = Guid::parse("00000000-0000-0000-0000-000000000000").unwrap();
    assert!(zero_upper == Guid::zeroed());
    let upper = Guid::parse("ABCDEF01-ABCD-EF01-ABCD-EF0123456789").unwrap();
    let lower = Guid::parse("abcdef01-abcd-ef01-abcd-ef0123456789").unwrap();
    let mixed = Guid::parse("AbCdEf01-aBcD-eF01-AbcD-eF0123456789").unwrap();
    assert!(upper == lower);
    assert!(upper == mixed);
    assert_eq!(upper.data1, 0xabcd_ef01);
    assert_eq!(upper.data2, 0xabcd);
    assert_eq!(upper.data3, 0xef01);
    assert_eq!(upper.data4, [0xab, 0xcd, 0xef, 0x01, 0x23, 0x45, 0x67, 0x89]);
}

#[test]
fn parse_rejects_short_text() {
    assert_eq!(Guid::parse("00000000-0000-0000-0000-00000000000"), Err(GuidParseError::InvalidFormat));
}

#[test]
fn parse_rejects_long_text() {
    assert_eq!(Guid::parse("00000000-0000-0000-0000-0000000000000"), Err(GuidParseError::InvalidFormat));
}

#[test]
fn parse_rejects_missing_hyphen() {
    assert_eq!(Guid::parse("000000000000-0000-0000-000000000000"), Err(GuidParseError::InvalidFormat));
    assert_eq!(Guid::parse("00000000-0000-0000-0000x000000000000"), Err(GuidParseError::InvalidFormat));
}

#[test]
fn parse_rejects_non_hex_digit() {
    assert_eq!(Guid::parse("0000000g-0000-0000-0000-000000000000"), Err(GuidParseError::InvalidFormat));
    assert_eq!(Guid::parse("00000000-0000-0000-0000-00000000000G"), Err(GuidParseError::InvalidFormat));
    assert_eq!(Guid::parse("00000000-0000-0000-00g0-000000000000"), Err(GuidParseError::InvalidFormat));
}

#[test]
fn parse_rejects_braces_and_blanks() {
    assert_eq!(Guid::parse("{00000000-0000-0000-0000-000000000000}"), Err(GuidParseError::InvalidFormat));
    assert_eq!(Guid::parse(" 0000000-0000-0000-0000-000000000000"), Err(GuidParseError::InvalidFormat));
    assert_eq!(Guid::parse(""), Err(GuidParseError::InvalidFormat));
}

#[test]
fn parse_rejects_multibyte_characters() {
    assert_eq!(Guid::parse("0000000é-0000-0000-0000-00000000000"), Err(GuidParseError::InvalidFormat));
}

#[test]
fn from_signature_known_answer_empty() {
    let g = Guid::from_signature(b"");
    let expected = Guid::from_values(0, 0x77ee, 0x524a, [0xb6, 0xa3, 0x69, 0x17, 0xae, 0xb9, 0x52, 0xfa]);
    assert!(g == expected);
    assert_eq!(g.to_string(), "00000000-77EE-524A-B6A3-6917AEB952FA");
}

#[test]
fn from_signature_known_answer_abc() {
    let g = Guid::from_signature(b"abc");
    let expected =
        Guid::from_values(0x61, 0xfd5a, 0x5dbe, [0x9e, 0xa2, 0x04, 0x55, 0x9b, 0x69, 0x19, 0x93]);
    assert!(g == expected);
}

#[test]
fn from_signature_is_deterministic() {
    let s = b"pinterface({00000000-0000-0000-0000-000000000000})";
    let a = Guid::from_signature(s);
    let b = Guid::from_signature(s);
    assert!(a == b);
    assert!(a != Guid::from_signature(b"abc"));
}

#[test]
fn from_signature_sets_version_and_variant() {
    let sigs: [&[u8]; 4] = [b"", b"abc", b"{96369f54-8eb6-48f0-abce-c1b211e627c3}", &[0xff; 200]];
    for s in sigs.iter() {
        let g = Guid::from_signature(s);
        assert_eq!(g.data3 >> 12, 5);
        assert_eq!(g.data4[0] >> 6, 2);
    }
}

#[test]
fn from_signature_keeps_first_byte() {
    assert_eq!(Guid::from_signature(b"pinterface(x)").data1, b'p' as u32);
    assert_eq!(Guid::from_signature(&[0xfe, 1, 2]).data1, 0xfe);
    assert_eq!(Guid::from_signature(b"").data1, 0);
}

#[test]
fn from_digest_places_digest_bytes() {
    let mut d = [0u8; 20];
    for i in 0..20 {
        d[i] = (i as u8) * 17;
    }
    let g = Guid::from_digest(7, d);
    assert_eq!(g.data1, 7);
    assert_eq!(g.data2, 0x4455);
    assert_eq!(g.data3, 0x5677);
    assert_eq!(g.data4, [0x88, 0x99, 0xaa, 0xbb, 0xcc, 0xdd, 0xee, 0xff]);
    let all_ones = Guid::from_digest(0xff, [0xff; 20]);
    assert_eq!(all_ones.data2, 0xffff);
    assert_eq!(all_ones.data3, 0x5fff);
    assert_eq!(all_ones.data4[0], 0xbf);
}

#[test]
fn equality_compares_every_field() {
    let g = sample();
    assert!(g == sample());
    let mut h = sample();
    h.data4[7] = 0;
    assert!(g != h);
    let mut k = sample();
    k.data1 = 0;
    assert!(g != k);
}

#[test]
fn abi_accessors_copy_and_receive() {
    let mut g = Guid::zeroed();
    assert!(g.get_abi() == g);
    *g.set_abi() = sample();
    assert!(g == sample());
}

#[test]
fn runtime_signature_is_g16() {
    assert_eq!(&Guid::runtime_signature(), b"g16");
}

#[test]
fn to_bytes_gives_memory_layout() {
    let b = sample().to_bytes();
    assert_eq!(
        b,
        [0x58, 0xb2, 0x6d, 0x1f, 0x03, 0xe8, 0xa1, 0x48, 0x95, 0x46, 0xeb, 0x73, 0x53, 0x39, 0x88, 0x84]
    );
    assert_eq!(Guid::zeroed().to_bytes(), [0u8; 16]);
}

#[test]
fn from_bytes_reads_memory_layout() {
    let b = [0x58, 0xb2, 0x6d, 0x1f, 0x03, 0xe8, 0xa1, 0x48, 0x95, 0x46, 0xeb, 0x73, 0x53, 0x39, 0x88, 0x84];
    assert!(Guid::from_bytes(b) == sample());
    let all = [0xffu8; 16];
    let g = Guid::from_bytes(all);
    assert_eq!(g.data1, u32::MAX);
    assert_eq!(g.to_bytes(), all);
}
