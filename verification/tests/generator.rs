use rameau::convert::hydra::kind_bits;
use rameau::soundfont::generator::GeneratorType;
use rameau::soundfont::model::SampleType;

/// The lookup table replaced a transmute, so its entries must stay in
/// discriminant order — an entry out of place would silently mis-decode
/// every bank that uses that generator.
#[test]
fn lookup_table_is_in_discriminant_order() {
    for (i, kind) in GeneratorType::ALL.iter().enumerate() {
        assert_eq!(*kind as usize, i, "entry {i} is out of order");
    }
}

#[test]
fn from_u16_round_trips_every_generator() {
    for i in 0..GeneratorType::COUNT as u16 {
        assert_eq!(GeneratorType::from_u16(i).map(|k| k as u16), Some(i));
    }
}

#[test]
fn from_u16_rejects_out_of_range_operators() {
    assert_eq!(GeneratorType::from_u16(GeneratorType::COUNT as u16), None);
    assert_eq!(GeneratorType::from_u16(u16::MAX), None);
}

#[test]
fn to_u16_is_the_operator_value() {
    assert_eq!(GeneratorType::KEY_RANGE.to_u16(), 43);
    assert_eq!(GeneratorType::SAMPLE_ID.to_u16(), 53);
    assert_eq!(GeneratorType::COUNT.to_u16(), 61);
    for kind in GeneratorType::ALL {
        assert_eq!(GeneratorType::from_u16(kind.to_u16()), Some(kind));
    }
}

#[test]
fn sample_types_decode_and_encode() {
    assert_eq!(SampleType::from_u16(1), SampleType::Mono);
    assert_eq!(SampleType::from_u16(0x8004), SampleType::RomLeft);
    assert_eq!(SampleType::from_u16(0x11), SampleType::Other(0x11));
    let t: SampleType = 8u16.into();
    assert_eq!(t, SampleType::Linked);
    for word in [1u16, 2, 4, 8, 0x8001, 0x8002, 0x8004, 0x8008, 0, 0x10, 0xFFFF] {
        assert_eq!(kind_bits(SampleType::from_u16(word)), word);
    }
}
