use router::types::country::{country_id_from_iso2, country_iso_from_id, CountryId, COUNTRIES};

#[test]
fn roundtrip() {
    assert_eq!(country_iso_from_id(country_id_from_iso2("DE")), Some("DE"));
    assert_eq!(country_iso_from_id(country_id_from_iso2("US")), Some("US"));
    assert_eq!(country_iso_from_id(country_id_from_iso2("GB")), Some("GB"));
    assert_eq!(country_id_from_iso2("ZZ"), 0);
    assert_eq!(country_iso_from_id(0), None);
}

#[test]
fn sorted() {
    let mut sorted = COUNTRIES.to_vec();
    sorted.sort_unstable();
    assert_eq!(COUNTRIES, sorted.as_slice(), "COUNTRIES must be sorted");
}

#[test]
fn fits_in_u8() {
    assert!(COUNTRIES.len() < 255, "country list too long for u8 ID");
}

#[test]
fn country_ids_are_positions_plus_one() {
    assert_eq!(country_id_from_iso2("AD"), 1);
    assert_eq!(country_id_from_iso2("ZW"), COUNTRIES.len() as u8);
    assert_eq!(country_iso_from_id(COUNTRIES.len() as u8 + 1), None);
}

#[test]
fn country_id_wrapper() {
    let de = CountryId::from_iso2("DE");
    assert!(!de.is_unknown());
    assert_eq!(de.to_iso2(), Some("DE"));
    assert!(CountryId::unknown().is_unknown());
    assert_eq!(CountryId::unknown().to_iso2(), None);
    assert!(CountryId::from_iso2("de").is_unknown());
}

#[test]
fn ids_map_back_through_their_codes() {
    for id in 1..=250u8 {
        assert_eq!(CountryId::from_iso2(CountryId(id).to_iso2().unwrap()), CountryId(id));
    }
    assert_eq!(CountryId(0).to_iso2(), None);
    assert_eq!(CountryId(251).to_iso2(), None);
    assert!(CountryId::from_iso2("XX").is_unknown());
}
