use slash_router::records::{DaylightSavingsRegion, EmoteRegistry, Guild, User};

#[test]
fn region_codes_round_trip() {
    for region in [
        DaylightSavingsRegion::NotAvailable,
        DaylightSavingsRegion::NorthAmerica,
        DaylightSavingsRegion::Europe,
        DaylightSavingsRegion::SouthernHemisphere,
    ] {
        assert_eq!(DaylightSavingsRegion::from_code(region.code()), region);
    }
    assert_eq!(DaylightSavingsRegion::Europe.code(), 2);
    assert_eq!(DaylightSavingsRegion::from_code(3), DaylightSavingsRegion::SouthernHemisphere);
    assert_eq!(DaylightSavingsRegion::from_code(-4), DaylightSavingsRegion::NotAvailable);
}

#[test]
fn missing_rows_give_defaults() {
    assert_eq!(Guild::from_lookup(7, None), Guild { id: 7, streaming_channel: None });
    let stored = Guild { id: 7, streaming_channel: Some(99) };
    assert_eq!(Guild::from_lookup(7, Some(stored)), stored);
    assert_eq!(User::from_lookup(3, None), User::new(3));
    let u = User::from_row(3, Some(-5), 1);
    assert_eq!(u.timezone_offset, Some(-5));
    assert_eq!(u.daylight_savings_region, DaylightSavingsRegion::NorthAmerica);
    assert_eq!(User::from_lookup(3, Some(u)), u);
}

#[test]
fn emote_registry_holds_its_fields() {
    let e = EmoteRegistry { user_id: 1, emote_id: 2, emote_name: String::from("wave"), is_animated: true };
    assert_eq!(e.emote_name, "wave");
    assert!(e.is_animated);
}
