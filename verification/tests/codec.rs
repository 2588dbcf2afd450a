use scream_id::Instance;
use scream_id::SteamID;
use scream_id::Type;
use scream_id::Universe;

#[test]
fn numeric_parse_preserves_low_bits() {
    let id = SteamID::new("76561198403256399").unwrap();
    assert_eq!(id.universe, Universe::Public);
    assert_eq!(id.type_, Type::Individual);
    assert_eq!(id.instance, Instance::Desktop);
    assert_eq!(id.account_id, 442990671u32);
}

#[test]
fn numeric_rejects_short_input() {
    assert_eq!(SteamID::new("23"), None);
}

#[test]
fn numeric_rejects_wrong_length_and_digits() {
    assert_eq!(SteamID::validate_steam64(""), None);
    assert_eq!(SteamID::validate_steam64("7656119840325639"), None);
    assert_eq!(SteamID::validate_steam64("765611984032563999"), None);
    assert_eq!(SteamID::validate_steam64("7656119840325639x"), None);
    assert_eq!(SteamID::validate_steam64("+656119840325639 "), None);
}

#[test]
fn numeric_rejects_zero_low_bits() {
    // The packed base value: its low 32 bits are all zero.
    assert_eq!(SteamID::validate_steam64("76561197960265728"), None);
    assert_eq!(SteamID::new("76561197960265728"), None);
}

#[test]
fn render_full_round() {
    let id = SteamID::new("76561198403256399").unwrap();
    assert_eq!(id.render_as_steam2(), Some(String::from("STEAM_0:1:221495335")));
}

#[test]
fn validate_legacy_returns_input() {
    let id = SteamID::validate_steam2("STEAM_0:1:221495335").unwrap();
    assert_eq!(id, "STEAM_0:1:221495335");
}

#[test]
fn validate_numeric_returns_value() {
    let id = SteamID::validate_steam64("76561198403256399").unwrap();
    assert_eq!(id, 76561198403256399u64);
}

#[test]
fn legacy_rejects_wrong_prefix() {
    assert_eq!(SteamID::validate_steam2("STEAM_2:1:221495335"), None);
    assert_eq!(SteamID::validate_steam2("steam_0:1:221495335"), None);
    assert_eq!(SteamID::validate_steam2("XTEAM_0:1:221495335"), None);
    assert_eq!(SteamID::new("STEAM_2:1:221495335"), None);
}

#[test]
fn legacy_rejects_wrong_part_count() {
    assert_eq!(SteamID::validate_steam2("STEAM_0:1"), None);
    assert_eq!(SteamID::validate_steam2("STEAM_0:1:2:3"), None);
    assert_eq!(SteamID::validate_steam2("STEAM_0"), None);
    assert_eq!(SteamID::validate_steam2(""), None);
}

#[test]
fn legacy_parse_fields() {
    let id = SteamID::new("STEAM_0:1:221495335").unwrap();
    assert_eq!(id.universe, Universe::Public);
    assert_eq!(id.type_, Type::Individual);
    assert_eq!(id.instance, Instance::Desktop);
    assert_eq!(id.account_id, 221495335u32);
}

#[test]
fn legacy_universe_conventions() {
    // 0 and 1 both name the public universe; known codes map exactly;
    // an unknown code falls back to public.
    assert_eq!(SteamID::new("STEAM_0:0:7").unwrap().universe, Universe::Public);
    assert_eq!(SteamID::new("STEAM_0:1:7").unwrap().universe, Universe::Public);
    assert_eq!(SteamID::new("STEAM_0:2:7").unwrap().universe, Universe::Beta);
    assert_eq!(SteamID::new("STEAM_0:3:7").unwrap().universe, Universe::Internal);
    assert_eq!(SteamID::new("STEAM_0:4:7").unwrap().universe, Universe::Dev);
    assert_eq!(SteamID::new("STEAM_0:5:7").unwrap().universe, Universe::Public);
}

#[test]
fn legacy_rejects_bad_segments() {
    // A malformed numeral segment is a normal parse failure, not an abort.
    assert_eq!(SteamID::new("STEAM_0:x:221495335"), None);
    assert_eq!(SteamID::new("STEAM_0:1:22149533x"), None);
    assert_eq!(SteamID::new("STEAM_0::221495335"), None);
    assert_eq!(SteamID::new("STEAM_0:1:"), None);
    assert_eq!(SteamID::new("STEAM_0:1:4294967296"), None);
    assert_eq!(SteamID::new("STEAM_0:1:+3"), None);
}

#[test]
fn legacy_accepts_boundary_account() {
    let id = SteamID::new("STEAM_0:1:4294967295").unwrap();
    assert_eq!(id.account_id, u32::MAX);
}

#[test]
fn render_rejects_non_individual() {
    // Packs kind nibble 7 (a clan) in bits 52-55, universe 0, instance 1,
    // account number 442990671.
    let id = SteamID::new("31525202129551439").unwrap();
    assert_eq!(id.universe, Universe::Invalid);
    assert_eq!(id.type_, Type::Clan);
    assert_eq!(id.account_id, 442990671u32);
    assert_eq!(id.render_as_steam2(), None);
}

#[test]
fn numeric_field_fallbacks() {
    // Packs instance code 3, which carries no name: it degrades to All
    // while the account number is kept exactly.
    let id = SteamID::new("76561206673657109").unwrap();
    assert_eq!(id.universe, Universe::Public);
    assert_eq!(id.type_, Type::Individual);
    assert_eq!(id.instance, Instance::All);
    assert_eq!(id.account_id, 123456789u32);
}

#[test]
fn field_mappers_exact_codes() {
    assert_eq!(Universe::from_u32(0), Some(Universe::Invalid));
    assert_eq!(Universe::from_u32(4), Some(Universe::Dev));
    assert_eq!(Universe::from_u32(5), None);
    assert_eq!(Type::from_u32(1), Some(Type::Individual));
    assert_eq!(Type::from_u32(10), Some(Type::AnonUser));
    assert_eq!(Type::from_u32(11), None);
    assert_eq!(Instance::from_u32(4), Some(Instance::Web));
    assert_eq!(Instance::from_u32(3), None);
}

#[test]
fn round_trip_asymmetry_on_odd_account() {
    // Rendering halves the account number; an odd one is not recoverable.
    let id = SteamID::new("STEAM_0:1:221495335").unwrap();
    assert_eq!(id.account_id % 2, 1);
    let rendered = id.render_as_steam2().unwrap();
    assert_eq!(rendered, "STEAM_0:1:110747667");
    let again = SteamID::new(&rendered).unwrap();
    assert_eq!(again.account_id, 110747667u32);
    assert_ne!(again.account_id, id.account_id);
}

#[test]
fn render_prints_non_public_universe_verbatim() {
    // A beta-universe individual renders with its own numeral, not 0.
    let id = SteamID::new("STEAM_0:2:10").unwrap();
    assert_eq!(id.universe, Universe::Beta);
    assert_eq!(id.render_as_steam2(), Some(String::from("STEAM_2:1:5")));
}
