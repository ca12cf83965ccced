use playible::metadata::{starts_with, MetaDataPersonalization, Metadata, PlayibleInfo, PlayiblePersonalization, Trait};
use playible::time::Timestamp;

fn t(kind: &str, value: &str) -> Trait {
    Trait { display_type: None, trait_type: kind.to_string(), value: value.to_string() }
}

#[test]
fn decision_trait_is_the_first_of_its_type() {
    let m = Metadata { attributes: Some(vec![t("team", "LAL"), t("pos", "F"), t("pos", "C")]), ..Default::default() };
    assert_eq!(m.get_decision_trait("pos"), Some(t("pos", "F")));
    assert_eq!(m.get_decision_trait("age"), None);
    assert_eq!(Metadata::default().get_decision_trait("pos"), None);
}

#[test]
fn personalizing_rewrites_matching_traits_and_the_name() {
    let mut m = Metadata { attributes: Some(vec![t("team", "LAL"), t("pos", "F")]), ..Default::default() };
    m.set_personalized_trait("team", "BOS");
    assert_eq!(m.attributes, Some(vec![t("team", "BOS"), t("pos", "F")]));
    assert_eq!(m.name, Some("BOS".to_string()));
    let mut bare = Metadata::default();
    bare.set_personalized_trait("team", "BOS");
    assert_eq!(bare, Metadata::default());
}

#[test]
fn image_links_get_the_prefix_unless_absolute() {
    let mut m = Metadata::default();
    assert_eq!(m.get_image("https://cdn/"), None);
    m.set_image(Some("a.png".to_string()));
    assert_eq!(m.get_image("https://cdn/"), Some("https://cdn/a.png".to_string()));
    m.set_image(Some("ipfs://abc".to_string()));
    assert_eq!(m.get_image("https://cdn/"), Some("ipfs://abc".to_string()));
    m.set_image(Some("http://x/y".to_string()));
    assert_eq!(m.get_image("p"), Some("http://x/y".to_string()));
}

#[test]
fn status_and_uri() {
    let mut m = Metadata { token_uri: "ipfs://t".to_string(), ..Default::default() };
    assert_eq!(m.get_status(), None);
    m.set_status("locked");
    assert_eq!(m.get_status(), Some("locked".to_string()));
    assert_eq!(m.get_token_uri(), "ipfs://t");
}

#[test]
fn prefixes() {
    assert!(starts_with("ipfs://x", "ipfs://"));
    assert!(starts_with("abc", ""));
    assert!(!starts_with("ipf", "ipfs"));
    assert!(!starts_with("xhttp", "http"));
}

#[test]
fn game_metadata_accessors() {
    let mut p = PlayibleInfo::default();
    p.set_athlete_id("12");
    p.set_rarity("U");
    p.set_is_locked(true);
    p.set_unlock_date(Some(Timestamp { nanos: 9 }));
    p.set_usage(4);
    assert_eq!(p.get_athlete_id(), "12");
    assert_eq!(p.get_rarity(), "U");
    assert!(p.get_is_locked());
    assert_eq!(p.get_unlock_date(), Some(Timestamp { nanos: 9 }));
    assert_eq!(p.get_usage(), 4);
}
