use coxswain::overrides::{AcceptedOverrides, AcceptedReason};
use coxswain::resources::ObjectKey;

fn k(ns: &str, name: &str) -> ObjectKey {
    ObjectKey::new(ns, name)
}

#[test]
fn set_get_roundtrip() {
    let mut o = AcceptedOverrides::new();
    o.set(k("ns", "gw"), AcceptedReason::InvalidParameters);
    assert_eq!(o.get(&k("ns", "gw")), Some(AcceptedReason::InvalidParameters));
}

#[test]
fn clear_removes() {
    let mut o = AcceptedOverrides::new();
    o.set(k("ns", "gw"), AcceptedReason::InvalidParameters);
    o.clear(&k("ns", "gw"));
    assert_eq!(o.get(&k("ns", "gw")), None);
}

#[test]
fn reason_strings_match_spec() {
    assert_eq!(AcceptedReason::InvalidParameters.reason(), "InvalidParameters");
}

#[test]
fn overrides_of_other_gateways_stay() {
    let mut o = AcceptedOverrides::new();
    o.set(k("ns", "a"), AcceptedReason::InvalidParameters);
    o.set(k("ns", "b"), AcceptedReason::InvalidParameters);
    o.clear(&k("ns", "a"));
    assert_eq!(o.get(&k("ns", "b")), Some(AcceptedReason::InvalidParameters));
    assert_eq!(o.get(&k("other", "b")), None);
}
