//! Tests of the namespace registry: name lookup, canonical names, and the
//! numeric identifier mapping.

use wiktionary_data::namespace::Namespace;

#[test]
fn lib_namespace_from_str() {
    assert_eq!(
        Namespace::from_str("wiktionary talk"),
        Ok(Namespace::WiktionaryTalk)
    );
    assert_eq!(
        Namespace::from_str("Wiktionary talk"),
        Ok(Namespace::WiktionaryTalk)
    );
    assert_eq!(
        Namespace::from_str("Wiktionary_talk"),
        Ok(Namespace::WiktionaryTalk)
    );
}

#[test]
fn namespace_namespace_from_str() {
    assert_eq!(
        Namespace::from_str("wiktionary talk"),
        Ok(Namespace::WiktionaryTalk)
    );
    assert_eq!(
        Namespace::from_str("Wiktionary talk"),
        Ok(Namespace::WiktionaryTalk)
    );
    assert_eq!(
        Namespace::from_str("Wiktionary_talk"),
        Ok(Namespace::WiktionaryTalk)
    );
}

#[test]
fn lib_namespace_as_str() {
    assert_eq!(Namespace::Talk.as_str(), "Talk");
    assert_eq!(Namespace::WiktionaryTalk.as_str(), "Wiktionary talk");
}

#[test]
fn namespace_namespace_as_str() {
    assert_eq!(Namespace::Talk.as_str(), "Talk");
    assert_eq!(Namespace::WiktionaryTalk.as_str(), "Wiktionary talk");
}

#[test]
fn lib_namespace_numbers() {
    assert_eq!(Namespace::try_from(828), Ok(Namespace::Module));
    assert_eq!(Namespace::try_from(829), Ok(Namespace::ModuleTalk));
    assert!(Namespace::try_from(1000).is_err());

    assert_eq!(Namespace::Module.id(), 828);
    assert_eq!(Namespace::ModuleTalk.id(), 829);
}

#[test]
fn namespace_namespace_numbers() {
    assert_eq!(Namespace::try_from(828), Ok(Namespace::Module));
    assert_eq!(Namespace::try_from(829), Ok(Namespace::ModuleTalk));
    assert_eq!(Namespace::try_from(1000), Err("invalid namespace id"));

    assert_eq!(Namespace::Module.id(), 828);
    assert_eq!(Namespace::ModuleTalk.id(), 829);
}

#[test]
fn normalize_namespace_name() {}

#[test]
fn namespace_round_trip_by_name() {
    // The canonical name of every namespace looks itself up again.
    for id in [0u32, 1, 2, 3, 4, 5, 8, 9, 14, 90, 100, 110, 118, 828, 2300, 2303] {
        let ns = Namespace::try_from(id).unwrap();
        assert_eq!(Namespace::from_str(ns.as_str()), Ok(ns), "id {}", id);
        assert_eq!(ns.id(), id);
    }
}

#[test]
fn namespace_name_rejections() {
    assert_eq!(Namespace::from_str("no such namespace"), Err("invalid namespace name"));
    assert_eq!(
        Namespace::from_str("a name that is far longer than the longest entry"),
        Err("invalid namespace name")
    );
    assert_eq!(Namespace::from_str("tälk"), Err("invalid namespace name"));
}
