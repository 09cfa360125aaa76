use jepsen_rs::checker::elle_rw::ElleRwChecker;
use jepsen_rs::checker::{
    default_out_dir, CheckOption, Checker, ConsistencyModel, ValidType,
};
use jepsen_rs::{CljCore, CljNs};

#[test]
fn test_check_option_serialization() {
    let option = CheckOption::default()
        .analyzer("wr-graph".to_string())
        .consistency_models(vec![ConsistencyModel::CursorStability]);
    let json = option.encode();
    assert_eq!(
        r#"{":consistency-models":[":cursor-stability"],":directory":"./out",":analyzer":"wr-graph"}"#,
        json
    );
}

#[test]
fn check_option_defaults_to_the_out_dir_alone() {
    let option = CheckOption::default();
    assert_eq!(option.encode(), r#"{":directory":"./out"}"#);
    assert_eq!(default_out_dir(), "./out");
}

#[test]
fn valid_type_round_trip() {
    for v in [ValidType::True, ValidType::False, ValidType::Unknown] {
        assert_eq!(ValidType::decode(&v.encode()), Some(v));
    }
    assert_eq!(ValidType::decode("true"), Some(ValidType::True));
    assert_eq!(ValidType::decode("bogus"), None);
}

#[test]
fn model_labels_are_canonical() {
    assert_eq!(ConsistencyModel::Serializable.label(), ":serializable");
    assert_eq!(ConsistencyModel::default(), ConsistencyModel::Serializable);
    assert_eq!(
        ConsistencyModel::StrongSessionReadCommitted.label(),
        ":strong-session-read-committed"
    );
}

#[test]
fn elle_rw_checker_lives_in_its_namespace() {
    let checker = ElleRwChecker::default();
    assert_eq!(checker.ns().name().as_str(), "elle.rw-register");
}

#[test]
fn clj_namespaces_hold_their_names() {
    let ns = CljNs::new("elle.list-append".to_string());
    assert_eq!(ns.name().as_str(), "elle.list-append");
    assert_eq!(CljCore::default().name().as_str(), "clojure.core");
}
