use clserver::cli::StopType;

#[test]
fn reads_stop_types_in_any_case() {
    assert_eq!(StopType::from_name("friendly"), Some(StopType::Friendly));
    assert_eq!(StopType::from_name("FRIENDLY"), Some(StopType::Friendly));
    assert_eq!(StopType::from_name("ImMeDiAtE"), Some(StopType::Immediate));
    assert_eq!(StopType::from_name("invalid"), None);
}
