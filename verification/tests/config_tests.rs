use hammer::FlagConfiguration;

#[test]
fn test_short_for_reflects_registration() {
    let c = FlagConfiguration::new().short("verbose", 'v');
    assert_eq!(c.short_for("verbose"), Some('v'));
    assert_eq!(c.short_for("color"), None);
}

#[test]
fn test_last_registration_wins() {
    let c = FlagConfiguration::new().short("color", 'c').short("color", 'k');
    assert_eq!(c.short_for("color"), Some('k'));
}

#[test]
fn test_description_reflects_last_set() {
    let c = FlagConfiguration::new().desc("first").desc("second");
    assert_eq!(c.description(), Some("second".to_string()));
    assert_eq!(FlagConfiguration::new().description(), None);
}

#[test]
fn test_operations_are_order_independent() {
    let a = FlagConfiguration::new()
        .short("verbose", 'v')
        .desc("tool")
        .rest_field("remaining");
    let b = FlagConfiguration::new()
        .rest_field("remaining")
        .desc("tool")
        .short("verbose", 'v');
    let c = FlagConfiguration::new()
        .desc("tool")
        .short("verbose", 'v')
        .rest_field("remaining");

    assert_eq!(a.short_for("verbose"), Some('v'));
    assert_eq!(b.short_for("verbose"), Some('v'));
    assert_eq!(c.short_for("verbose"), Some('v'));
    assert_eq!(a.description(), Some("tool".to_string()));
    assert_eq!(b.description(), Some("tool".to_string()));
    assert_eq!(c.description(), Some("tool".to_string()));
    assert_eq!(a.short_for("remaining"), None);
    assert_eq!(b.short_for("remaining"), None);
    assert_eq!(c.short_for("remaining"), None);
}

#[test]
fn test_aliases_for_different_names_commute() {
    let a = FlagConfiguration::new().short("color", 'c').short("verbose", 'v');
    let b = FlagConfiguration::new().short("verbose", 'v').short("color", 'c');
    assert_eq!(a.short_for("color"), b.short_for("color"));
    assert_eq!(a.short_for("verbose"), b.short_for("verbose"));
    assert_eq!(a.short_for("other"), b.short_for("other"));
}

#[test]
fn test_decoder_with_explicit_config() {
    let config = FlagConfiguration::new().short("verbose", 'v');
    let args = vec!["-v".to_string(), "keep".to_string()];
    let mut d = hammer::FlagDecoder::with_config(args.as_slice(), config);
    d.read_struct_field("verbose").unwrap();
    assert_eq!(d.read_bool(), Ok(true));
    assert_eq!(d.remaining(), vec!["keep".to_string()]);
}
