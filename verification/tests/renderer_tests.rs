use hammer::usage::print_fields;
use hammer::usage::print_usage;
use hammer::usage::FieldUsage;

fn sample_fields() -> Vec<FieldUsage> {
    let mut color = FieldUsage::new("--color");
    color.optional();
    let line_count = FieldUsage::new("--line-count");
    let mut verbose = FieldUsage::new("--verbose");
    verbose.alias('v');
    verbose.optional();
    vec![color, line_count, verbose]
}

#[test]
fn test_print_usage_groups_mandatory_first() {
    let fields = sample_fields();
    assert_eq!(
        print_usage(&fields, false),
        "    --line-count\n    [--color]\n-v, [--verbose]\n".to_string()
    );
}

#[test]
fn test_print_usage_without_aliases_or_indent() {
    let fields = vec![FieldUsage::new("--alpha"), FieldUsage::new("--beta")];
    assert_eq!(print_usage(&fields, false), "--alpha\n--beta\n".to_string());
    assert_eq!(
        print_usage(&fields, true),
        "    --alpha\n    --beta\n".to_string()
    );
}

#[test]
fn test_print_fields_brackets_and_alias_prefix() {
    let mut aliased = FieldUsage::new("--quiet");
    aliased.alias('q');
    let fields = vec![aliased, FieldUsage::new("--loud")];
    assert_eq!(
        print_fields(&fields, "  ", true),
        "-q, [--quiet]\n  [--loud]\n".to_string()
    );
    assert_eq!(
        print_fields(&fields, "", false),
        "-q, --quiet\n--loud\n".to_string()
    );
}

#[test]
fn test_print_usage_empty_list() {
    let fields: Vec<FieldUsage> = vec![];
    assert_eq!(print_usage(&fields, false), "".to_string());
}
