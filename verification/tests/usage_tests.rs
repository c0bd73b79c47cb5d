use hammer::usage;
use hammer::Decoder;
use hammer::FlagConfig;
use hammer::FlagConfiguration;
use hammer::Flags;
use hammer::HammerResult;

#[allow(dead_code)]
struct MixedOptions {
    color: Option<String>,
    line_count: String,
    verbose: bool,
    rest: Vec<String>,
}

impl FlagConfig for MixedOptions {
    fn config(c: FlagConfiguration) -> FlagConfiguration {
        c.short("verbose", 'v')
    }
}

impl Flags for MixedOptions {
    fn decode<D: Decoder>(d: &mut D) -> HammerResult<Self> {
        d.read_struct_field("color")?;
        let color = if d.read_option()? {
            Some(d.read_str()?)
        } else {
            None
        };
        d.read_struct_field("line_count")?;
        let line_count = d.read_str()?;
        d.read_struct_field("verbose")?;
        let verbose = d.read_bool()?;
        d.read_struct_field("rest")?;
        let rest = d.read_seq()?;
        Ok(MixedOptions { color, line_count, verbose, rest })
    }
}

#[allow(dead_code)]
struct NoShorthandOptions {
    color: Option<String>,
    line_count: String,
    verbose: bool,
    rest: Vec<String>,
}

impl FlagConfig for NoShorthandOptions {
    fn config(c: FlagConfiguration) -> FlagConfiguration {
        c
    }
}

impl Flags for NoShorthandOptions {
    fn decode<D: Decoder>(d: &mut D) -> HammerResult<Self> {
        d.read_struct_field("color")?;
        let color = if d.read_option()? {
            Some(d.read_str()?)
        } else {
            None
        };
        d.read_struct_field("line_count")?;
        let line_count = d.read_str()?;
        d.read_struct_field("verbose")?;
        let verbose = d.read_bool()?;
        d.read_struct_field("rest")?;
        let rest = d.read_seq()?;
        Ok(NoShorthandOptions { color, line_count, verbose, rest })
    }
}

#[test]
fn test_mixed_usage() {
    let (_, text) = usage::<MixedOptions>(false);
    assert_eq!(
        text,
        "    --line-count\n    [--color]\n-v, [--verbose]\n".to_string()
    );
}

#[test]
fn test_no_shorthand_usage() {
    let (_, text) = usage::<NoShorthandOptions>(false);
    assert_eq!(text, "--line-count\n[--color]\n[--verbose]\n".to_string());
}

#[test]
fn test_forced_indent_without_aliases() {
    let (_, text) = usage::<NoShorthandOptions>(true);
    assert_eq!(
        text,
        "    --line-count\n    [--color]\n    [--verbose]\n".to_string()
    );
}

#[allow(dead_code)]
struct Described {
    verbose: bool,
}

impl FlagConfig for Described {
    fn config(c: FlagConfiguration) -> FlagConfiguration {
        c.desc("A test of hammer.rs")
    }
}

impl Flags for Described {
    fn decode<D: Decoder>(d: &mut D) -> HammerResult<Self> {
        d.read_struct_field("verbose")?;
        let verbose = d.read_bool()?;
        Ok(Described { verbose })
    }
}

#[test]
fn test_usage_description() {
    let (desc, text) = usage::<Described>(false);
    assert_eq!(desc, Some("A test of hammer.rs".to_string()));
    assert_eq!(text, "[--verbose]\n".to_string());
}
