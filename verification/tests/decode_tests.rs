use hammer::decode_args;
use hammer::Decoder;
use hammer::FlagConfig;
use hammer::FlagConfiguration;
use hammer::FlagDecoder;
use hammer::Flags;
use hammer::HammerError;
use hammer::HammerResult;

#[derive(Debug, PartialEq)]
struct CompileFlags {
    color: bool,
    count: u64,
    maybe: Option<u64>,
    some_some: bool,
}

impl FlagConfig for CompileFlags {
    fn config(c: FlagConfiguration) -> FlagConfiguration {
        c.short("color", 'c')
    }
}

impl Flags for CompileFlags {
    fn decode<D: Decoder>(d: &mut D) -> HammerResult<Self> {
        d.read_struct_field("color")?;
        let color = d.read_bool()?;
        d.read_struct_field("count")?;
        let count = d.read_uint()?;
        d.read_struct_field("maybe")?;
        let maybe = if d.read_option()? {
            Some(d.read_uint()?)
        } else {
            None
        };
        d.read_struct_field("some_some")?;
        let some_some = d.read_bool()?;
        Ok(CompileFlags { color, count, maybe, some_some })
    }
}

#[derive(Debug, PartialEq)]
struct GlobalFlags {
    color: bool,
    verbose: bool,
    rest: Vec<String>,
}

impl FlagConfig for GlobalFlags {
    fn config(c: FlagConfiguration) -> FlagConfiguration {
        c
    }
}

impl Flags for GlobalFlags {
    fn decode<D: Decoder>(d: &mut D) -> HammerResult<Self> {
        d.read_struct_field("color")?;
        let color = d.read_bool()?;
        d.read_struct_field("verbose")?;
        let verbose = d.read_bool()?;
        d.read_struct_field("rest")?;
        let rest = d.read_seq()?;
        Ok(GlobalFlags { color, verbose, rest })
    }
}

#[derive(Debug, PartialEq)]
struct AliasedRest {
    color: bool,
    verbose: bool,
    remaining: Vec<String>,
}

impl FlagConfig for AliasedRest {
    fn config(c: FlagConfiguration) -> FlagConfiguration {
        c.short("verbose", 'v').rest_field("remaining")
    }
}

impl Flags for AliasedRest {
    fn decode<D: Decoder>(d: &mut D) -> HammerResult<Self> {
        d.read_struct_field("color")?;
        let color = d.read_bool()?;
        d.read_struct_field("verbose")?;
        let verbose = d.read_bool()?;
        d.read_struct_field("remaining")?;
        let remaining = d.read_seq()?;
        Ok(AliasedRest { color, verbose, remaining })
    }
}

#[test]
fn test_example() {
    let args = vec![
        "--count".to_string(),
        "1".to_string(),
        "foo".to_string(),
        "-c".to_string(),
    ];
    let mut decoder = FlagDecoder::new::<CompileFlags>(args.as_slice());
    let flags: CompileFlags = CompileFlags::decode(&mut decoder).unwrap();

    assert_eq!(decoder.remaining(), vec!["foo".to_string()]);
    assert_eq!(
        flags,
        CompileFlags {
            color: true,
            count: 1u64,
            maybe: None,
            some_some: false
        }
    );
}

#[test]
fn test_err() {
    let args: Vec<String> = vec![];
    let mut decoder = FlagDecoder::new::<CompileFlags>(args.as_slice());
    let flags: HammerResult<CompileFlags> = CompileFlags::decode(&mut decoder);

    assert_eq!(
        flags,
        Err(HammerError {
            message: "--count is required".to_string()
        })
    );

    assert!(decoder.error == None, "The decoder doesn't have an error");
}

#[test]
fn test_rest() {
    let args = vec![
        "--verbose".to_string(),
        "hello".to_string(),
        "goodbye".to_string(),
    ];

    let mut decoder = FlagDecoder::new::<GlobalFlags>(args.as_slice());
    let flags: GlobalFlags = GlobalFlags::decode(&mut decoder).unwrap();

    assert_eq!(
        flags,
        GlobalFlags {
            color: false,
            verbose: true,
            rest: vec!["hello".to_string(), "goodbye".to_string()]
        }
    );
}

#[test]
fn test_aliased_rest() {
    let args = vec!["-v".to_string(), "hello".to_string(), "goodbye".to_string()];

    let mut decoder = FlagDecoder::new::<AliasedRest>(args.as_slice());
    let flags: AliasedRest = AliasedRest::decode(&mut decoder).unwrap();

    assert_eq!(
        flags,
        AliasedRest {
            color: false,
            verbose: true,
            remaining: vec!["hello".to_string(), "goodbye".to_string()]
        }
    );
}

#[test]
fn test_decode_args_entry_point() {
    let args = vec!["--count".to_string(), "7".to_string()];
    let flags: CompileFlags = decode_args(args.as_slice()).unwrap();
    assert_eq!(
        flags,
        CompileFlags {
            color: false,
            count: 7u64,
            maybe: None,
            some_some: false
        }
    );
}

#[test]
fn test_all_bool_fields_false_on_empty_args() {
    let args: Vec<String> = vec![];
    let flags: GlobalFlags = decode_args(args.as_slice()).unwrap();
    assert_eq!(
        flags,
        GlobalFlags {
            color: false,
            verbose: false,
            rest: vec![]
        }
    );
}

#[test]
fn test_optional_field_present() {
    let args = vec![
        "--count".to_string(),
        "2".to_string(),
        "--maybe".to_string(),
        "9".to_string(),
    ];
    let flags: CompileFlags = decode_args(args.as_slice()).unwrap();
    assert_eq!(
        flags,
        CompileFlags {
            color: false,
            count: 2u64,
            maybe: Some(9u64),
            some_some: false
        }
    );
}

#[test]
fn test_missing_operand_error() {
    let args = vec!["--count".to_string()];
    let flags: HammerResult<CompileFlags> = decode_args(args.as_slice());
    assert_eq!(
        flags,
        Err(HammerError {
            message: "--count is missing a following string".to_string()
        })
    );
}

#[test]
fn test_conversion_failure_error() {
    let args = vec!["--count".to_string(), "foo".to_string()];
    let flags: HammerResult<CompileFlags> = decode_args(args.as_slice());
    assert_eq!(
        flags,
        Err(HammerError {
            message: "could not convert foo to an integer".to_string()
        })
    );
}

#[test]
fn test_flag_with_value_removes_two_tokens() {
    let args = vec![
        "--count".to_string(),
        "3".to_string(),
        "extra".to_string(),
    ];
    let mut decoder = FlagDecoder::new::<CompileFlags>(args.as_slice());
    assert_eq!(decoder.remaining().len(), 3);
    decoder.read_struct_field("count").unwrap();
    assert_eq!(decoder.read_uint(), Ok(3u64));
    assert_eq!(decoder.remaining(), vec!["extra".to_string()]);
}

#[test]
fn test_bool_flag_removes_one_token() {
    let args = vec!["-c".to_string(), "extra".to_string()];
    let mut decoder = FlagDecoder::new::<CompileFlags>(args.as_slice());
    decoder.read_struct_field("color").unwrap();
    assert_eq!(decoder.read_bool(), Ok(true));
    assert_eq!(decoder.remaining(), vec!["extra".to_string()]);
}

#[test]
fn test_absent_bool_flag_removes_nothing() {
    let args = vec!["extra".to_string()];
    let mut decoder = FlagDecoder::new::<CompileFlags>(args.as_slice());
    decoder.read_struct_field("color").unwrap();
    assert_eq!(decoder.read_bool(), Ok(false));
    assert_eq!(decoder.remaining(), vec!["extra".to_string()]);
}
