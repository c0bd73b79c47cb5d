use hammer::decode_args;
use hammer::Decoder;
use hammer::FlagConfig;
use hammer::FlagConfiguration;
use hammer::Flags;
use hammer::HammerError;
use hammer::HammerResult;

#[derive(Debug, PartialEq)]
struct Typed {
    letter: char,
    word: String,
    num: u64,
    small: u8,
    signed: i32,
}

impl FlagConfig for Typed {
    fn config(c: FlagConfiguration) -> FlagConfiguration {
        c.short("letter", 'l').short("num", 'n').short("word", 'w')
    }
}

impl Flags for Typed {
    fn decode<D: Decoder>(d: &mut D) -> HammerResult<Self> {
        d.read_struct_field("letter")?;
        let letter = d.read_char()?;
        d.read_struct_field("word")?;
        let word = d.read_str()?;
        d.read_struct_field("num")?;
        let num = d.read_u64()?;
        d.read_struct_field("small")?;
        let small = d.read_u8()?;
        d.read_struct_field("signed")?;
        let signed = d.read_i32()?;
        Ok(Typed { letter, word, num, small, signed })
    }
}

fn typed_args() -> Vec<String> {
    vec![
        "--letter".to_string(),
        "x".to_string(),
        "--word".to_string(),
        "hello".to_string(),
        "--num".to_string(),
        "42".to_string(),
        "--small".to_string(),
        "7".to_string(),
        "--signed".to_string(),
        "19".to_string(),
    ]
}

#[test]
fn test_round_trip_long_forms() {
    let flags: Typed = decode_args(typed_args().as_slice()).unwrap();
    assert_eq!(
        flags,
        Typed {
            letter: 'x',
            word: "hello".to_string(),
            num: 42u64,
            small: 7u8,
            signed: 19i32
        }
    );
}

#[test]
fn test_round_trip_short_forms() {
    let args = vec![
        "-l".to_string(),
        "x".to_string(),
        "-w".to_string(),
        "hello".to_string(),
        "-n".to_string(),
        "42".to_string(),
        "--small".to_string(),
        "7".to_string(),
        "--signed".to_string(),
        "19".to_string(),
    ];
    let flags: Typed = decode_args(args.as_slice()).unwrap();
    assert_eq!(
        flags,
        Typed {
            letter: 'x',
            word: "hello".to_string(),
            num: 42u64,
            small: 7u8,
            signed: 19i32
        }
    );
}

#[test]
fn test_round_trip_largest_u64() {
    let args = vec![
        "--letter".to_string(),
        "q".to_string(),
        "--word".to_string(),
        "w".to_string(),
        "--num".to_string(),
        "18446744073709551615".to_string(),
        "--small".to_string(),
        "0".to_string(),
        "--signed".to_string(),
        "1".to_string(),
    ];
    let flags: Typed = decode_args(args.as_slice()).unwrap();
    assert_eq!(flags.num, u64::MAX);
}

#[test]
fn test_overflowing_u64_is_a_conversion_failure() {
    let args = vec![
        "--letter".to_string(),
        "q".to_string(),
        "--word".to_string(),
        "w".to_string(),
        "--num".to_string(),
        "18446744073709551616".to_string(),
    ];
    let flags: HammerResult<Typed> = decode_args(args.as_slice());
    assert_eq!(
        flags,
        Err(HammerError {
            message: "could not convert 18446744073709551616 to an integer".to_string()
        })
    );
}

#[test]
fn test_narrowing_truncates_silently() {
    let args = vec![
        "--letter".to_string(),
        "q".to_string(),
        "--word".to_string(),
        "w".to_string(),
        "--num".to_string(),
        "1".to_string(),
        "--small".to_string(),
        "300".to_string(),
        "--signed".to_string(),
        "2".to_string(),
    ];
    let flags: Typed = decode_args(args.as_slice()).unwrap();
    assert_eq!(flags.small, 44u8);
}

#[test]
fn test_char_conversion_failure() {
    let args = vec![
        "--letter".to_string(),
        "xy".to_string(),
        "--word".to_string(),
        "w".to_string(),
        "--num".to_string(),
        "1".to_string(),
    ];
    let flags: HammerResult<Typed> = decode_args(args.as_slice());
    assert_eq!(
        flags,
        Err(HammerError {
            message: "xy is not a single character".to_string()
        })
    );
}

#[derive(Debug, PartialEq)]
struct RestThenMore {
    rest: Vec<String>,
    late: bool,
}

impl FlagConfig for RestThenMore {
    fn config(c: FlagConfiguration) -> FlagConfiguration {
        c
    }
}

impl Flags for RestThenMore {
    fn decode<D: Decoder>(d: &mut D) -> HammerResult<Self> {
        d.read_struct_field("rest")?;
        let rest = d.read_seq()?;
        d.read_struct_field("late")?;
        let late = d.read_bool()?;
        Ok(RestThenMore { rest, late })
    }
}

#[test]
fn test_field_after_rest_fails_fast() {
    let args = vec!["a".to_string(), "b".to_string()];
    let flags: HammerResult<RestThenMore> = decode_args(args.as_slice());
    assert_eq!(
        flags,
        Err(HammerError {
            message: "Flag struct must not contain any fields after rest".to_string()
        })
    );

    let no_args: Vec<String> = vec![];
    let flags: HammerResult<RestThenMore> = decode_args(no_args.as_slice());
    assert_eq!(
        flags,
        Err(HammerError {
            message: "Flag struct must not contain any fields after rest".to_string()
        })
    );
}

#[derive(Debug, PartialEq)]
struct SeqNotRest {
    items: Vec<String>,
}

impl FlagConfig for SeqNotRest {
    fn config(c: FlagConfiguration) -> FlagConfiguration {
        c
    }
}

impl Flags for SeqNotRest {
    fn decode<D: Decoder>(d: &mut D) -> HammerResult<Self> {
        d.read_struct_field("items")?;
        let items = d.read_seq()?;
        Ok(SeqNotRest { items })
    }
}

#[test]
fn test_sequence_outside_rest_field_is_unsupported() {
    let args = vec!["a".to_string()];
    let flags: HammerResult<SeqNotRest> = decode_args(args.as_slice());
    assert_eq!(
        flags,
        Err(HammerError {
            message: "sequence fields other than the rest field are not supported".to_string()
        })
    );
}
