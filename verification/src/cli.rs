//! Command-line arguments and their grammar.
//!
//! The grammar is the project's own: value options may be written with
//! their long name or short name followed by the value as the next
//! argument, switches stand alone, later occurrences win, and anything
//! else rejects the whole command line. The first argument is the program
//! name and carries no meaning.

use vstd::prelude::*;

verus! {

/// Configuration for a rendering run.
#[derive(Debug)]
pub struct Args {
    /// Rendering resolution width.
    pub width: u32,
    /// Rendering resolution height.
    pub height: u32,
    /// Output file path.
    pub output: String,
    /// Output format (png, jpg, bmp).
    pub format: String,
    /// Number of samples for anti-aliasing.
    pub samples: u32,
    /// Verbose output.
    pub verbose: bool,
    /// Log level (error, warn, info, debug, trace).
    pub log_level: String,
    /// Run in headless mode (no window).
    pub headless: bool,
    /// Path to the glTF file to load.
    pub gltf_path: String,
}

/// The mathematical image of an argument record.
pub struct ArgsModel {
    pub width: u32,
    pub height: u32,
    pub output: Seq<char>,
    pub format: Seq<char>,
    pub samples: u32,
    pub verbose: bool,
    pub log_level: Seq<char>,
    pub headless: bool,
    pub gltf_path: Seq<char>,
}

impl View for Args {
    type V = ArgsModel;

    open spec fn view(&self) -> ArgsModel {
        ArgsModel {
            width: self.width,
            height: self.height,
            output: self.output@,
            format: self.format@,
            samples: self.samples,
            verbose: self.verbose,
            log_level: self.log_level@,
            headless: self.headless,
            gltf_path: self.gltf_path@,
        }
    }
}

/// Errors that reject a command line.
#[derive(Debug)]
pub enum ArgsError {
    UnknownArgument(String),
    MissingValue(String),
    InvalidValue(String),
}

impl ArgsError {
    /// A human-readable description of the error.
    pub fn message(&self) -> (r: String)
        ensures
            (self matches ArgsError::UnknownArgument(m) ==> r@ == "Unknown argument: "@ + m@),
            (self matches ArgsError::MissingValue(m) ==> r@ == "Missing value for argument: "@
                + m@),
            (self matches ArgsError::InvalidValue(m) ==> r@ == "Invalid value: "@ + m@),
    {
        match self {
            ArgsError::UnknownArgument(m) => "Unknown argument: ".to_owned().concat(m.as_str()),
            ArgsError::MissingValue(m) => "Missing value for argument: ".to_owned().concat(
                m.as_str(),
            ),
            ArgsError::InvalidValue(m) => "Invalid value: ".to_owned().concat(m.as_str()),
        }
    }
}

/// Whether the character is a decimal digit.
pub open spec fn is_digit(c: char) -> bool {
    48 <= c as u32 <= 57
}

/// The value of one decimal digit.
pub open spec fn digit_val(c: char) -> int {
    c as u32 - 48
}

/// The number a string of digits denotes, most significant digit first.
pub open spec fn digits_val(s: Seq<char>) -> int
    decreases s.len(),
{
    if s.len() == 0 {
        0
    } else {
        digits_val(s.drop_last()) * 10 + digit_val(s.last())
    }
}

/// The number an argument denotes, if it is a non-empty string of decimal
/// digits denoting a value that fits in 32 bits.
pub open spec fn spec_parse_u32(s: Seq<char>) -> Option<u32> {
    if s.len() > 0 && (forall|i: int| 0 <= i < s.len() ==> is_digit(#[trigger] s[i]))
        && digits_val(s) <= u32::MAX {
        Some(digits_val(s) as u32)
    } else {
        None
    }
}

/// Digit strings denote values that never shrink as digits are appended.
proof fn lemma_digits_val_bounds(s: Seq<char>, i: int)
    requires
        0 <= i <= s.len(),
        forall|k: int| 0 <= k < s.len() ==> is_digit(#[trigger] s[k]),
    ensures
        0 <= digits_val(s.take(i)) <= digits_val(s),
    decreases s.len() - i,
{
    if i == s.len() {
        assert(s.take(i) =~= s);
        lemma_digits_val_nonneg(s);
    } else {
        lemma_digits_val_bounds(s, i + 1);
        assert(s.take(i + 1).drop_last() =~= s.take(i));
        lemma_digits_val_nonneg(s.take(i));
        assert(digits_val(s.take(i + 1)) == digits_val(s.take(i)) * 10 + digit_val(s[i]));
    }
}

proof fn lemma_digits_val_nonneg(s: Seq<char>)
    requires
        forall|k: int| 0 <= k < s.len() ==> is_digit(#[trigger] s[k]),
    ensures
        digits_val(s) >= 0,
    decreases s.len(),
{
    if s.len() > 0 {
        assert(forall|k: int|
            0 <= k < s.drop_last().len() ==> is_digit(#[trigger] s.drop_last()[k]));
        lemma_digits_val_nonneg(s.drop_last());
    }
}

/// Parse a 32-bit decimal number.
fn parse_u32(s: &str) -> (r: Option<u32>)
    ensures
        r == spec_parse_u32(s@),
{
    let n = s.unicode_len();
    if n == 0 {
        return None;
    }
    let mut val: u32 = 0;
    let mut i: usize = 0;
    while i < n
        invariant
            i <= n,
            n == s@.len(),
            forall|k: int| 0 <= k < i ==> is_digit(#[trigger] s@[k]),
            val == digits_val(s@.take(i as int)),
        decreases n - i,
    {
        let c = s.get_char(i) as u32;
        if c < 48 || c > 57 {
            return None;
        }
        let d = c - 48;
        let wide: u64 = (val as u64) * 10 + (d as u64);
        proof {
            assert(s@.take(i as int + 1).drop_last() =~= s@.take(i as int));
        }
        if wide > u32::MAX as u64 {
            proof {
                if spec_parse_u32(s@) is Some {
                    lemma_digits_val_bounds(s@, i as int + 1);
                }
            }
            return None;
        }
        val = wide as u32;
        i = i + 1;
    }
    proof {
        assert(s@.take(n as int) =~= s@);
    }
    Some(val)
}

/// The defaults a bare command line denotes.
pub open spec fn default_args_model() -> ArgsModel {
    ArgsModel {
        width: 800,
        height: 600,
        output: "output.png"@,
        format: "png"@,
        samples: 1,
        verbose: false,
        log_level: "info"@,
        headless: false,
        gltf_path: "test_assets/triangle.gltf"@,
    }
}

/// The grammar: fold the arguments over the record, one option at a time.
pub open spec fn spec_parse_args(m: ArgsModel, rest: Seq<Seq<char>>) -> Option<ArgsModel>
    decreases rest.len(),
{
    if rest.len() == 0 {
        Some(m)
    } else {
        let a = rest[0];
        if a == "-w"@ || a == "--width"@ {
            if rest.len() >= 2 {
                match spec_parse_u32(rest[1]) {
                    Some(v) => spec_parse_args(ArgsModel { width: v, ..m }, rest.skip(2)),
                    None => None,
                }
            } else {
                None
            }
        } else if a == "--height"@ {
            if rest.len() >= 2 {
                match spec_parse_u32(rest[1]) {
                    Some(v) => spec_parse_args(ArgsModel { height: v, ..m }, rest.skip(2)),
                    None => None,
                }
            } else {
                None
            }
        } else if a == "-o"@ || a == "--output"@ {
            if rest.len() >= 2 {
                spec_parse_args(ArgsModel { output: rest[1], ..m }, rest.skip(2))
            } else {
                None
            }
        } else if a == "-f"@ || a == "--format"@ {
            if rest.len() >= 2 {
                spec_parse_args(ArgsModel { format: rest[1], ..m }, rest.skip(2))
            } else {
                None
            }
        } else if a == "-s"@ || a == "--samples"@ {
            if rest.len() >= 2 {
                match spec_parse_u32(rest[1]) {
                    Some(v) => spec_parse_args(ArgsModel { samples: v, ..m }, rest.skip(2)),
                    None => None,
                }
            } else {
                None
            }
        } else if a == "-v"@ || a == "--verbose"@ {
            spec_parse_args(ArgsModel { verbose: true, ..m }, rest.skip(1))
        } else if a == "-l"@ || a == "--log-level"@ {
            if rest.len() >= 2 {
                spec_parse_args(ArgsModel { log_level: rest[1], ..m }, rest.skip(2))
            } else {
                None
            }
        } else if a == "--headless"@ {
            spec_parse_args(ArgsModel { headless: true, ..m }, rest.skip(1))
        } else if a == "-g"@ || a == "--gltf"@ {
            if rest.len() >= 2 {
                spec_parse_args(ArgsModel { gltf_path: rest[1], ..m }, rest.skip(2))
            } else {
                None
            }
        } else {
            None
        }
    }
}

/// The views of a list of argument strings.
pub open spec fn views_of(args: Seq<String>) -> Seq<Seq<char>> {
    Seq::new(args.len(), |i: int| args[i]@)
}

/// What a full command line denotes: everything after the program name,
/// folded over the defaults.
pub open spec fn spec_parse_argv(argv: Seq<String>) -> Option<ArgsModel> {
    if argv.len() == 0 {
        Some(default_args_model())
    } else {
        spec_parse_args(default_args_model(), views_of(argv).skip(1))
    }
}

impl Args {
    /// The argument record a bare command line denotes.
    pub fn default_values() -> (r: Args)
        ensures
            r@ == default_args_model(),
    {
        Args {
            width: 800,
            height: 600,
            output: "output.png".to_owned(),
            format: "png".to_owned(),
            samples: 1,
            verbose: false,
            log_level: "info".to_owned(),
            headless: false,
            gltf_path: "test_assets/triangle.gltf".to_owned(),
        }
    }

    /// Parse a command line. This succeeds exactly on the lists the
    /// grammar accepts, and then returns the record the list denotes.
    #[verifier::rlimit(80)]
    pub fn try_parse(args: &Vec<String>) -> (r: Result<Args, ArgsError>)
        ensures
            match r {
                Ok(a) => spec_parse_argv(args@) == Some(a@),
                Err(_) => spec_parse_argv(args@) is None,
            },
    {
        let mut m = Args::default_values();
        let n = args.len();
        if n == 0 {
            return Ok(m);
        }
        let mut i: usize = 1;
        while i < n
            invariant
                1 <= i <= n,
                n == args@.len(),
                spec_parse_args(default_args_model(), views_of(args@).skip(1)) == spec_parse_args(
                    m@,
                    views_of(args@).skip(i as int),
                ),
            decreases n - i,
        {
            let ghost rest = views_of(args@).skip(i as int);
            proof {
                assert(rest[0] == args@[i as int]@);
                if i + 1 < n {
                    assert(rest[1] == args@[i as int + 1]@);
                }
            }
            let a = &args[i];
            if *a == "-w".to_owned() || *a == "--width".to_owned() {
                if i + 1 < n {
                    match parse_u32(args[i + 1].as_str()) {
                        Some(v) => {
                            m.width = v;
                            proof {
                                assert(rest.skip(2) =~= views_of(args@).skip(i as int + 2));
                            }
                            i = i + 2;
                        },
                        None => {
                            return Err(ArgsError::InvalidValue(args[i + 1].clone()));
                        },
                    }
                } else {
                    return Err(ArgsError::MissingValue(a.clone()));
                }
            } else if *a == "--height".to_owned() {
                if i + 1 < n {
                    match parse_u32(args[i + 1].as_str()) {
                        Some(v) => {
                            m.height = v;
                            proof {
                                assert(rest.skip(2) =~= views_of(args@).skip(i as int + 2));
                            }
                            i = i + 2;
                        },
                        None => {
                            return Err(ArgsError::InvalidValue(args[i + 1].clone()));
                        },
                    }
                } else {
                    return Err(ArgsError::MissingValue(a.clone()));
                }
            } else if *a == "-o".to_owned() || *a == "--output".to_owned() {
                if i + 1 < n {
                    m.output = args[i + 1].clone();
                    proof {
                        assert(rest.skip(2) =~= views_of(args@).skip(i as int + 2));
                    }
                    i = i + 2;
                } else {
                    return Err(ArgsError::MissingValue(a.clone()));
                }
            } else if *a == "-f".to_owned() || *a == "--format".to_owned() {
                if i + 1 < n {
                    m.format = args[i + 1].clone();
                    proof {
                        assert(rest.skip(2) =~= views_of(args@).skip(i as int + 2));
                    }
                    i = i + 2;
                } else {
                    return Err(ArgsError::MissingValue(a.clone()));
                }
            } else if *a == "-s".to_owned() || *a == "--samples".to_owned() {
                if i + 1 < n {
                    match parse_u32(args[i + 1].as_str()) {
                        Some(v) => {
                            m.samples = v;
                            proof {
                                assert(rest.skip(2) =~= views_of(args@).skip(i as int + 2));
                            }
                            i = i + 2;
                        },
                        None => {
                            return Err(ArgsError::InvalidValue(args[i + 1].clone()));
                        },
                    }
                } else {
                    return Err(ArgsError::MissingValue(a.clone()));
                }
            } else if *a == "-v".to_owned() || *a == "--verbose".to_owned() {
                m.verbose = true;
                proof {
                    assert(rest.skip(1) =~= views_of(args@).skip(i as int + 1));
                }
                i = i + 1;
            } else if *a == "-l".to_owned() || *a == "--log-level".to_owned() {
                if i + 1 < n {
                    m.log_level = args[i + 1].clone();
                    proof {
                        assert(rest.skip(2) =~= views_of(args@).skip(i as int + 2));
                    }
                    i = i + 2;
                } else {
                    return Err(ArgsError::MissingValue(a.clone()));
                }
            } else if *a == "--headless".to_owned() {
                m.headless = true;
                proof {
                    assert(rest.skip(1) =~= views_of(args@).skip(i as int + 1));
                }
                i = i + 1;
            } else if *a == "-g".to_owned() || *a == "--gltf".to_owned() {
                if i + 1 < n {
                    m.gltf_path = args[i + 1].clone();
                    proof {
                        assert(rest.skip(2) =~= views_of(args@).skip(i as int + 2));
                    }
                    i = i + 2;
                } else {
                    return Err(ArgsError::MissingValue(a.clone()));
                }
            } else {
                return Err(ArgsError::UnknownArgument(a.clone()));
            }
        }
        proof {
            assert(views_of(args@).skip(n as int) =~= Seq::<Seq<char>>::empty());
        }
        Ok(m)
    }
}

} // verus!
