//! The command line of the playback test program: the player's command line with
//! options of its own in between.
use vstd::prelude::*;

use crate::app::bootstrap::Pipeline;
use crate::cli::args;
use crate::text;

verus! {

/// Frames to process where the command line does not say.
pub const DEFAULT_FRAMES: u64 = 60;

/// What a command line of the test program asks for.
#[derive(Debug)]
pub struct TestArgs {
    pub prod: args::Args,
    pub frames: u64,
    pub use_egl_gl: bool,
}

/// The contents of a [`TestArgs`].
pub struct TestArgsModel {
    pub prod: args::ArgsModel,
    pub frames: nat,
    pub use_egl_gl: bool,
}

impl TestArgs {
    /// The pipeline that the test is about.
    pub fn backend(&self) -> (r: Pipeline)
        ensures
            r == if self@.use_egl_gl {
                Pipeline::EglGl
            } else {
                Pipeline::Drm
            },
    {
        if self.use_egl_gl {
            Pipeline::EglGl
        } else {
            Pipeline::Drm
        }
    }
}

impl View for TestArgs {
    type V = TestArgsModel;

    open spec fn view(&self) -> TestArgsModel {
        TestArgsModel {
            prod: self.prod@,
            frames: self.frames as nat,
            use_egl_gl: self.use_egl_gl,
        }
    }
}

/// One argument, together with the value it takes.
pub enum TestToken {
    Frames(Seq<char>),
    FramesWithoutValue,
    Backend(Seq<char>),
    BackendWithoutValue,
    Other(Seq<char>),
}

/// The arguments in order; `--frames` and `--backend` take the argument after
/// them as their value.
pub open spec fn test_tokens(args: Seq<Seq<char>>) -> Seq<TestToken>
    decreases args.len(),
{
    if args.len() == 0 {
        seq![]
    } else if args[0] == "--frames"@ {
        if args.len() == 1 {
            seq![TestToken::FramesWithoutValue]
        } else {
            seq![TestToken::Frames(args[1])] + test_tokens(args.skip(2))
        }
    } else if args[0] == "--backend"@ {
        if args.len() == 1 {
            seq![TestToken::BackendWithoutValue]
        } else {
            seq![TestToken::Backend(args[1])] + test_tokens(args.skip(2))
        }
    } else {
        seq![TestToken::Other(args[0])] + test_tokens(args.skip(1))
    }
}

/// What is wrong with one argument.
pub open spec fn token_error(t: TestToken) -> Option<Seq<char>> {
    match t {
        TestToken::FramesWithoutValue => Some("error: --frames requires a value"@),
        TestToken::BackendWithoutValue => Some("error: --backend requires a value"@),
        TestToken::Frames(v) => match text::parse_decimal(v, u64::MAX as nat) {
            None => Some("error: invalid --frames '"@ + v + "'"@),
            Some(n) => if n == 0 {
                Some("frames must be >= 1"@)
            } else {
                None
            },
        },
        TestToken::Backend(v) => if v == "drm"@ || v == "egl-gl"@ {
            None
        } else {
            Some("error: invalid --backend '"@ + v + "'"@)
        },
        TestToken::Other(_) => None,
    }
}

/// The message of the first mistake.
pub open spec fn first_error(toks: Seq<TestToken>) -> Option<Seq<char>>
    decreases toks.len(),
{
    if toks.len() == 0 {
        None
    } else if token_error(toks[0]) is Some {
        token_error(toks[0])
    } else {
        first_error(toks.skip(1))
    }
}

/// The value of the last `--frames`, or `otherwise`.
pub open spec fn last_frames(toks: Seq<TestToken>, otherwise: nat) -> nat
    decreases toks.len(),
{
    if toks.len() == 0 {
        otherwise
    } else {
        match toks[0] {
            TestToken::Frames(v) => last_frames(
                toks.skip(1),
                text::parse_decimal(v, u64::MAX as nat)->0,
            ),
            _ => last_frames(toks.skip(1), otherwise),
        }
    }
}

/// Whether the last `--backend` names `egl-gl`, or `otherwise`.
pub open spec fn last_backend_is_gl(toks: Seq<TestToken>, otherwise: bool) -> bool
    decreases toks.len(),
{
    if toks.len() == 0 {
        otherwise
    } else {
        match toks[0] {
            TestToken::Backend(v) => last_backend_is_gl(toks.skip(1), v != "drm"@),
            _ => last_backend_is_gl(toks.skip(1), otherwise),
        }
    }
}

/// The arguments that are left for the player's command line.
pub open spec fn others(toks: Seq<TestToken>) -> Seq<Seq<char>>
    decreases toks.len(),
{
    if toks.len() == 0 {
        seq![]
    } else {
        match toks[0] {
            TestToken::Other(a) => seq![a] + others(toks.skip(1)),
            _ => others(toks.skip(1)),
        }
    }
}

/// What a command line of the test program means. A mistake in an option of the
/// test program comes before any in the player's command line.
pub open spec fn test_parsed(args: Seq<Seq<char>>) -> Result<TestArgsModel, Seq<char>> {
    if args.len() == 0 {
        Err("missing program name"@)
    } else {
        let toks = test_tokens(args.skip(1));
        match first_error(toks) {
            Some(e) => Err(e),
            None => match args::parsed(seq![args[0]] + others(toks)) {
                Err(e) => Err(e),
                Ok(prod) => Ok(
                    TestArgsModel {
                        prod,
                        frames: last_frames(toks, DEFAULT_FRAMES as nat),
                        use_egl_gl: last_backend_is_gl(toks, false),
                    },
                ),
            },
        }
    }
}

/// The contents of the outcome of a parse.
pub open spec fn test_outcome_view(r: Result<TestArgs, String>) -> Result<
    TestArgsModel,
    Seq<char>,
> {
    match r {
        Ok(a) => Ok(a@),
        Err(e) => Err(e@),
    }
}

fn quoted(message: &str, value: &str) -> (r: String)
    ensures
        r@ == message@ + value@ + "'"@,
{
    let mut r: String = message.to_string();
    r.append(value);
    r.append("'");
    r
}

/// Reads the command line `args`, whose first element is the name of the program.
pub fn parse_from(args: Vec<String>) -> (r: Result<TestArgs, String>)
    ensures
        test_outcome_view(r) == test_parsed(args.deep_view()),
{
    let ghost all = args.deep_view();
    if args.len() == 0 {
        return Err("missing program name".to_string());
    }
    let ghost toks = test_tokens(all.skip(1));
    let mut frames: u64 = DEFAULT_FRAMES;
    let mut use_egl_gl: bool = false;
    let mut rest: Vec<String> = Vec::new();
    rest.push(args[0].clone());
    let mut i: usize = 1;
    assert(rest.deep_view() =~= seq![all[0]]);
    while i < args.len()
        invariant
            all == args.deep_view(),
            all.len() > 0,
            1 <= i <= args.len(),
            toks == test_tokens(all.skip(1)),
            first_error(toks) == first_error(test_tokens(all.skip(i as int))),
            last_frames(toks, DEFAULT_FRAMES as nat) == last_frames(
                test_tokens(all.skip(i as int)),
                frames as nat,
            ),
            last_backend_is_gl(toks, false) == last_backend_is_gl(
                test_tokens(all.skip(i as int)),
                use_egl_gl,
            ),
            seq![all[0]] + others(toks) == rest.deep_view() + others(
                test_tokens(all.skip(i as int)),
            ),
        decreases args.len() - i,
    {
        let ghost left = all.skip(i as int);
        let ghost now = test_tokens(left);
        let arg = args[i].as_str();
        proof {
            assert(left[0] == arg@);
            assert(left.skip(1) =~= all.skip(i + 1));
        }
        if text::same(arg, "--frames") {
            i += 1;
            if i >= args.len() {
                assert(now[0] == TestToken::FramesWithoutValue);
                return Err("error: --frames requires a value".to_string());
            }
            let value = args[i].as_str();
            proof {
                assert(left[1] == value@);
                assert(left.skip(2) =~= all.skip(i + 1));
                assert(now[0] == TestToken::Frames(value@));
                assert(now.skip(1) =~= test_tokens(all.skip(i + 1)));
            }
            match text::parse_u64(value) {
                Some(n) => {
                    if n == 0 {
                        return Err("frames must be >= 1".to_string());
                    }
                    frames = n;
                },
                None => {
                    return Err(quoted("error: invalid --frames '", value));
                },
            }
        } else if text::same(arg, "--backend") {
            i += 1;
            if i >= args.len() {
                assert(now[0] == TestToken::BackendWithoutValue);
                return Err("error: --backend requires a value".to_string());
            }
            let value = args[i].as_str();
            proof {
                assert(left[1] == value@);
                assert(left.skip(2) =~= all.skip(i + 1));
                assert(now[0] == TestToken::Backend(value@));
                assert(now.skip(1) =~= test_tokens(all.skip(i + 1)));
            }
            if text::same(value, "drm") {
                use_egl_gl = false;
            } else if text::same(value, "egl-gl") {
                use_egl_gl = true;
            } else {
                return Err(quoted("error: invalid --backend '", value));
            }
        } else {
            let ghost before = rest.deep_view();
            rest.push(args[i].clone());
            proof {
                assert(now[0] == TestToken::Other(arg@));
                assert(now.skip(1) =~= test_tokens(all.skip(i + 1)));
                assert(rest.deep_view() =~= before.push(arg@));
                assert(before + others(now) =~= rest.deep_view() + others(now.skip(1)));
            }
        }
        i += 1;
    }
    proof {
        assert(test_tokens(all.skip(i as int)) =~= Seq::<TestToken>::empty());
        assert(rest.deep_view() + others(Seq::<TestToken>::empty()) =~= rest.deep_view());
    }
    match args::parse_from(rest) {
        Ok(prod) => Ok(TestArgs { prod, frames, use_egl_gl }),
        Err(e) => Err(e),
    }
}

/// The help text of the test program, for the program name `program`.
pub open spec fn usage_text(program: Seq<char>) -> Seq<char> {
    "Usage: "@ + program + USAGE_OPTIONS@ + program + USAGE_PLAIN@ + program + USAGE_BACKEND@
}

pub const USAGE_OPTIONS: &'static str = " [OPTIONS] <path-to-video>

Options:
  -o, --output <name>        Output connector(s) to use (e.g. eDP-1, DP-3)
  --vaapi                    Enable hardware-accelerated decoding (VA-API)
  --backend <drm|egl-gl>     Test backend to exercise (default: drm)
  --frames <N>               Frames to process, must be >= 1 (default: 60)
  -h, --help                 Show this help

Example: ";

pub const USAGE_PLAIN: &'static str = " path/to/wallpaper.mp4
         ";

pub const USAGE_BACKEND: &'static str = " --backend egl-gl --frames 120 path/to/wallpaper.mp4
";

/// The help text of the test program, for the program name `program`.
pub fn usage(program: &str) -> (r: String)
    ensures
        r@ == usage_text(program@),
{
    let mut r: String = "Usage: ".to_string();
    r.append(program);
    r.append(USAGE_OPTIONS);
    r.append(program);
    r.append(USAGE_PLAIN);
    r.append(program);
    r.append(USAGE_BACKEND);
    r
}

/// What the test program does after reading its command line.
pub enum TestInvocation {
    /// Run the test as asked.
    Run(TestArgs),
    /// Write `message` to the error stream and end with the exit status `status`.
    Exit { status: i32, message: String },
}

/// Reads the command line and decides what the test program does next.
pub fn parse(args: Vec<String>) -> (r: TestInvocation)
    requires
        args.len() > 0,
    ensures
        match test_parsed(args.deep_view()) {
            Ok(model) => r matches TestInvocation::Run(a) && a@ == model,
            Err(e) => r matches TestInvocation::Exit { status, message } && (status as int, message@)
                == args::exit_of(e, usage_text(args.deep_view()[0])),
        },
{
    let usage = self::usage(args[0].as_str());
    match parse_from(args) {
        Ok(a) => TestInvocation::Run(a),
        Err(e) => {
            let (status, message) = args::exit_for(e.as_str(), usage.as_str());
            TestInvocation::Exit { status, message }
        },
    }
}

proof fn lemma_frames_positive(toks: Seq<TestToken>, otherwise: nat)
    requires
        first_error(toks) is None,
        otherwise >= 1,
    ensures
        last_frames(toks, otherwise) >= 1,
    decreases toks.len(),
{
    if toks.len() > 0 {
        match toks[0] {
            TestToken::Frames(v) => {
                lemma_frames_positive(
                    toks.skip(1),
                    text::parse_decimal(v, u64::MAX as nat)->0,
                );
            },
            _ => {
                lemma_frames_positive(toks.skip(1), otherwise);
            },
        }
    }
}

/// An accepted command line asks for at least one frame.
pub proof fn law_frames_positive(args: Seq<Seq<char>>)
    requires
        test_parsed(args) is Ok,
    ensures
        test_parsed(args)->Ok_0.frames >= 1,
{
    lemma_frames_positive(test_tokens(args.skip(1)), DEFAULT_FRAMES as nat);
}

proof fn lemma_all_others(args: Seq<Seq<char>>)
    requires
        !args.contains("--frames"@),
        !args.contains("--backend"@),
    ensures
        first_error(test_tokens(args)) is None,
        others(test_tokens(args)) == args,
        last_frames(test_tokens(args), DEFAULT_FRAMES as nat) == DEFAULT_FRAMES,
        !last_backend_is_gl(test_tokens(args), false),
    decreases args.len(),
{
    if args.len() > 0 {
        assert(args.contains(args[0]));
        assert forall|a: Seq<char>| args.skip(1).contains(a) implies args.contains(a) by {
            let i = choose|i: int| 0 <= i < args.skip(1).len() && args.skip(1)[i] == a;
            assert(args[i + 1] == a);
        }
        lemma_all_others(args.skip(1));
        assert(test_tokens(args).skip(1) =~= test_tokens(args.skip(1)));
        assert(others(test_tokens(args)) =~= args);
    } else {
        assert(others(test_tokens(args)) =~= args);
    }
}

/// A command line without options of the test program is read as the player's
/// own, with the default number of frames and the DRM backend.
pub proof fn law_plain_command_line_delegates(args: Seq<Seq<char>>)
    requires
        args.len() > 0,
        !args.skip(1).contains("--frames"@),
        !args.skip(1).contains("--backend"@),
    ensures
        test_parsed(args) == match args::parsed(args) {
            Ok(prod) => Ok(
                TestArgsModel { prod, frames: DEFAULT_FRAMES as nat, use_egl_gl: false },
            ),
            Err(e) => Err(e),
        },
{
    lemma_all_others(args.skip(1));
    assert(seq![args[0]] + args.skip(1) =~= args);
}

proof fn lemma_test_tokens_concat(p: Seq<Seq<char>>, rest: Seq<Seq<char>>)
    requires
        first_error(test_tokens(p)) is None,
    ensures
        test_tokens(p + rest) == test_tokens(p) + test_tokens(rest),
    decreases p.len(),
{
    if p.len() == 0 {
        assert(p + rest =~= rest);
        assert(test_tokens(p) + test_tokens(rest) =~= test_tokens(rest));
    } else {
        let toks = test_tokens(p);
        assert((p + rest)[0] == p[0]);
        if p[0] != "--frames"@ && p[0] != "--backend"@ {
            assert(toks.skip(1) =~= test_tokens(p.skip(1)));
            lemma_test_tokens_concat(p.skip(1), rest);
            assert((p + rest).skip(1) =~= p.skip(1) + rest);
        } else if p.len() == 1 {
            assert(token_error(toks[0]) is Some);
        } else {
            assert(toks.skip(1) =~= test_tokens(p.skip(2)));
            lemma_test_tokens_concat(p.skip(2), rest);
            assert((p + rest).skip(2) =~= p.skip(2) + rest);
            assert((p + rest)[1] == p[1]);
        }
        assert(test_tokens(p + rest) =~= test_tokens(p) + test_tokens(rest));
    }
}

proof fn lemma_test_concat(x: Seq<TestToken>, y: Seq<TestToken>, frames: nat, gl: bool)
    ensures
        first_error(x + y) == match first_error(x) {
            Some(e) => Some(e),
            None => first_error(y),
        },
        last_frames(x + y, frames) == last_frames(y, last_frames(x, frames)),
        last_backend_is_gl(x + y, gl) == last_backend_is_gl(y, last_backend_is_gl(x, gl)),
        others(x + y) == others(x) + others(y),
    decreases x.len(),
{
    if x.len() == 0 {
        assert(x + y =~= y);
        assert(others(x) + others(y) =~= others(y));
    } else {
        let f = match x[0] {
            TestToken::Frames(v) => text::parse_decimal(v, u64::MAX as nat)->0,
            _ => frames,
        };
        let b = match x[0] {
            TestToken::Backend(v) => v != "drm"@,
            _ => gl,
        };
        lemma_test_concat(x.skip(1), y, f, b);
        assert((x + y).skip(1) =~= x.skip(1) + y);
        assert((x + y)[0] == x[0]);
        assert(others(x + y) =~= others(x) + others(y));
    }
}

/// The command line with one token more at its end.
proof fn lemma_appended(before: Seq<Seq<char>>, more: Seq<Seq<char>>, t: TestToken)
    requires
        test_parsed(before) is Ok,
        test_tokens(more) == seq![t],
    ensures
        token_error(t) matches Some(e) ==> test_parsed(before + more) == Err::<
            TestArgsModel,
            Seq<char>,
        >(e),
        token_error(t) is None && !(t is Other) ==> test_parsed(before + more) == Ok::<
            TestArgsModel,
            Seq<char>,
        >(
            TestArgsModel {
                prod: test_parsed(before)->Ok_0.prod,
                frames: last_frames(seq![t], test_parsed(before)->Ok_0.frames),
                use_egl_gl: last_backend_is_gl(seq![t], test_parsed(before)->Ok_0.use_egl_gl),
            },
        ),
{
    let front = before.skip(1);
    assert((before + more).skip(1) =~= front + more);
    assert((before + more)[0] == before[0]);
    lemma_test_tokens_concat(front, more);
    lemma_test_concat(test_tokens(front), seq![t], DEFAULT_FRAMES as nat, false);
    assert(seq![t].skip(1) =~= seq![]);
    assert(seq![t][0] == t);
    reveal_with_fuel(first_error, 2);
    if !(t is Other) {
        reveal_with_fuel(others, 2);
        assert(others(seq![t]) =~= seq![]);
        assert(others(test_tokens(front)) + others(seq![t]) =~= others(test_tokens(front)));
    }
}

proof fn lemma_pair_token(value: Seq<char>)
    ensures
        test_tokens(seq!["--frames"@, value]) == seq![TestToken::Frames(value)],
        test_tokens(seq!["--backend"@, value]) == seq![TestToken::Backend(value)],
        test_tokens(seq!["--frames"@]) == seq![TestToken::FramesWithoutValue],
        test_tokens(seq!["--backend"@]) == seq![TestToken::BackendWithoutValue],
{
    reveal_strlit("--frames");
    reveal_strlit("--backend");
    assert("--frames"@.len() != "--backend"@.len());
    assert(seq!["--frames"@, value].skip(2) =~= seq![]);
    assert(seq!["--backend"@, value].skip(2) =~= seq![]);
    assert(test_tokens(Seq::<Seq<char>>::empty()) =~= seq![]);
    assert(test_tokens(seq!["--frames"@, value]) =~= seq![TestToken::Frames(value)]);
    assert(test_tokens(seq!["--backend"@, value]) =~= seq![TestToken::Backend(value)]);
}

/// The last number of frames that is asked for counts, and changes nothing else; none is too
/// few, and what is no number is refused by name, as is a missing one.
#[verifier::rlimit(40)]
pub proof fn law_last_frames_count(before: Seq<Seq<char>>, n: nat, value: Seq<char>)
    requires
        test_parsed(before) is Ok,
    ensures
        1 <= n <= u64::MAX ==> test_parsed(before + seq!["--frames"@, text::decimal(n)]) == Ok::<
            TestArgsModel,
            Seq<char>,
        >((TestArgsModel { frames: n, ..test_parsed(before)->Ok_0 })),
        test_parsed(before + seq!["--frames"@, text::decimal(0)]) == Err::<
            TestArgsModel,
            Seq<char>,
        >("frames must be >= 1"@),
        n > u64::MAX ==> test_parsed(before + seq!["--frames"@, text::decimal(n)]) == Err::<
            TestArgsModel,
            Seq<char>,
        >("error: invalid --frames '"@ + text::decimal(n) + "'"@),
        value.len() == 0 || (exists|i: int|
            1 <= i < value.len() && !('0' <= #[trigger] value[i] <= '9')) ==> test_parsed(
            before + seq!["--frames"@, value],
        ) == Err::<TestArgsModel, Seq<char>>("error: invalid --frames '"@ + value + "'"@),
        test_parsed(before + seq!["--frames"@]) == Err::<TestArgsModel, Seq<char>>(
            "error: --frames requires a value"@,
        ),
{
    lemma_pair_token(text::decimal(n));
    lemma_pair_token(text::decimal(0));
    lemma_pair_token(value);
    lemma_appended(before, seq!["--frames"@, text::decimal(n)], TestToken::Frames(text::decimal(n)));
    lemma_appended(before, seq!["--frames"@, text::decimal(0)], TestToken::Frames(text::decimal(0)));
    lemma_appended(before, seq!["--frames"@, value], TestToken::Frames(value));
    lemma_appended(before, seq!["--frames"@], TestToken::FramesWithoutValue);
    text::law_decimal_reads_back(0, u64::MAX as nat);
    text::lemma_decimal_digits(n);
    assert(text::is_digit(text::decimal(n)[0]));
    assert(text::strip_plus(text::decimal(n)) == text::decimal(n));
    if n <= u64::MAX {
        text::law_decimal_reads_back(n, u64::MAX as nat);
    }
    let t = TestToken::Frames(text::decimal(n));
    reveal_with_fuel(last_frames, 2);
    reveal_with_fuel(last_backend_is_gl, 2);
    assert(seq![t].skip(1) =~= seq![]);
    assert(seq![t][0] == t);
    if exists|i: int| 1 <= i < value.len() && !('0' <= #[trigger] value[i] <= '9') {
        let i = choose|i: int| 1 <= i < value.len() && !('0' <= #[trigger] value[i] <= '9');
        let digits = text::strip_plus(value);
        if value[0] == '+' {
            assert(digits[i - 1] == value[i]);
        }
        assert(!text::is_digit(value[i]));
    }
}

/// The last backend that is named counts, and changes nothing else; there are two, and every
/// other name is refused, as is a missing one.
#[verifier::rlimit(40)]
pub proof fn law_last_backend_counts(before: Seq<Seq<char>>, value: Seq<char>)
    requires
        test_parsed(before) is Ok,
    ensures
        test_parsed(before + seq!["--backend"@, "egl-gl"@]) == Ok::<TestArgsModel, Seq<char>>(
            (TestArgsModel { use_egl_gl: true, ..test_parsed(before)->Ok_0 }),
        ),
        test_parsed(before + seq!["--backend"@, "drm"@]) == Ok::<TestArgsModel, Seq<char>>(
            (TestArgsModel { use_egl_gl: false, ..test_parsed(before)->Ok_0 }),
        ),
        value != "egl-gl"@ && value != "drm"@ ==> test_parsed(before + seq!["--backend"@, value])
            == Err::<TestArgsModel, Seq<char>>("error: invalid --backend '"@ + value + "'"@),
        test_parsed(before + seq!["--backend"@]) == Err::<TestArgsModel, Seq<char>>(
            "error: --backend requires a value"@,
        ),
{
    reveal_strlit("egl-gl");
    reveal_strlit("drm");
    assert("egl-gl"@.len() != "drm"@.len());
    lemma_backend_appended(before, "egl-gl"@);
    lemma_backend_appended(before, "drm"@);
    lemma_backend_appended(before, value);
}

proof fn lemma_backend_appended(before: Seq<Seq<char>>, value: Seq<char>)
    requires
        test_parsed(before) is Ok,
    ensures
        value == "drm"@ || value == "egl-gl"@ ==> test_parsed(before + seq!["--backend"@, value])
            == Ok::<TestArgsModel, Seq<char>>(
            (TestArgsModel { use_egl_gl: value != "drm"@, ..test_parsed(before)->Ok_0 }),
        ),
        value != "egl-gl"@ && value != "drm"@ ==> test_parsed(before + seq!["--backend"@, value])
            == Err::<TestArgsModel, Seq<char>>("error: invalid --backend '"@ + value + "'"@),
        test_parsed(before + seq!["--backend"@]) == Err::<TestArgsModel, Seq<char>>(
            "error: --backend requires a value"@,
        ),
{
    lemma_pair_token(value);
    let t = TestToken::Backend(value);
    lemma_appended(before, seq!["--backend"@, value], t);
    lemma_appended(before, seq!["--backend"@], TestToken::BackendWithoutValue);
    reveal_with_fuel(last_frames, 2);
    reveal_with_fuel(last_backend_is_gl, 2);
    assert(seq![t].skip(1) =~= seq![]);
    assert(seq![t][0] == t);
}

/// The options of the test program can stand among those of the player: taken out, they leave
/// the player's command line.
#[verifier::rlimit(40)]
pub proof fn law_own_options_are_taken_out(
    before: Seq<Seq<char>>,
    value: Seq<char>,
    after: Seq<Seq<char>>,
)
    requires
        before.len() > 0,
        !before.skip(1).contains("--frames"@),
        !before.skip(1).contains("--backend"@),
        !after.contains("--frames"@),
        !after.contains("--backend"@),
    ensures
        test_parsed(before + seq!["--frames"@, value] + after) matches Ok(m) ==> args::parsed(
            before + after,
        ) == Ok::<args::ArgsModel, Seq<char>>(m.prod) && !m.use_egl_gl,
        test_parsed(before + seq!["--backend"@, value] + after) matches Ok(m) ==> args::parsed(
            before + after,
        ) == Ok::<args::ArgsModel, Seq<char>>(m.prod) && m.frames == 60,
{
    let frames = seq!["--frames"@, value];
    let backend = seq!["--backend"@, value];
    reveal_strlit("--frames");
    reveal_strlit("--backend");
    assert("--frames"@.len() != "--backend"@.len());
    assert((frames + after).skip(2) =~= after);
    assert((backend + after).skip(2) =~= after);
    assert((frames + after)[0] == "--frames"@ && (frames + after)[1] == value);
    assert((backend + after)[0] == "--backend"@ && (backend + after)[1] == value);
    assert(before + frames + after =~= before + (frames + after));
    assert(before + backend + after =~= before + (backend + after));
    lemma_own_option(before, frames + after, TestToken::Frames(value), after);
    lemma_own_option(before, backend + after, TestToken::Backend(value), after);
}

proof fn lemma_own_option(
    before: Seq<Seq<char>>,
    more: Seq<Seq<char>>,
    t: TestToken,
    after: Seq<Seq<char>>,
)
    requires
        before.len() > 0,
        !before.skip(1).contains("--frames"@),
        !before.skip(1).contains("--backend"@),
        !after.contains("--frames"@),
        !after.contains("--backend"@),
        !(t is Other),
        test_tokens(more) == seq![t] + test_tokens(after),
    ensures
        test_parsed(before + more) matches Ok(m) ==> {
            &&& args::parsed(before + after) == Ok::<args::ArgsModel, Seq<char>>(m.prod)
            &&& t is Frames ==> !m.use_egl_gl
            &&& t is Backend ==> m.frames == 60
        },
{
    let front = before.skip(1);
    let x = test_tokens(front);
    let y = test_tokens(after);
    let z = seq![t] + y;
    lemma_all_others(front);
    lemma_all_others(after);
    assert((before + more).skip(1) =~= front + more);
    assert((before + more)[0] == before[0]);
    lemma_test_tokens_concat(front, more);
    lemma_test_concat(x, z, DEFAULT_FRAMES as nat, false);
    assert(z.skip(1) =~= y);
    assert(z[0] == t);
    assert(others(z) == others(y));
    assert(seq![before[0]] + (front + after) =~= before + after);
}

/// The help text starts with the way the program is called, by its name.
pub proof fn law_usage_names_the_program(program: Seq<char>)
    ensures
        text::starts_with_seq(usage_text(program), "Usage: "@ + program),
{
    let head = "Usage: "@ + program;
    assert(usage_text(program).take(head.len() as int) =~= head);
}

} // verus!
