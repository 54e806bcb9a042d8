//! The command line of the player.
use vstd::prelude::*;

use crate::text;

verus! {

/// What a command line asks for.
#[derive(Debug, PartialEq, Eq)]
pub struct Args {
    pub video_path: String,
    pub outputs: Vec<String>,
    pub use_vaapi: bool,
    pub use_gl: bool,
}

/// The contents of an [`Args`].
pub struct ArgsModel {
    pub video_path: Seq<char>,
    pub outputs: Seq<Seq<char>>,
    pub use_vaapi: bool,
    pub use_gl: bool,
}

impl View for Args {
    type V = ArgsModel;

    open spec fn view(&self) -> ArgsModel {
        ArgsModel {
            video_path: self.video_path@,
            outputs: self.outputs.deep_view(),
            use_vaapi: self.use_vaapi,
            use_gl: self.use_gl,
        }
    }
}

impl Args {
    /// Whether OpenGL/EGL rendering is enabled.
    pub fn use_egl_gl(&self) -> (r: bool)
        ensures
            r == self.use_gl,
    {
        self.use_gl
    }

    /// Whether hardware decoding is enabled.
    pub fn use_hwdec(&self) -> (r: bool)
        ensures
            r == self.use_vaapi,
    {
        self.use_vaapi
    }
}

/// One argument, together with the value it takes.
pub enum Token {
    Help,
    Output(Seq<char>),
    OutputWithoutValue,
    Vaapi,
    NoGl,
    Positional(Seq<char>),
}

pub open spec fn is_help(a: Seq<char>) -> bool {
    a == "--help"@ || a == "-h"@
}

pub open spec fn is_output(a: Seq<char>) -> bool {
    !is_help(a) && (a == "--output"@ || a == "-o"@)
}

/// Reads an argument that takes no value.
pub open spec fn plain_token(a: Seq<char>) -> Token {
    if is_help(a) {
        Token::Help
    } else if a == "--vaapi"@ {
        Token::Vaapi
    } else if a == "--no-gl"@ {
        Token::NoGl
    } else {
        Token::Positional(a)
    }
}

/// The arguments in order; an output option takes the argument after it as its value.
pub open spec fn tokens(args: Seq<Seq<char>>) -> Seq<Token>
    decreases args.len(),
{
    if args.len() == 0 {
        seq![]
    } else if !is_output(args[0]) {
        seq![plain_token(args[0])] + tokens(args.skip(1))
    } else if args.len() == 1 {
        seq![Token::OutputWithoutValue]
    } else {
        seq![Token::Output(args[1])] + tokens(args.skip(2))
    }
}

/// The message of the first mistake, or `help` where help comes before any mistake.
/// `seen` says that a video path came earlier.
pub open spec fn first_error(toks: Seq<Token>, seen: bool) -> Option<Seq<char>>
    decreases toks.len(),
{
    if toks.len() == 0 {
        None
    } else {
        match toks[0] {
            Token::Help => Some("help"@),
            Token::OutputWithoutValue => Some("error: --output/-o requires a value"@),
            Token::Positional(p) => if seen {
                Some("error: unexpected argument '"@ + p + "'"@)
            } else {
                first_error(toks.skip(1), true)
            },
            _ => first_error(toks.skip(1), seen),
        }
    }
}

/// The positional arguments, in order.
pub open spec fn positionals(toks: Seq<Token>) -> Seq<Seq<char>>
    decreases toks.len(),
{
    if toks.len() == 0 {
        seq![]
    } else {
        match toks[0] {
            Token::Positional(p) => seq![p] + positionals(toks.skip(1)),
            _ => positionals(toks.skip(1)),
        }
    }
}

/// The trimmed pieces that are not empty, in order.
pub open spec fn kept_names(pieces: Seq<Seq<char>>) -> Seq<Seq<char>>
    decreases pieces.len(),
{
    if pieces.len() == 0 {
        seq![]
    } else {
        let name = text::trim_of(pieces[0]);
        (if name.len() > 0 {
            seq![name]
        } else {
            seq![]
        }) + kept_names(pieces.skip(1))
    }
}

/// The output names that one value of an output option lists.
pub open spec fn names_in(value: Seq<char>) -> Seq<Seq<char>> {
    kept_names(text::split_on(value, ','))
}

/// The output names of all output options, in order.
pub open spec fn output_names(toks: Seq<Token>) -> Seq<Seq<char>>
    decreases toks.len(),
{
    if toks.len() == 0 {
        seq![]
    } else {
        match toks[0] {
            Token::Output(v) => names_in(v) + output_names(toks.skip(1)),
            _ => output_names(toks.skip(1)),
        }
    }
}

/// What a command line means, given its tokens.
pub open spec fn outcome(toks: Seq<Token>) -> Result<ArgsModel, Seq<char>> {
    match first_error(toks, false) {
        Some(e) => Err(e),
        None => if positionals(toks).len() == 0 {
            Err("error: missing video path"@)
        } else {
            Ok(
                ArgsModel {
                    video_path: positionals(toks)[0],
                    outputs: output_names(toks),
                    use_vaapi: toks.contains(Token::Vaapi),
                    use_gl: !toks.contains(Token::NoGl),
                },
            )
        },
    }
}

/// What a command line means. Its first element is the name of the program.
pub open spec fn parsed(args: Seq<Seq<char>>) -> Result<ArgsModel, Seq<char>> {
    if args.len() == 0 {
        Err("missing program name"@)
    } else {
        outcome(tokens(args.skip(1)))
    }
}

/// The contents of the outcome of a parse.
pub open spec fn outcome_view(r: Result<Args, String>) -> Result<ArgsModel, Seq<char>> {
    match r {
        Ok(a) => Ok(a@),
        Err(e) => Err(e@),
    }
}

/// Appends the names that `value` lists to `outputs`.
fn add_names(outputs: &mut Vec<String>, value: &str)
    ensures
        final(outputs).deep_view() == old(outputs).deep_view() + names_in(value@),
{
    let pieces = text::split(value, ',');
    let ghost all = pieces.deep_view();
    let ghost start = outputs.deep_view();
    let mut i: usize = 0;
    assert(all.skip(0) =~= all);
    while i < pieces.len()
        invariant
            i <= pieces.len(),
            all == pieces.deep_view(),
            outputs.deep_view() + kept_names(all.skip(i as int)) == start + kept_names(all),
        decreases pieces.len() - i,
    {
        let ghost before = outputs.deep_view();
        let ghost rest = all.skip(i as int);
        let name = text::trim(pieces[i].as_str());
        assert(rest[0] == pieces@[i as int]@);
        assert(rest.skip(1) =~= all.skip(i + 1));
        if !name.is_empty() {
            outputs.push(name.to_string());
            assert(outputs.deep_view() =~= before.push(name@));
            assert(before + (seq![name@] + kept_names(all.skip(i + 1))) =~= outputs.deep_view()
                + kept_names(all.skip(i + 1)));
        } else {
            assert(Seq::<Seq<char>>::empty() + kept_names(all.skip(i + 1)) =~= kept_names(
                all.skip(i + 1),
            ));
        }
        i += 1;
    }
    assert(outputs.deep_view() + kept_names(all.skip(i as int)) =~= outputs.deep_view());
}

/// Reads the command line `args`, whose first element is the name of the program.
pub fn parse_from(args: Vec<String>) -> (r: Result<Args, String>)
    ensures
        outcome_view(r) == parsed(args.deep_view()),
{
    let ghost all = args.deep_view();
    if args.len() == 0 {
        return Err("missing program name".to_string());
    }
    let ghost toks = tokens(all.skip(1));
    let mut video_path: Option<String> = None;
    let mut outputs: Vec<String> = Vec::new();
    let mut use_vaapi: bool = false;
    let mut use_gl: bool = true;
    let mut i: usize = 1;
    assert(outputs.deep_view() + output_names(toks) =~= output_names(toks));
    while i < args.len()
        invariant
            all == args.deep_view(),
            1 <= i <= args.len(),
            toks == tokens(all.skip(1)),
            first_error(toks, false) == first_error(tokens(all.skip(i as int)), video_path is Some),
            output_names(toks) == outputs.deep_view() + output_names(tokens(all.skip(i as int))),
            video_path is Some ==> positionals(toks).len() > 0 && positionals(toks)[0]
                == video_path->0@,
            video_path is None ==> positionals(toks) == positionals(tokens(all.skip(i as int))),
            toks.contains(Token::Vaapi) == (use_vaapi || tokens(all.skip(i as int)).contains(
                Token::Vaapi,
            )),
            toks.contains(Token::NoGl) == (!use_gl || tokens(all.skip(i as int)).contains(
                Token::NoGl,
            )),
        decreases args.len() - i,
    {
        let ghost rest = all.skip(i as int);
        let ghost now = tokens(rest);
        let ghost next = tokens(all.skip(i + 1));
        let arg = args[i].as_str();
        proof {
            assert(rest[0] == arg@);
            assert(rest.skip(1) =~= all.skip(i + 1));
            if !is_output(arg@) {
                assert(now =~= seq![plain_token(arg@)] + next);
                assert(now.skip(1) =~= next);
                lemma_contains_cons(plain_token(arg@), next);
            }
        }
        if text::same(arg, "--help") || text::same(arg, "-h") {
            return Err("help".to_string());
        } else if text::same(arg, "--output") || text::same(arg, "-o") {
            i += 1;
            if i >= args.len() {
                assert(now =~= seq![Token::OutputWithoutValue]);
                return Err("error: --output/-o requires a value".to_string());
            }
            let ghost before = outputs.deep_view();
            let ghost value = args@[i as int]@;
            let ghost after = tokens(all.skip(i + 1));
            proof {
                assert(rest.skip(2) =~= all.skip(i + 1));
                assert(rest[1] == value);
                assert(now =~= seq![Token::Output(value)] + after);
                assert(now.skip(1) =~= after);
                lemma_contains_cons(Token::Output(value), after);
            }
            add_names(&mut outputs, args[i].as_str());
            assert(before + (names_in(value) + output_names(after)) =~= outputs.deep_view()
                + output_names(after));
        } else if text::same(arg, "--vaapi") {
            use_vaapi = true;
        } else if text::same(arg, "--no-gl") {
            use_gl = false;
        } else {
            assert(plain_token(arg@) == Token::Positional(arg@));
            if video_path.is_none() {
                video_path = Some(args[i].clone());
            } else {
                let mut message: String = "error: unexpected argument '".to_string();
                message.append(arg);
                message.append("'");
                return Err(message);
            }
        }
        i += 1;
    }
    assert(tokens(all.skip(i as int)) =~= Seq::<Token>::empty());
    let video_path: String = match video_path {
        Some(p) => p,
        None => return Err("error: missing video path".to_string()),
    };
    assert(outputs.deep_view() + output_names(Seq::<Token>::empty()) =~= outputs.deep_view());
    Ok(Args { video_path, outputs, use_vaapi, use_gl })
}

/// The help text of the player, for the program name `program`.
pub open spec fn usage_text(program: Seq<char>) -> Seq<char> {
    "Usage: "@ + program + USAGE_OPTIONS@ + program + USAGE_OUTPUT@ + program
        + USAGE_SINGLE@ + program + USAGE_REPEATED@
}

pub const USAGE_OPTIONS: &'static str = " [OPTIONS] <path-to-video>

Options:
  -o, --output <name>  Output connector(s) to use (e.g. eDP-1, DP-3)
                       Can be specified multiple times or comma-separated
  --vaapi              Enable hardware-accelerated decoding (VA-API)
  --no-gl              Disable OpenGL/EGL rendering (default is false)
  -h, --help           Show this help

Example: ";

pub const USAGE_OUTPUT: &'static str = " path/to/wallpaper.mp4
         ";

pub const USAGE_SINGLE: &'static str = " -o eDP-1 path/to/wallpaper.mp4
         ";

pub const USAGE_REPEATED: &'static str = " -o eDP-1 -o DP-3 path/to/wallpaper.mp4
";

/// The help text of the player, for the program name `program`.
pub fn usage(program: &str) -> (r: String)
    ensures
        r@ == usage_text(program@),
{
    let mut r: String = "Usage: ".to_string();
    r.append(program);
    r.append(USAGE_OPTIONS);
    r.append(program);
    r.append(USAGE_OUTPUT);
    r.append(program);
    r.append(USAGE_SINGLE);
    r.append(program);
    r.append(USAGE_REPEATED);
    r
}

/// What the program does after reading its command line.
pub enum Invocation {
    /// Play as asked.
    Run(Args),
    /// Write `message` to the error stream and end with the exit status `status`.
    Exit { status: i32, message: String },
}

/// What ends the program where its command line was answered with `e`: help is no
/// mistake, anything else is shown in front of the help text.
pub open spec fn exit_of(e: Seq<char>, usage: Seq<char>) -> (int, Seq<char>) {
    if e == "help"@ {
        (0, usage)
    } else {
        (1, e + "\n"@ + usage)
    }
}

/// The exit status and the message for a command line that was answered with `e`.
pub fn exit_for(e: &str, usage: &str) -> (r: (i32, String))
    ensures
        (r.0 as int, r.1@) == exit_of(e@, usage@),
{
    if text::same(e, "help") {
        (0, usage.to_string())
    } else {
        let mut message: String = e.to_string();
        message.append("\n");
        message.append(usage);
        (1, message)
    }
}

/// Reads the command line and decides what the program does next.
pub fn parse(args: Vec<String>) -> (r: Invocation)
    requires
        args.len() > 0,
    ensures
        match parsed(args.deep_view()) {
            Ok(model) => r matches Invocation::Run(a) && a@ == model,
            Err(e) => r matches Invocation::Exit { status, message } && (status as int, message@)
                == exit_of(e, usage_text(args.deep_view()[0])),
        },
{
    let usage = self::usage(args[0].as_str());
    match parse_from(args) {
        Ok(a) => Invocation::Run(a),
        Err(e) => {
            let (status, message) = exit_for(e.as_str(), usage.as_str());
            Invocation::Exit { status, message }
        },
    }
}

proof fn lemma_contains_cons(t: Token, rest: Seq<Token>)
    ensures
        forall|x: Token| #[trigger] (seq![t] + rest).contains(x) <==> (x == t || rest.contains(x)),
{
    let all = seq![t] + rest;
    assert(all[0] == t);
    assert forall|x: Token| rest.contains(x) implies #[trigger] all.contains(x) by {
        let i = choose|i: int| 0 <= i < rest.len() && rest[i] == x;
        assert(all[i + 1] == x);
    }
    assert forall|x: Token| #[trigger] all.contains(x) implies (x == t || rest.contains(x)) by {
        let i = choose|i: int| 0 <= i < all.len() && all[i] == x;
        if i > 0 {
            assert(rest[i - 1] == x);
        }
    }
}

proof fn lemma_kept_names_concat(x: Seq<Seq<char>>, y: Seq<Seq<char>>)
    ensures
        kept_names(x + y) == kept_names(x) + kept_names(y),
    decreases x.len(),
{
    if x.len() == 0 {
        assert(x + y =~= y);
        assert(kept_names(x) + kept_names(y) =~= kept_names(y));
    } else {
        lemma_kept_names_concat(x.skip(1), y);
        assert((x + y).skip(1) =~= x.skip(1) + y);
        assert((x + y)[0] == x[0]);
        assert(kept_names(x + y) =~= kept_names(x) + kept_names(y));
    }
}

proof fn lemma_tokens_concat(p: Seq<Seq<char>>, rest: Seq<Seq<char>>)
    requires
        !tokens(p).contains(Token::OutputWithoutValue),
    ensures
        tokens(p + rest) == tokens(p) + tokens(rest),
    decreases p.len(),
{
    if p.len() == 0 {
        assert(p + rest =~= rest);
        assert(tokens(p) + tokens(rest) =~= tokens(rest));
    } else {
        assert((p + rest)[0] == p[0]);
        if !is_output(p[0]) {
            lemma_contains_cons(plain_token(p[0]), tokens(p.skip(1)));
            lemma_tokens_concat(p.skip(1), rest);
            assert((p + rest).skip(1) =~= p.skip(1) + rest);
        } else if p.len() == 1 {
            assert(tokens(p)[0] == Token::OutputWithoutValue);
        } else {
            lemma_contains_cons(Token::Output(p[1]), tokens(p.skip(2)));
            lemma_tokens_concat(p.skip(2), rest);
            assert((p + rest).skip(2) =~= p.skip(2) + rest);
            assert((p + rest)[1] == p[1]);
        }
        assert(tokens(p + rest) =~= tokens(p) + tokens(rest));
    }
}

proof fn lemma_concat(x: Seq<Token>, y: Seq<Token>, seen: bool)
    ensures
        output_names(x + y) == output_names(x) + output_names(y),
        positionals(x + y) == positionals(x) + positionals(y),
        first_error(x + y, seen) == match first_error(x, seen) {
            Some(e) => Some(e),
            None => first_error(y, seen || positionals(x).len() > 0),
        },
        forall|t: Token| #[trigger] (x + y).contains(t) <==> (x.contains(t) || y.contains(t)),
    decreases x.len(),
{
    if x.len() == 0 {
        assert(x + y =~= y);
        assert(output_names(x) + output_names(y) =~= output_names(y));
        assert(positionals(x) + positionals(y) =~= positionals(y));
    } else {
        let later = match x[0] {
            Token::Positional(_) => true,
            _ => seen,
        };
        lemma_concat(x.skip(1), y, later);
        assert((x + y).skip(1) =~= x.skip(1) + y);
        assert((x + y)[0] == x[0]);
        assert(output_names(x + y) =~= output_names(x) + output_names(y));
        assert(positionals(x + y) =~= positionals(x) + positionals(y));
        assert(x =~= seq![x[0]] + x.skip(1));
        lemma_contains_cons(x[0], x.skip(1));
        assert(x + y =~= seq![x[0]] + (x.skip(1) + y));
        lemma_contains_cons(x[0], x.skip(1) + y);
    }
}

/// The output option can be repeated or take a comma-separated list: `-o a,b`
/// means what `-o a -o b` means, for all texts `a` and `b`, wherever the option
/// stands. `before` is the part of the command line in front of it, program name
/// included, which must not itself end in an output option that lacks its value.
pub proof fn law_comma_list_is_repetition(
    before: Seq<Seq<char>>,
    a: Seq<char>,
    b: Seq<char>,
    after: Seq<Seq<char>>,
)
    requires
        before.len() > 0,
        !tokens(before.skip(1)).contains(Token::OutputWithoutValue),
    ensures
        parsed(before + seq!["-o"@, a + seq![','] + b] + after) == parsed(
            before + seq!["-o"@, a, "-o"@, b] + after,
        ),
{
    reveal_strlit("-o");
    reveal_strlit("-h");
    reveal_strlit("--help");
    let list = a + seq![','] + b;
    let front = before.skip(1);
    let one = seq!["-o"@, list] + after;
    let two = seq!["-o"@, a, "-o"@, b] + after;
    assert("-o"@[1] != "-h"@[1]);
    assert("-o"@.len() != "--help"@.len());
    assert(is_output("-o"@));
    assert((before + seq!["-o"@, list] + after).skip(1) =~= front + one);
    assert((before + seq!["-o"@, a, "-o"@, b] + after).skip(1) =~= front + two);
    lemma_tokens_concat(front, one);
    lemma_tokens_concat(front, two);
    let rest = tokens(after);
    assert(one.skip(2) =~= after);
    assert(two.skip(2) =~= seq!["-o"@, b] + after);
    assert((seq!["-o"@, b] + after).skip(2) =~= after);
    assert(tokens(one) == seq![Token::Output(list)] + rest);
    assert(tokens(seq!["-o"@, b] + after) == seq![Token::Output(b)] + rest);
    assert(tokens(two) == seq![Token::Output(a)] + (seq![Token::Output(b)] + rest));
    lemma_list_token(tokens(front), a, b, rest);
}

proof fn lemma_list_token(front: Seq<Token>, a: Seq<char>, b: Seq<char>, rest: Seq<Token>)
    ensures
        outcome(front + (seq![Token::Output(a + seq![','] + b)] + rest)) == outcome(
            front + (seq![Token::Output(a)] + (seq![Token::Output(b)] + rest)),
        ),
{
    let list = a + seq![','] + b;
    let x = seq![Token::Output(list)] + rest;
    let z = seq![Token::Output(b)] + rest;
    let y = seq![Token::Output(a)] + z;
    text::law_split_concat(a, b, ',');
    lemma_kept_names_concat(text::split_on(a, ','), text::split_on(b, ','));
    assert(x.skip(1) =~= rest);
    assert(y.skip(1) =~= z);
    assert(z.skip(1) =~= rest);
    assert(x[0] == Token::Output(list));
    assert(y[0] == Token::Output(a));
    assert(z[0] == Token::Output(b));
    assert(output_names(x) == names_in(list) + output_names(rest));
    assert(output_names(z) == names_in(b) + output_names(rest));
    assert(output_names(y) == names_in(a) + output_names(z));
    assert(output_names(x) =~= output_names(y));
    lemma_contains_cons(Token::Output(list), rest);
    lemma_contains_cons(Token::Output(b), rest);
    lemma_contains_cons(Token::Output(a), z);
    lemma_concat(front, x, false);
    lemma_concat(front, y, false);
    let seen = positionals(front).len() > 0;
    assert(first_error(x, seen) == first_error(rest, seen));
    assert(first_error(z, seen) == first_error(rest, seen));
    assert(first_error(y, seen) == first_error(z, seen));
    assert(positionals(x) == positionals(rest));
    assert(positionals(y) == positionals(z));
}

/// Neither empty nor with white space at an end.
pub open spec fn is_trimmed_name(name: Seq<char>) -> bool {
    name.len() > 0 && !text::is_white_space(name[0]) && !text::is_white_space(name.last())
}

proof fn lemma_names_are_trimmed(pieces: Seq<Seq<char>>, i: int)
    requires
        0 <= i < kept_names(pieces).len(),
    ensures
        is_trimmed_name(kept_names(pieces)[i]),
    decreases pieces.len(),
{
    let name = text::trim_of(pieces[0]);
    let rest = kept_names(pieces.skip(1));
    text::law_trim_ends(pieces[0]);
    if name.len() > 0 {
        if i > 0 {
            lemma_names_are_trimmed(pieces.skip(1), i - 1);
            assert(kept_names(pieces)[i] == rest[i - 1]);
        }
    } else {
        assert(kept_names(pieces) =~= rest);
        lemma_names_are_trimmed(pieces.skip(1), i);
    }
}

proof fn lemma_output_names_are_trimmed(toks: Seq<Token>, i: int)
    requires
        0 <= i < output_names(toks).len(),
    ensures
        is_trimmed_name(output_names(toks)[i]),
    decreases toks.len(),
{
    match toks[0] {
        Token::Output(v) => {
            let n = names_in(v).len();
            if i < n {
                lemma_names_are_trimmed(text::split_on(v, ','), i);
            } else {
                lemma_output_names_are_trimmed(toks.skip(1), i - n);
                assert(output_names(toks)[i] == output_names(toks.skip(1))[i - n]);
            }
        },
        _ => {
            lemma_output_names_are_trimmed(toks.skip(1), i);
        },
    }
}

/// No output name of an accepted command line is empty or has white space at
/// either end.
pub proof fn law_output_names_are_trimmed(args: Seq<Seq<char>>, i: int)
    requires
        parsed(args) is Ok,
        0 <= i < parsed(args)->Ok_0.outputs.len(),
    ensures
        is_trimmed_name(parsed(args)->Ok_0.outputs[i]),
{
    lemma_output_names_are_trimmed(tokens(args.skip(1)), i);
}

/// The argument is none of the options: it can be the path of a video.
pub open spec fn is_path(a: Seq<char>) -> bool {
    &&& a != "--help"@ && a != "-h"@
    &&& a != "--output"@ && a != "-o"@
    &&& a != "--vaapi"@ && a != "--no-gl"@
}

proof fn lemma_option_names()
    ensures
        is_help("--help"@),
        is_help("-h"@),
        is_output("--output"@),
        is_output("-o"@),
        !is_help("--vaapi"@),
        !is_help("--no-gl"@),
        !is_output("--help"@),
        !is_output("-h"@),
        !is_output("--vaapi"@),
        !is_output("--no-gl"@),
        "--vaapi"@ != "--no-gl"@,
{
    reveal_strlit("--help");
    reveal_strlit("-h");
    reveal_strlit("--output");
    reveal_strlit("-o");
    reveal_strlit("--vaapi");
    reveal_strlit("--no-gl");
    assert("-o"@[1] != "-h"@[1]);
    assert("-o"@.len() != "--help"@.len());
    assert("--output"@.len() != "--help"@.len());
    assert("--output"@.len() != "-h"@.len());
    assert("--vaapi"@.len() != "--help"@.len());
    assert("--vaapi"@.len() != "-h"@.len());
    assert("--vaapi"@.len() != "--output"@.len());
    assert("--vaapi"@.len() != "-o"@.len());
    assert("--no-gl"@.len() != "--help"@.len());
    assert("--no-gl"@.len() != "-h"@.len());
    assert("--no-gl"@.len() != "--output"@.len());
    assert("--no-gl"@.len() != "-o"@.len());
    assert("--vaapi"@[2] != "--no-gl"@[2]);
}

proof fn lemma_one_token(a: Seq<char>, after: Seq<Seq<char>>)
    requires
        !is_output(a),
    ensures
        tokens(seq![a] + after) == seq![plain_token(a)] + tokens(after),
{
    assert((seq![a] + after).skip(1) =~= after);
    assert((seq![a] + after)[0] == a);
}

proof fn lemma_no_dangling(toks: Seq<Token>, seen: bool)
    requires
        first_error(toks, seen) is None,
    ensures
        !toks.contains(Token::OutputWithoutValue),
    decreases toks.len(),
{
    if toks.len() > 0 {
        let later = match toks[0] {
            Token::Positional(_) => true,
            _ => seen,
        };
        lemma_no_dangling(toks.skip(1), later);
        assert(toks =~= seq![toks[0]] + toks.skip(1));
        lemma_contains_cons(toks[0], toks.skip(1));
    }
}

/// A command line of a program and a path plays that video on all outputs, in software and
/// with OpenGL. Without a path there is nothing to play.
pub proof fn law_path_alone_is_played(program: Seq<char>, path: Seq<char>)
    requires
        is_path(path),
    ensures
        parsed(seq![program, path]) == Ok::<ArgsModel, Seq<char>>(
            ArgsModel { video_path: path, outputs: seq![], use_vaapi: false, use_gl: true },
        ),
        parsed(seq![program]) == Err::<ArgsModel, Seq<char>>("error: missing video path"@),
        parsed(seq![]) == Err::<ArgsModel, Seq<char>>("missing program name"@),
{
    let none = Seq::<Seq<char>>::empty();
    assert(seq![program, path].skip(1) =~= seq![path] + none);
    lemma_one_token(path, none);
    assert(plain_token(path) == Token::Positional(path));
    let toks = seq![Token::Positional(path)];
    assert(tokens(seq![path] + none) =~= toks);
    assert(toks.skip(1) =~= seq![]);
    assert(positionals(toks) =~= seq![path]);
    assert(output_names(toks) =~= seq![]);
    assert(first_error(toks.skip(1), true) is None);
    assert(seq![program].skip(1) =~= none);
    assert(tokens(none) =~= seq![]);
    let m = parsed(seq![program, path])->Ok_0;
    assert(m.outputs =~= seq![]);
}

/// An option without a value changes what it is for and nothing else, wherever it stands but
/// behind an output option that lacks its value: `--vaapi` turns hardware decoding on, and
/// `--no-gl` turns OpenGL off. A mistake elsewhere stays the same mistake.
#[verifier::rlimit(40)]
pub proof fn law_switches_change_one_thing(before: Seq<Seq<char>>, after: Seq<Seq<char>>)
    requires
        before.len() > 0,
        !tokens(before.skip(1)).contains(Token::OutputWithoutValue),
    ensures
        parsed(before + seq!["--vaapi"@] + after) == match parsed(before + after) {
            Ok(m) => Ok(ArgsModel { use_vaapi: true, ..m }),
            Err(e) => Err(e),
        },
        parsed(before + seq!["--no-gl"@] + after) == match parsed(before + after) {
            Ok(m) => Ok(ArgsModel { use_gl: false, ..m }),
            Err(e) => Err(e),
        },
{
    lemma_option_names();
    lemma_switch_among(before, "--vaapi"@, after);
    lemma_switch_among(before, "--no-gl"@, after);
}

proof fn lemma_switch_among(before: Seq<Seq<char>>, a: Seq<char>, after: Seq<Seq<char>>)
    requires
        before.len() > 0,
        !tokens(before.skip(1)).contains(Token::OutputWithoutValue),
        !is_output(a),
        plain_token(a) == Token::Vaapi || plain_token(a) == Token::NoGl,
    ensures
        parsed(before + seq![a] + after) == match parsed(before + after) {
            Ok(m) => Ok(
                ArgsModel {
                    use_vaapi: m.use_vaapi || plain_token(a) == Token::Vaapi,
                    use_gl: m.use_gl && plain_token(a) != Token::NoGl,
                    ..m
                },
            ),
            Err(e) => Err(e),
        },
{
    let front = before.skip(1);
    let x = tokens(front);
    let y = tokens(after);
    assert((before + after).skip(1) =~= front + after);
    lemma_tokens_concat(front, after);
    assert((before + seq![a] + after).skip(1) =~= front + (seq![a] + after));
    lemma_one_token(a, after);
    lemma_tokens_concat(front, seq![a] + after);
    lemma_switch(x, plain_token(a), y);
}

proof fn lemma_switch(x: Seq<Token>, t: Token, y: Seq<Token>)
    requires
        t == Token::Vaapi || t == Token::NoGl,
    ensures
        ({
            let with = x + (seq![t] + y);
            let without = x + y;
            &&& first_error(with, false) == first_error(without, false)
            &&& positionals(with) == positionals(without)
            &&& output_names(with) == output_names(without)
            &&& forall|u: Token|
                #![trigger with.contains(u)]
                with.contains(u) <==> (u == t || without.contains(u))
        }),
{
    let z = seq![t] + y;
    assert(z.skip(1) =~= y);
    assert(z[0] == t);
    lemma_concat(x, z, false);
    lemma_concat(x, y, false);
    lemma_contains_cons(t, y);
}

/// An output option adds the names that its value lists to those of the other options, in the
/// order of the command line, and changes nothing else; the long form of the option means the
/// same as the short one.
#[verifier::rlimit(40)]
pub proof fn law_output_option_adds_its_names(
    before: Seq<Seq<char>>,
    value: Seq<char>,
    after: Seq<Seq<char>>,
)
    requires
        before.len() > 0,
        !tokens(before.skip(1)).contains(Token::OutputWithoutValue),
    ensures
        parsed(before + seq!["--output"@, value] + after) == parsed(
            before + seq!["-o"@, value] + after,
        ),
        parsed(before + after) matches Err(e) ==> parsed(before + seq!["-o"@, value] + after)
            == Err::<ArgsModel, Seq<char>>(e),
        parsed(before + after) matches Ok(m) ==> (parsed(before + seq!["-o"@, value] + after)
            matches Ok(n) && {
            &&& n.video_path == m.video_path
            &&& n.use_vaapi == m.use_vaapi
            &&& n.use_gl == m.use_gl
            &&& exists|k: int|
                0 <= k <= m.outputs.len() && n.outputs == #[trigger] m.outputs.take(k) + names_in(
                    value,
                ) + m.outputs.skip(k)
        }),
        parsed(before) is Ok && after.len() == 0 ==> parsed(before + seq!["-o"@, value])->Ok_0.outputs
            == parsed(before)->Ok_0.outputs + names_in(value),
{
    lemma_option_names();
    let front = before.skip(1);
    let x = tokens(front);
    let y = tokens(after);
    let t = Token::Output(value);
    let z = seq![t] + y;
    let short = seq!["-o"@, value] + after;
    let long = seq!["--output"@, value] + after;
    assert((before + after).skip(1) =~= front + after);
    lemma_tokens_concat(front, after);
    assert((before + seq!["-o"@, value] + after).skip(1) =~= front + short);
    assert((before + seq!["--output"@, value] + after).skip(1) =~= front + long);
    lemma_tokens_concat(front, short);
    lemma_tokens_concat(front, long);
    assert(short.skip(2) =~= after);
    assert(long.skip(2) =~= after);
    assert(short[0] == "-o"@ && short[1] == value);
    assert(long[0] == "--output"@ && long[1] == value);
    assert(tokens(short) == z);
    assert(tokens(long) == z);
    assert(z.skip(1) =~= y);
    assert(z[0] == t);
    lemma_output_inserted(x, value, y);
    let k = output_names(x).len() as int;
    let outs = output_names(x) + output_names(y);
    if parsed(before + after) is Ok {
        let m = parsed(before + after)->Ok_0;
        let n = parsed(before + seq!["-o"@, value] + after)->Ok_0;
        assert(m.outputs == outs);
        assert(n.outputs == m.outputs.take(k) + names_in(value) + m.outputs.skip(k));
    }
    if after.len() == 0 {
        assert(before + after =~= before);
        assert(before + seq!["-o"@, value] + after =~= before + seq!["-o"@, value]);
        assert(y =~= seq![]);
        assert(output_names(y) =~= seq![]);
        assert(outs.take(k) + names_in(value) + outs.skip(k) =~= outs + names_in(value));
    }
}

proof fn lemma_output_inserted(x: Seq<Token>, value: Seq<char>, y: Seq<Token>)
    ensures
        ({
            let with = x + (seq![Token::Output(value)] + y);
            let without = x + y;
            let outs = output_names(x) + output_names(y);
            let k = output_names(x).len() as int;
            &&& first_error(with, false) == first_error(without, false)
            &&& positionals(with) == positionals(without)
            &&& output_names(without) == outs
            &&& output_names(with) == outs.take(k) + names_in(value) + outs.skip(k)
            &&& with.contains(Token::Vaapi) <==> without.contains(Token::Vaapi)
            &&& with.contains(Token::NoGl) <==> without.contains(Token::NoGl)
        }),
{
    let t = Token::Output(value);
    let z = seq![t] + y;
    assert(z.skip(1) =~= y);
    assert(z[0] == t);
    lemma_concat(x, z, false);
    lemma_concat(x, y, false);
    lemma_contains_cons(t, y);
    assert(output_names(z) == names_in(value) + output_names(y));
    let k = output_names(x).len() as int;
    let outs = output_names(x) + output_names(y);
    assert(outs.take(k) =~= output_names(x));
    assert(outs.skip(k) =~= output_names(y));
    assert(output_names(x + z) =~= outs.take(k) + names_in(value) + outs.skip(k));
}

/// A value without commas is the name of one output, without the white space around it; one
/// of nothing but white space names none.
pub proof fn law_single_name(value: Seq<char>)
    requires
        !value.contains(','),
    ensures
        text::trim_of(value).len() > 0 ==> names_in(value) == seq![text::trim_of(value)],
        text::trim_of(value).len() == 0 ==> names_in(value) == Seq::<Seq<char>>::empty(),
{
    text::lemma_absent_index(value, ',');
    let pieces = text::split_on(value, ',');
    assert(pieces == seq![value]);
    assert(pieces.skip(1) =~= seq![]);
    assert(kept_names(pieces.skip(1)) =~= seq![]);
    assert(names_in(value) =~= (if text::trim_of(value).len() > 0 {
        seq![text::trim_of(value)]
    } else {
        seq![]
    }));
}

/// After a command line that is in order so far, help is given for both of its forms, a second
/// path is refused by name, and an output option must have a value, whatever follows.
#[verifier::rlimit(40)]
pub proof fn law_first_mistake_is_told(
    before: Seq<Seq<char>>,
    path: Seq<char>,
    after: Seq<Seq<char>>,
)
    requires
        before.len() > 0,
        before.len() == 1 || parsed(before) is Ok,
        is_path(path),
    ensures
        parsed(before + seq!["--help"@] + after) == Err::<ArgsModel, Seq<char>>("help"@),
        parsed(before + seq!["-h"@] + after) == Err::<ArgsModel, Seq<char>>("help"@),
        parsed(before + seq!["-o"@]) == Err::<ArgsModel, Seq<char>>(
            "error: --output/-o requires a value"@,
        ),
        parsed(before + seq!["--output"@]) == Err::<ArgsModel, Seq<char>>(
            "error: --output/-o requires a value"@,
        ),
        parsed(before) is Ok ==> parsed(before + seq![path] + after) == Err::<ArgsModel, Seq<char>>(
            "error: unexpected argument '"@ + path + "'"@,
        ),
{
    lemma_option_names();
    lemma_one_token("--help"@, after);
    lemma_one_token("-h"@, after);
    lemma_one_token(path, after);
    assert(before + seq!["--help"@] + after =~= before + (seq!["--help"@] + after));
    assert(before + seq!["-h"@] + after =~= before + (seq!["-h"@] + after));
    assert(before + seq![path] + after =~= before + (seq![path] + after));
    lemma_mistake_follows(before, seq!["--help"@] + after);
    lemma_mistake_follows(before, seq!["-h"@] + after);
    lemma_mistake_follows(before, seq![path] + after);
    assert(tokens(seq!["-o"@])[0] == Token::OutputWithoutValue);
    assert(tokens(seq!["--output"@])[0] == Token::OutputWithoutValue);
    lemma_mistake_follows(before, seq!["-o"@]);
    lemma_mistake_follows(before, seq!["--output"@]);
}

/// What follows a command line that is in order tells the mistake.
proof fn lemma_mistake_follows(before: Seq<Seq<char>>, more: Seq<Seq<char>>)
    requires
        before.len() > 0,
        before.len() == 1 || parsed(before) is Ok,
        more.len() > 0,
        tokens(more).len() > 0,
    ensures
        tokens(more)[0] == Token::Help ==> parsed(before + more) == Err::<ArgsModel, Seq<char>>(
            "help"@,
        ),
        tokens(more)[0] == Token::OutputWithoutValue ==> parsed(before + more) == Err::<
            ArgsModel,
            Seq<char>,
        >("error: --output/-o requires a value"@),
        parsed(before) is Ok ==> (tokens(more)[0] matches Token::Positional(p) ==> parsed(
            before + more,
        ) == Err::<ArgsModel, Seq<char>>("error: unexpected argument '"@ + p + "'"@)),
{
    let front = before.skip(1);
    let x = tokens(front);
    if before.len() == 1 {
        assert(front =~= seq![]);
        assert(x =~= seq![]);
    }
    assert(first_error(x, false) is None);
    lemma_no_dangling(x, false);
    assert((before + more).skip(1) =~= front + more);
    lemma_tokens_concat(front, more);
    lemma_concat(x, tokens(more), false);
}

/// Help ends the program well and shows only the help text; a mistake is shown in front of it
/// and ends the program with an error.
pub proof fn law_help_is_no_mistake(e: Seq<char>, usage: Seq<char>)
    ensures
        exit_of("help"@, usage) == (0int, usage),
        e != "help"@ ==> exit_of(e, usage).0 != 0 && exit_of(e, usage).1 == e + seq!['\n'] + usage,
{
    reveal_strlit("\n");
    assert("\n"@ =~= seq!['\n']);
}

/// The help text starts with the way the program is called, by its name.
pub proof fn law_usage_names_the_program(program: Seq<char>)
    ensures
        text::starts_with_seq(usage_text(program), "Usage: "@ + program),
{
    let head = "Usage: "@ + program;
    assert(usage_text(program).take(head.len() as int) =~= head);
}

} // verus!
