//! The command line and the machine loop around it: flags, request frames
//! and the lines of diagnostics.

use crate::contracts::REQUEST_MAX_BYTES;
use crate::helper::{self, join_path};
use crate::owner::{self, OwnerError};
use crate::text::{self, decimal_text, owned, same, text2, text3, text_from_bytes};
use vstd::prelude::*;

verus! {

pub const USAGE: &'static str =
    "rivect [--tui fullscreen] [--no-mouse] [--headless] [--data-root PATH]";

/// Why the program ends with a diagnostic.
#[derive(Debug)]
pub enum CliError<T = String> {
    UnsupportedRenderMode { mode: T },
    MissingDataRoot,
    UnknownFlag { flag: T },
    Owner(OwnerError<T>),
    Tui(T),
    Stdin(T),
    Stdout(T),
    RequestTooLarge { limit: usize },
}

impl View for CliError {
    type V = CliError<Seq<char>>;

    open spec fn view(&self) -> CliError<Seq<char>> {
        match self {
            CliError::UnsupportedRenderMode { mode } => CliError::UnsupportedRenderMode {
                mode: mode@,
            },
            CliError::MissingDataRoot => CliError::MissingDataRoot,
            CliError::UnknownFlag { flag } => CliError::UnknownFlag { flag: flag@ },
            CliError::Owner(e) => CliError::Owner(e@),
            CliError::Tui(e) => CliError::Tui(e@),
            CliError::Stdin(e) => CliError::Stdin(e@),
            CliError::Stdout(e) => CliError::Stdout(e@),
            CliError::RequestTooLarge { limit } => CliError::RequestTooLarge { limit: *limit },
        }
    }
}

pub open spec fn cli_message(e: CliError<Seq<char>>) -> Seq<char> {
    match e {
        CliError::UnsupportedRenderMode { mode } => "unsupported render mode in this build: "@
            + mode,
        CliError::MissingDataRoot => "missing value for --data-root"@,
        CliError::UnknownFlag { flag } => "unknown flag "@ + flag,
        CliError::Owner(e) => "runtime open failed: "@ + owner::owner_message(e),
        CliError::Tui(e) => "tui failed: "@ + e,
        CliError::Stdin(e) => "stdin failed: "@ + e,
        CliError::Stdout(e) => "stdout failed: "@ + e,
        CliError::RequestTooLarge { limit } => "stdin request exceeds "@ + text::decimal(
            limit as nat,
        ) + " bytes"@,
    }
}

/// What is written to the error stream: a wrong flag is followed by the
/// usage.
pub open spec fn cli_diagnostic(e: CliError<Seq<char>>) -> Seq<char> {
    if e is MissingDataRoot || e is UnknownFlag {
        cli_message(e) + "\n"@ + USAGE@
    } else {
        cli_message(e)
    }
}

impl CliError {
    /// Executable [`cli_message`].
    pub fn message(&self) -> (r: String)
        ensures
            r@ == cli_message(self@),
    {
        match self {
            CliError::UnsupportedRenderMode { mode } => text2(
                "unsupported render mode in this build: ",
                mode.as_str(),
            ),
            CliError::MissingDataRoot => owned("missing value for --data-root"),
            CliError::UnknownFlag { flag } => text2("unknown flag ", flag.as_str()),
            CliError::Owner(e) => {
                let inner: String = e.message();
                text2("runtime open failed: ", inner.as_str())
            },
            CliError::Tui(e) => text2("tui failed: ", e.as_str()),
            CliError::Stdin(e) => text2("stdin failed: ", e.as_str()),
            CliError::Stdout(e) => text2("stdout failed: ", e.as_str()),
            CliError::RequestTooLarge { limit } => {
                let n: String = decimal_text(*limit as u64);
                text3("stdin request exceeds ", n.as_str(), " bytes")
            },
        }
    }

    /// Executable [`cli_diagnostic`].
    pub fn diagnostic(&self) -> (r: String)
        ensures
            r@ == cli_diagnostic(self@),
    {
        let line: String = self.message();
        match self {
            CliError::MissingDataRoot | CliError::UnknownFlag { .. } => text3(
                line.as_str(),
                "\n",
                USAGE,
            ),
            _ => line,
        }
    }

    /// The exit code of the process: 2 for a wrong command line, 1 for
    /// everything else.
    pub fn exit_code(&self) -> (r: i32)
        ensures
            r == (if self@ is UnsupportedRenderMode || self@ is MissingDataRoot
                || self@ is UnknownFlag {
                2i32
            } else {
                1i32
            }),
    {
        match self {
            CliError::UnsupportedRenderMode { .. } => 2,
            CliError::MissingDataRoot => 2,
            CliError::UnknownFlag { .. } => 2,
            _ => 1,
        }
    }
}

/// What the command line asks for.
#[derive(Debug)]
pub struct CliOptions<T = String> {
    pub headless: bool,
    pub data_root: T,
}

impl View for CliOptions {
    type V = CliOptions<Seq<char>>;

    open spec fn view(&self) -> CliOptions<Seq<char>> {
        CliOptions { headless: self.headless, data_root: self.data_root@ }
    }
}

/// The options that some arguments add to those seen so far: the first wrong
/// one ends the reading, and the last data root counts.
pub open spec fn options_of(args: Seq<Seq<char>>, seen: CliOptions<Seq<char>>) -> Result<
    CliOptions<Seq<char>>,
    CliError<Seq<char>>,
>
    decreases args.len(),
{
    if args.len() == 0 {
        Ok(seen)
    } else if args[0] == "--tui"@ {
        if args.len() < 2 {
            Err(CliError::UnsupportedRenderMode { mode: Seq::empty() })
        } else if args[1] != "fullscreen"@ {
            Err(CliError::UnsupportedRenderMode { mode: args[1] })
        } else {
            options_of(args.skip(2), seen)
        }
    } else if args[0] == "--no-mouse"@ {
        options_of(args.skip(1), seen)
    } else if args[0] == "--headless"@ {
        options_of(args.skip(1), CliOptions { headless: true, ..seen })
    } else if args[0] == "--data-root"@ {
        if args.len() < 2 {
            Err(CliError::MissingDataRoot)
        } else {
            options_of(args.skip(2), CliOptions { data_root: args[1], ..seen })
        }
    } else {
        Err(CliError::UnknownFlag { flag: args[0] })
    }
}

/// Executable [`options_of`], from the default data root on.
pub fn parse_args(args: &Vec<String>, default_root: String) -> (r: Result<CliOptions, CliError>)
    ensures
        match options_of(
            text::texts(args@),
            CliOptions { headless: false, data_root: default_root@ },
        ) {
            Ok(o) => r matches Ok(x) && x@ == o,
            Err(e) => r matches Err(x) && x@ == e,
        },
{
    let ghost all = text::texts(args@);
    let mut seen: CliOptions = CliOptions { headless: false, data_root: default_root };
    let ghost start = seen@;
    let mut i: usize = 0;
    assert(all.skip(0) =~= all);
    while i < args.len()
        invariant
            i <= args.len(),
            all == text::texts(args@),
            options_of(all, start) == options_of(all.skip(i as int), seen@),
            start == (CliOptions { headless: false, data_root: default_root@ }),
        decreases args.len() - i,
    {
        let ghost rest = all.skip(i as int);
        assert(rest[0] == args@[i as int]@);
        assert(rest.skip(1) =~= all.skip(i as int + 1));
        assert(i + 1 < args.len() ==> rest[1] == args@[i as int + 1]@);
        assert(i + 1 < args.len() ==> rest.skip(2) =~= all.skip(i as int + 2));
        let arg: &str = args[i].as_str();
        if same(arg, "--tui") {
            if args.len() - i < 2 {
                return Err(CliError::UnsupportedRenderMode { mode: String::new() });
            }
            if !same(args[i + 1].as_str(), "fullscreen") {
                return Err(CliError::UnsupportedRenderMode { mode: args[i + 1].clone() });
            }
            i = i + 2;
        } else if same(arg, "--no-mouse") {
            i = i + 1;
        } else if same(arg, "--headless") {
            seen.headless = true;
            i = i + 1;
        } else if same(arg, "--data-root") {
            if args.len() - i < 2 {
                return Err(CliError::MissingDataRoot);
            }
            seen.data_root = args[i + 1].clone();
            i = i + 2;
        } else {
            return Err(CliError::UnknownFlag { flag: args[i].clone() });
        }
    }
    Ok(seen)
}

/// The data root where no flag names one: the variable, else a directory
/// below the home directory, else below the working directory.
pub fn default_data_root(variable: Option<String>, home: Option<String>) -> (r: String)
    ensures
        r@ == (match variable {
            Some(root) => root@,
            None => helper::joined(
                match home {
                    Some(h) => h@,
                    None => "."@,
                },
                ".rivect"@,
            ),
        }),
{
    match variable {
        Some(root) => root,
        None => match home {
            Some(h) => join_path(h.as_str(), ".rivect"),
            None => join_path(".", ".rivect"),
        },
    }
}

/// A text without one certain last byte.
pub open spec fn without_last(line: Seq<u8>, last: u8) -> Seq<u8> {
    if line.len() > 0 && line.last() == last {
        line.drop_last()
    } else {
        line
    }
}

/// The frame of a line: without one line feed, and without one carriage
/// return in front of it.
pub open spec fn frame_of(line: Seq<u8>) -> Seq<u8> {
    without_last(without_last(line, 10), 13)
}

/// What a line of the input is.
#[derive(Debug)]
pub enum Frame<T = String> {
    /// The input ended.
    End,
    /// An empty frame: nothing to answer.
    Skip,
    Request(T),
    TooLarge,
    NotText,
}

pub open spec fn frame_view(f: Frame) -> Frame<Seq<char>> {
    match f {
        Frame::End => Frame::End,
        Frame::Skip => Frame::Skip,
        Frame::Request(t) => Frame::Request(t@),
        Frame::TooLarge => Frame::TooLarge,
        Frame::NotText => Frame::NotText,
    }
}

/// What a line is, as it was read: with its line end, where it has one.
pub open spec fn framed(line: Seq<u8>) -> Frame<Seq<char>> {
    let frame = frame_of(line);
    if line.len() == 0 {
        Frame::End
    } else if frame.len() > REQUEST_MAX_BYTES {
        Frame::TooLarge
    } else if !vstd::utf8::valid_utf8(frame) {
        Frame::NotText
    } else if frame.len() == 0 {
        Frame::Skip
    } else {
        Frame::Request(vstd::utf8::decode_utf8(frame))
    }
}

fn drop_trailing(line: &mut Vec<u8>, last: u8)
    ensures
        final(line)@ == without_last(old(line)@, last),
{
    let n: usize = line.len();
    if n > 0 && line[n - 1] == last {
        line.pop();
    }
}

/// Executable [`framed`].
pub fn frame_request(line: Vec<u8>) -> (r: Frame)
    ensures
        frame_view(r) == framed(line@),
{
    if line.len() == 0 {
        return Frame::End;
    }
    let mut frame: Vec<u8> = line;
    drop_trailing(&mut frame, 10);
    drop_trailing(&mut frame, 13);
    if frame.len() > REQUEST_MAX_BYTES {
        return Frame::TooLarge;
    }
    let empty: bool = frame.len() == 0;
    match text_from_bytes(frame) {
        None => Frame::NotText,
        Some(text) => if empty {
            Frame::Skip
        } else {
            Frame::Request(text)
        },
    }
}

/// The line end does not matter: a frame that ends in neither a line feed nor
/// a carriage return reads the same bare, behind a line feed, and behind a
/// carriage return with a line feed.
pub proof fn law_line_end_is_not_content(frame: Seq<u8>)
    requires
        frame.len() > 0,
        frame.last() != 10,
        frame.last() != 13,
    ensures
        framed(frame + seq![10u8]) == framed(frame),
        framed(frame + seq![13u8, 10u8]) == framed(frame),
{
    assert((frame + seq![10u8]).drop_last() =~= frame);
    assert((frame + seq![13u8, 10u8]).drop_last() =~= frame + seq![13u8]);
    assert((frame + seq![13u8]).drop_last() =~= frame);
}

/// Reading goes on behind arguments that read: what follows adds to the
/// options they gave.
proof fn lemma_options_join(
    args: Seq<Seq<char>>,
    more: Seq<Seq<char>>,
    seen: CliOptions<Seq<char>>,
)
    requires
        options_of(args, seen) is Ok,
    ensures
        options_of(args + more, seen) == options_of(more, options_of(args, seen)->Ok_0),
    decreases args.len(),
{
    let all = args + more;
    if args.len() == 0 {
        assert(all =~= more);
    } else {
        assert(all[0] == args[0]);
        assert(args.len() > 1 ==> all[1] == args[1]);
        assert(all.skip(1) =~= args.skip(1) + more);
        if args[0] == "--tui"@ {
            assert(all.skip(2) =~= args.skip(2) + more);
            lemma_options_join(args.skip(2), more, seen);
        } else if args[0] == "--no-mouse"@ {
            lemma_options_join(args.skip(1), more, seen);
        } else if args[0] == "--headless"@ {
            lemma_options_join(args.skip(1), more, CliOptions { headless: true, ..seen });
        } else {
            assert(all.skip(2) =~= args.skip(2) + more);
            lemma_options_join(args.skip(2), more, CliOptions { data_root: args[1], ..seen });
        }
    }
}

proof fn lemma_flags_differ()
    ensures
        "--tui"@ != "--no-mouse"@,
        "--tui"@ != "--headless"@,
        "--tui"@ != "--data-root"@,
        "--no-mouse"@ != "--headless"@,
        "--no-mouse"@ != "--data-root"@,
        "--headless"@ != "--data-root"@,
{
    reveal_strlit("--tui");
    reveal_strlit("--no-mouse");
    reveal_strlit("--headless");
    reveal_strlit("--data-root");
    assert("--tui"@.len() == 5 && "--no-mouse"@.len() == 10 && "--headless"@.len() == 10
        && "--data-root"@.len() == 11);
    assert("--no-mouse"@[2] == 'n' && "--headless"@[2] == 'h');
}

/// No argument changes nothing. Behind arguments that read, one more flag
/// does its own thing and nothing else: the last data root counts, a headless
/// flag stays, the mouse and the only render mode leave the options alone.
pub proof fn law_flags_add_up(
    args: Seq<Seq<char>>,
    seen: CliOptions<Seq<char>>,
    root: Seq<char>,
)
    requires
        options_of(args, seen) is Ok,
    ensures
        options_of(Seq::empty(), seen) == Ok::<CliOptions<Seq<char>>, CliError<Seq<char>>>(seen),
        ({
            let o = options_of(args, seen)->Ok_0;
            &&& options_of(args + seq!["--data-root"@, root], seen) matches Ok(x)
                && x.data_root == root && x.headless == o.headless
            &&& options_of(args + seq!["--headless"@], seen) matches Ok(x) && x.headless
                && x.data_root == o.data_root
            &&& options_of(args + seq!["--no-mouse"@], seen) == options_of(args, seen)
            &&& options_of(args + seq!["--tui"@, "fullscreen"@], seen) == options_of(args, seen)
        }),
{
    lemma_flags_differ();
    reveal_with_fuel(options_of, 2);
    let root_flag = seq!["--data-root"@, root];
    let head = seq!["--headless"@];
    let mouse = seq!["--no-mouse"@];
    let tui = seq!["--tui"@, "fullscreen"@];
    lemma_options_join(args, root_flag, seen);
    lemma_options_join(args, head, seen);
    lemma_options_join(args, mouse, seen);
    lemma_options_join(args, tui, seen);
    assert(root_flag.skip(2) =~= Seq::<Seq<char>>::empty());
    assert(head.skip(1) =~= Seq::<Seq<char>>::empty());
    assert(mouse.skip(1) =~= Seq::<Seq<char>>::empty());
    assert(tui.skip(2) =~= Seq::<Seq<char>>::empty());
}

/// Behind arguments that read, a flag nobody knows, another render mode, and a
/// flag without its value end the reading with an error of their own, whatever
/// follows them.
pub proof fn law_wrong_flags_are_named(
    args: Seq<Seq<char>>,
    seen: CliOptions<Seq<char>>,
    flag: Seq<char>,
    mode: Seq<char>,
    more: Seq<Seq<char>>,
)
    requires
        options_of(args, seen) is Ok,
        flag != "--tui"@ && flag != "--no-mouse"@ && flag != "--headless"@ && flag
            != "--data-root"@,
        mode != "fullscreen"@,
    ensures
        options_of(args + (seq![flag] + more), seen) == Err::<
            CliOptions<Seq<char>>,
            CliError<Seq<char>>,
        >(CliError::UnknownFlag { flag }),
        options_of(args + (seq!["--tui"@, mode] + more), seen) == Err::<
            CliOptions<Seq<char>>,
            CliError<Seq<char>>,
        >(CliError::UnsupportedRenderMode { mode }),
        options_of(args + seq!["--tui"@], seen) == Err::<
            CliOptions<Seq<char>>,
            CliError<Seq<char>>,
        >(CliError::UnsupportedRenderMode { mode: Seq::empty() }),
        options_of(args + seq!["--data-root"@], seen) == Err::<
            CliOptions<Seq<char>>,
            CliError<Seq<char>>,
        >(CliError::MissingDataRoot),
{
    lemma_flags_differ();
    lemma_options_join(args, seq![flag] + more, seen);
    lemma_options_join(args, seq!["--tui"@, mode] + more, seen);
    lemma_options_join(args, seq!["--tui"@], seen);
    lemma_options_join(args, seq!["--data-root"@], seen);
    assert((seq![flag] + more)[0] == flag);
    assert((seq!["--tui"@, mode] + more)[0] == "--tui"@);
    assert((seq!["--tui"@, mode] + more)[1] == mode);
}

/// A line of text is the request it spells, up to the limit; a longer one is
/// refused for its length alone, and nothing but the end of the input ends the
/// loop.
pub proof fn law_line_is_its_text(t: Seq<char>, bytes: Seq<u8>)
    requires
        bytes.len() > 0,
        bytes.last() != 10,
        bytes.last() != 13,
    ensures
        bytes.len() > REQUEST_MAX_BYTES ==> framed(bytes) is TooLarge,
        bytes.len() <= REQUEST_MAX_BYTES && bytes == vstd::utf8::encode_utf8(t) ==> (framed(bytes)
            matches Frame::Request(x) && x == t),
        bytes.len() <= REQUEST_MAX_BYTES && !vstd::utf8::valid_utf8(bytes) ==> framed(
            bytes,
        ) is NotText,
        framed(seq![10u8]) is Skip,
        framed(seq![13u8, 10u8]) is Skip,
        framed(Seq::empty()) is End,
{
    broadcast use vstd::utf8::group_utf8_lib;

    assert(seq![10u8].drop_last() =~= Seq::<u8>::empty());
    assert(seq![13u8, 10u8].drop_last() =~= seq![13u8]);
    assert(seq![13u8].drop_last() =~= Seq::<u8>::empty());
    assert(vstd::utf8::valid_utf8(Seq::<u8>::empty()));
}

} // verus!
