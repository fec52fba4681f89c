use vstd::prelude::*;

verus! {

/// Whether `s` begins with `p`.
pub open spec fn starts_with(s: Seq<char>, p: Seq<char>) -> bool {
    p.len() <= s.len() && s.subrange(0, p.len() as int) == p
}

/// The first position of `c` in `s` at or after `j`, or -1 when there is none.
pub open spec fn find_from(s: Seq<char>, c: char, j: int) -> int
    decreases s.len() - j,
{
    if j < 0 || j >= s.len() {
        -1
    } else if s[j] == c {
        j
    } else {
        find_from(s, c, j + 1)
    }
}

/// What `str::trim` returns for a string with characters `s`.
pub uninterp spec fn trimmed(s: Seq<char>) -> Seq<char>;

/// Relies on `str::trim`: it removes leading and trailing whitespace, and its
/// result depends on the characters of its argument alone.
#[verifier::external_body]
fn trim_str(s: &str) -> (r: &str)
    ensures
        r@ == trimmed(s@),
{
    s.trim()
}

/// Character-wise equality of two strings.
fn str_eq(a: &str, b: &str) -> (r: bool)
    ensures
        r == (a@ == b@),
{
    let n = a.unicode_len();
    let m = b.unicode_len();
    if n != m {
        return false;
    }
    let mut i: usize = 0;
    while i < n
        invariant
            n == a@.len(),
            m == b@.len(),
            n == m,
            i <= n,
            a@.subrange(0, i as int) == b@.subrange(0, i as int),
        decreases n - i,
    {
        if a.get_char(i) != b.get_char(i) {
            return false;
        }
        assert(a@.subrange(0, i + 1) == a@.subrange(0, i as int).push(a@[i as int]));
        assert(b@.subrange(0, i + 1) == b@.subrange(0, i as int).push(b@[i as int]));
        i += 1;
    }
    assert(a@ == a@.subrange(0, n as int));
    assert(b@ == b@.subrange(0, n as int));
    true
}

/// The position of the first `c` in `s`, if any.
fn find_char(s: &str, c: char) -> (r: Option<usize>)
    ensures
        match r {
            Some(k) => k as int == find_from(s@, c, 0) && 0 <= k < s@.len() && s@[k as int] == c,
            None => find_from(s@, c, 0) == -1,
        },
{
    let n = s.unicode_len();
    let mut j: usize = 0;
    while j < n
        invariant
            n == s@.len(),
            j <= n,
            find_from(s@, c, 0) == find_from(s@, c, j as int),
        decreases n - j,
    {
        if s.get_char(j) == c {
            return Some(j);
        }
        j += 1;
    }
    None
}

/// Whether `key` is one of `keys`.
fn contains_str(keys: &[&str], key: &str) -> (r: bool)
    ensures
        r == strs_view(keys@).contains(key@),
{
    let mut i: usize = 0;
    while i < keys.len()
        invariant
            i <= keys@.len(),
            forall|k: int| 0 <= k < i ==> keys@[k]@ != key@,
        decreases keys.len() - i,
    {
        if str_eq(keys[i], key) {
            assert(strs_view(keys@)[i as int] == key@);
            return true;
        }
        i += 1;
    }
    assert(!strs_view(keys@).contains(key@)) by {
        if strs_view(keys@).contains(key@) {
            let k = choose|k: int| 0 <= k < strs_view(keys@).len() && strs_view(keys@)[k] == key@;
            assert(keys@[k]@ == key@);
        }
    }
    false
}

/// Whether `c` is one of `cs`.
fn contains_char(cs: &[char], c: char) -> (r: bool)
    ensures
        r == cs@.contains(c),
{
    let mut i: usize = 0;
    while i < cs.len()
        invariant
            i <= cs@.len(),
            forall|k: int| 0 <= k < i ==> cs@[k] != c,
        decreases cs.len() - i,
    {
        if cs[i] == c {
            return true;
        }
        i += 1;
    }
    false
}

/// The characters of each string of a slice.
pub open spec fn strs_view(s: Seq<&str>) -> Seq<Seq<char>> {
    s.map_values(|x: &str| x@)
}

/// The characters of each string of a sequence.
pub open spec fn strings_view(s: Seq<String>) -> Seq<Seq<char>> {
    s.map_values(|x: String| x@)
}


/// One normalized command-line argument.
#[derive(Debug, Clone, PartialEq, Eq)]
pub enum CliArg {
    Flag(String),
    Argument(String, String),
    Rest(Vec<String>),
}

/// The characters that a `CliArg` holds.
pub enum CliArgView {
    Flag(Seq<char>),
    Argument(Seq<char>, Seq<char>),
    Rest(Seq<Seq<char>>),
}

impl View for CliArg {
    type V = CliArgView;

    open spec fn view(&self) -> CliArgView {
        match self {
            CliArg::Flag(f) => CliArgView::Flag(f@),
            CliArg::Argument(k, v) => CliArgView::Argument(k@, v@),
            CliArg::Rest(r) => CliArgView::Rest(strings_view(r@)),
        }
    }
}

/// The view of each argument of a sequence.
pub open spec fn cli_args_view(s: Seq<CliArg>) -> Seq<CliArgView> {
    s.map_values(|a: CliArg| a@)
}

/// The two-character separator `--`, and the prefix of a long option.
pub open spec fn double_dash() -> Seq<char> {
    seq!['-', '-']
}

/// The short option `-c`.
pub open spec fn short_flag(c: char) -> Seq<char> {
    seq!['-', c]
}

/// The error for a long option that is not known to take an argument but was given one.
pub open spec fn invalid_option_msg(a: Seq<char>) -> Seq<char> {
    "invalid option: '"@ + a + "'"@
}

/// The error for an option that needs an argument but stands last.
pub open spec fn expects_argument_msg(a: Seq<char>) -> Seq<char> {
    "'"@ + a + "' expects an argument"@
}

/// The error for a short option written with `=`.
pub open spec fn invalid_assignment_msg() -> Seq<char> {
    "invalid option '='"@
}

/// Appends the positional arguments, if any, as one final `Rest` entry.
pub open spec fn finish_args(processed: Seq<CliArgView>, rest: Seq<Seq<char>>) -> Seq<CliArgView> {
    if rest.len() == 0 {
        processed
    } else {
        processed.push(CliArgView::Rest(rest))
    }
}

/// Splits the combined short options of `args[i]` from its position `p` on.
/// The result holds the entries so far and whether `args[i + 1]` was taken as
/// the value of the last one.
pub open spec fn short_options(
    shorts: Seq<char>,
    args: Seq<Seq<char>>,
    i: int,
    p: int,
    processed: Seq<CliArgView>,
) -> Result<(Seq<CliArgView>, bool), Seq<char>>
    decreases args[i].len() - p,
{
    let a = args[i];
    if p < 1 || p >= a.len() {
        Ok((processed, false))
    } else {
        let c = a[p];
        let flag = short_flag(c);
        if shorts.contains(c) {
            let rest = trimmed(a.subrange(p + 1, a.len() as int));
            if rest.len() > 0 && rest[0] == '=' {
                Err(invalid_assignment_msg())
            } else if rest.len() > 0 {
                Ok((processed.push(CliArgView::Argument(flag, rest)), false))
            } else if i + 1 < args.len() {
                Ok((processed.push(CliArgView::Argument(flag, args[i + 1])), true))
            } else if c == 'h' {
                Ok((processed.push(CliArgView::Flag(flag)), false))
            } else {
                Err(expects_argument_msg(flag))
            }
        } else {
            short_options(shorts, args, i, p + 1, processed.push(CliArgView::Flag(flag)))
        }
    }
}

/// Normalizes `args` from position `i` on, given the entries and positional
/// arguments gathered before it.
pub open spec fn normalize_from(
    takes: Seq<Seq<char>>,
    shorts: Seq<char>,
    args: Seq<Seq<char>>,
    i: int,
    processed: Seq<CliArgView>,
    rest: Seq<Seq<char>>,
) -> Result<Seq<CliArgView>, Seq<char>>
    decreases args.len() - i,
{
    if i < 0 || i >= args.len() {
        Ok(finish_args(processed, rest))
    } else {
        let a = args[i];
        if a == double_dash() {
            Ok(finish_args(processed, rest + args.subrange(i + 1, args.len() as int)))
        } else if starts_with(a, double_dash()) {
            let k = find_from(a, '=', 0);
            if k >= 0 {
                let key = a.subrange(0, k);
                if takes.contains(key) {
                    let value = a.subrange(k + 1, a.len() as int);
                    normalize_from(takes, shorts, args, i + 1,
                        processed.push(CliArgView::Argument(key, value)), rest)
                } else {
                    Err(invalid_option_msg(a))
                }
            } else if takes.contains(a) {
                if i + 1 < args.len() {
                    normalize_from(takes, shorts, args, i + 2,
                        processed.push(CliArgView::Argument(a, args[i + 1])), rest)
                } else {
                    Err(expects_argument_msg(a))
                }
            } else {
                normalize_from(takes, shorts, args, i + 1, processed.push(CliArgView::Flag(a)), rest)
            }
        } else if starts_with(a, seq!['-']) {
            match short_options(shorts, args, i, 1, processed) {
                Err(e) => Err(e),
                Ok((p, took_next)) => {
                    let next = if took_next && i + 1 < args.len() { i + 2 } else { i + 1 };
                    normalize_from(takes, shorts, args, next, p, rest)
                },
            }
        } else {
            normalize_from(takes, shorts, args, i + 1, processed, rest.push(a))
        }
    }
}

/// The normalized form of a command line whose first entry names the program.
pub open spec fn normalized(takes: Seq<Seq<char>>, shorts: Seq<char>, args: Seq<Seq<char>>) -> Result<
    Seq<CliArgView>,
    Seq<char>,
> {
    normalize_from(takes, shorts, args, 1, seq![], seq![])
}


/// Builds the text `pre + mid + post`.
fn join3(pre: &str, mid: &str, post: &str) -> (r: String)
    ensures
        r@ == pre@ + mid@ + post@,
{
    let mut r = pre.to_owned();
    r.append(mid);
    r.append(post);
    r
}

/// Pushes the entries for the combined short options of `args[i]`, and says
/// whether the value of the last one was taken from `args[i + 1]`.
fn push_short_options(shorts: &[char], args: &Vec<String>, i: usize, processed: &mut Vec<CliArg>) -> (r:
    Result<bool, String>)
    requires
        i < args@.len(),
    ensures
        match r {
            Ok(took) => short_options(shorts@, strings_view(args@), i as int, 1, cli_args_view(old(processed)@))
                == Ok::<(Seq<CliArgView>, bool), Seq<char>>((cli_args_view(final(processed)@), took)),
            Err(e) => short_options(shorts@, strings_view(args@), i as int, 1, cli_args_view(old(processed)@))
                == Err::<(Seq<CliArgView>, bool), Seq<char>>(e@),
        },
{
    let ghost sargs = strings_view(args@);
    let ghost start = cli_args_view(processed@);
    let a = args[i].as_str();
    let n = a.unicode_len();
    let len = args.len();
    let mut p: usize = 1;
    assert(sargs[i as int] == a@);
    while p < n
        invariant
            i < args@.len(),
            len == args@.len(),
            sargs == strings_view(args@),
            sargs[i as int] == a@,
            n == a@.len(),
            1 <= p,
            start == cli_args_view(old(processed)@),
            short_options(shorts@, sargs, i as int, 1, start) == short_options(
                shorts@,
                sargs,
                i as int,
                p as int,
                cli_args_view(processed@),
            ),
        decreases n - p,
    {
        let c = a.get_char(p);
        let mut flag = "-".to_owned();
        flag.append(a.substring_char(p, p + 1));
        proof {
            reveal_strlit("-");
            assert(flag@ =~= short_flag(c));
        }
        if contains_char(shorts, c) {
            let rest = trim_str(a.substring_char(p + 1, n));
            let m = rest.unicode_len();
            if m > 0 && rest.get_char(0) == '=' {
                let e = "invalid option '='".to_owned();
                assert(e@ == invalid_assignment_msg());
                return Err(e);
            } else if m > 0 {
                let ghost before = cli_args_view(processed@);
                processed.push(CliArg::Argument(flag, rest.to_owned()));
                assert(cli_args_view(processed@) =~= before.push(
                    CliArgView::Argument(short_flag(c), rest@),
                ));
                return Ok(false);
            } else if i + 1 < len {
                proof {
                    assert(sargs[i + 1] == args@[i + 1]@);
                }
                let ghost before = cli_args_view(processed@);
                processed.push(CliArg::Argument(flag, args[i + 1].clone()));
                assert(cli_args_view(processed@) =~= before.push(
                    CliArgView::Argument(short_flag(c), sargs[i + 1]),
                ));
                return Ok(true);
            } else if c == 'h' {
                let ghost before = cli_args_view(processed@);
                processed.push(CliArg::Flag(flag));
                assert(cli_args_view(processed@) =~= before.push(CliArgView::Flag(short_flag(c))));
                return Ok(false);
            } else {
                return Err(join3("'", flag.as_str(), "' expects an argument"));
            }
        } else {
            let ghost before = cli_args_view(processed@);
            processed.push(CliArg::Flag(flag));
            assert(cli_args_view(processed@) =~= before.push(CliArgView::Flag(short_flag(c))));
        }
        p += 1;
    }
    Ok(false)
}


/// The successful result or the error message of a normalization, as characters.
pub open spec fn normalize_result_view(r: Result<Vec<CliArg>, String>) -> Result<Seq<CliArgView>, Seq<char>> {
    match r {
        Ok(v) => Ok(cli_args_view(v@)),
        Err(e) => Err(e@),
    }
}

impl CliArg {
    /// Normalizes a command line whose first entry names the program: long
    /// options as `--key=value` or `--key value`, combined short options such
    /// as `-hv` or `-cPATH`, and everything after `--` or not starting with
    /// `-` gathered into one final `Rest` entry.
    pub fn normalize_arguments(takes_argument: &[&str], takes_argument_short: &[char], args: Vec<String>) -> (r:
        Result<Vec<CliArg>, String>)
        ensures
            normalize_result_view(r) == normalized(
                strs_view(takes_argument@),
                takes_argument_short@,
                strings_view(args@),
            ),
    {
        let ghost sargs = strings_view(args@);
        let ghost takes = strs_view(takes_argument@);
        let mut processed: Vec<CliArg> = Vec::new();
        let mut rest: Vec<String> = Vec::new();
        let len = args.len();
        let mut i: usize = 1;
        assert(cli_args_view(processed@) =~= seq![]);
        assert(strings_view(rest@) =~= seq![]);
        while i < len
            invariant
                len == args@.len(),
                sargs == strings_view(args@),
                takes == strs_view(takes_argument@),
                1 <= i,
                normalized(takes, takes_argument_short@, sargs) == normalize_from(
                    takes,
                    takes_argument_short@,
                    sargs,
                    i as int,
                    cli_args_view(processed@),
                    strings_view(rest@),
                ),
            decreases len - i,
        {
            let a = args[i].as_str();
            let n = a.unicode_len();
            assert(sargs[i as int] == a@);
            let ghost pv = cli_args_view(processed@);
            let ghost rv = strings_view(rest@);
            if n == 2 && a.get_char(0) == '-' && a.get_char(1) == '-' {
                assert(a@ =~= double_dash());
                let mut j: usize = i + 1;
                while j < len
                    invariant
                        len == args@.len(),
                        sargs == strings_view(args@),
                        i < j <= len,
                        strings_view(rest@) == rv + sargs.subrange(i + 1, j as int),
                    decreases len - j,
                {
                    assert(sargs[j as int] == args@[j as int]@);
                    let ghost before = strings_view(rest@);
                    rest.push(args[j].clone());
                    assert(strings_view(rest@) =~= before.push(sargs[j as int]));
                    assert(sargs.subrange(i + 1, j + 1) =~= sargs.subrange(i + 1, j as int).push(sargs[j as int]));
                    assert(strings_view(rest@) =~= rv + sargs.subrange(i + 1, j + 1));
                    j += 1;
                }
                return Ok(finish_rest(processed, rest));
            } else if n >= 2 && a.get_char(0) == '-' && a.get_char(1) == '-' {
                assert(starts_with(a@, double_dash())) by {
                    assert(a@.subrange(0, 2) =~= double_dash());
                }
                assert(a@ != double_dash());
                match find_char(a, '=') {
                    Some(k) => {
                        let key = a.substring_char(0, k);
                        if contains_str(takes_argument, key) {
                            let value = a.substring_char(k + 1, n);
                            processed.push(CliArg::Argument(key.to_owned(), value.to_owned()));
                            assert(cli_args_view(processed@) =~= pv.push(CliArgView::Argument(key@, value@)));
                            i += 1;
                        } else {
                            return Err(join3("invalid option: '", a, "'"));
                        }
                    },
                    None => {
                        if contains_str(takes_argument, a) {
                            if i + 1 < len {
                                assert(sargs[i + 1] == args@[i + 1]@);
                                processed.push(CliArg::Argument(a.to_owned(), args[i + 1].clone()));
                                assert(cli_args_view(processed@) =~= pv.push(
                                    CliArgView::Argument(a@, sargs[i + 1]),
                                ));
                                i += 2;
                            } else {
                                return Err(join3("'", a, "' expects an argument"));
                            }
                        } else {
                            processed.push(CliArg::Flag(a.to_owned()));
                            assert(cli_args_view(processed@) =~= pv.push(CliArgView::Flag(a@)));
                            i += 1;
                        }
                    },
                }
            } else if n >= 1 && a.get_char(0) == '-' {
                assert(!starts_with(a@, double_dash()));
                assert(a@ != double_dash());
                assert(starts_with(a@, seq!['-'])) by {
                    assert(a@.subrange(0, 1) =~= seq!['-']);
                }
                match push_short_options(takes_argument_short, &args, i, &mut processed) {
                    Err(e) => {
                        return Err(e);
                    },
                    Ok(took) => {
                        if took && i + 1 < len {
                            i += 2;
                        } else {
                            i += 1;
                        }
                    },
                }
            } else {
                assert(!starts_with(a@, double_dash()));
                assert(a@ != double_dash());
                assert(!starts_with(a@, seq!['-'])) by {
                    if starts_with(a@, seq!['-']) {
                        assert(a@.subrange(0, 1)[0] == a@[0]);
                    }
                }
                rest.push(args[i].clone());
                assert(strings_view(rest@) =~= rv.push(a@));
                i += 1;
            }
        }
        Ok(finish_rest(processed, rest))
    }
}

/// Appends `rest`, if it is not empty, as one final `Rest` entry.
fn finish_rest(processed: Vec<CliArg>, rest: Vec<String>) -> (r: Vec<CliArg>)
    ensures
        cli_args_view(r@) == finish_args(cli_args_view(processed@), strings_view(rest@)),
{
    let mut processed = processed;
    if rest.len() > 0 {
        let ghost pv = cli_args_view(processed@);
        let ghost rv = strings_view(rest@);
        processed.push(CliArg::Rest(rest));
        assert(cli_args_view(processed@) =~= pv.push(CliArgView::Rest(rv)));
    } else {
        assert(strings_view(rest@) =~= seq![]);
    }
    processed
}


/// How much the daemon reports in its logs.
#[derive(Debug, Clone, Copy, PartialEq, Eq, Structural)]
pub enum LogLevel {
    Trace,
    Debug,
    Info,
    Warn,
    Error,
}

/// The log level a name stands for, if any.
pub open spec fn log_level_named(s: Seq<char>) -> Option<LogLevel> {
    if s == "trace"@ {
        Some(LogLevel::Trace)
    } else if s == "debug"@ {
        Some(LogLevel::Debug)
    } else if s == "info"@ {
        Some(LogLevel::Info)
    } else if s == "warn"@ {
        Some(LogLevel::Warn)
    } else if s == "error"@ {
        Some(LogLevel::Error)
    } else {
        None
    }
}

impl LogLevel {
    /// The log level that `name` stands for: one of `trace`, `debug`,
    /// `info`, `warn` and `error`.
    pub fn from_name(name: &str) -> (r: Option<LogLevel>)
        ensures
            r == log_level_named(name@),
    {
        if str_eq(name, "trace") {
            Some(LogLevel::Trace)
        } else if str_eq(name, "debug") {
            Some(LogLevel::Debug)
        } else if str_eq(name, "info") {
            Some(LogLevel::Info)
        } else if str_eq(name, "warn") {
            Some(LogLevel::Warn)
        } else if str_eq(name, "error") {
            Some(LogLevel::Error)
        } else {
            None
        }
    }
}

/// What the daemon was asked to do.
#[derive(Debug, Clone, Copy, PartialEq, Eq, Structural)]
pub enum NtpDaemonAction {
    Help,
    Version,
    Run,
}

/// The options of the daemon's command line.
#[derive(Debug)]
pub struct NtpDaemonOptions {
    /// Path of the configuration file
    pub config: Option<String>,
    /// Level for messages to display in logs
    pub log_level: Option<LogLevel>,
    pub help: bool,
    pub version: bool,
    pub action: NtpDaemonAction,
}

/// The options of the command line as plain values.
pub struct OptionsView {
    pub config: Option<Seq<char>>,
    pub log_level: Option<LogLevel>,
    pub help: bool,
    pub version: bool,
    pub action: NtpDaemonAction,
}

impl View for NtpDaemonOptions {
    type V = OptionsView;

    open spec fn view(&self) -> OptionsView {
        OptionsView {
            config: match self.config {
                Some(c) => Some(c@),
                None => None,
            },
            log_level: self.log_level,
            help: self.help,
            version: self.version,
            action: self.action,
        }
    }
}

/// The options before any argument is read.
pub open spec fn initial_options() -> OptionsView {
    OptionsView { config: None, log_level: None, help: false, version: false, action: NtpDaemonAction::Help }
}

/// The error for an option the daemon does not know.
pub open spec fn unknown_option_msg(o: Seq<char>) -> Seq<char> {
    "invalid option provided: "@ + o
}

/// The options after one normalized argument is read.
pub open spec fn apply_cli_arg(a: CliArgView, o: OptionsView) -> Result<OptionsView, Seq<char>> {
    match a {
        CliArgView::Flag(f) => if f == "-h"@ || f == "--help"@ {
            Ok(OptionsView { help: true, ..o })
        } else if f == "-v"@ || f == "--version"@ {
            Ok(OptionsView { version: true, ..o })
        } else {
            Err(unknown_option_msg(f))
        },
        CliArgView::Argument(k, v) => if k == "-c"@ || k == "--config"@ {
            Ok(OptionsView { config: Some(v), ..o })
        } else if k == "-l"@ || k == "--log-level"@ {
            match log_level_named(v) {
                Some(l) => Ok(OptionsView { log_level: Some(l), ..o }),
                None => Err("invalid log level"@),
            }
        } else {
            Err(unknown_option_msg(k))
        },
        CliArgView::Rest(_) => Ok(o),
    }
}

/// The options after the normalized arguments `args` are read in order.
pub open spec fn apply_cli_args(args: Seq<CliArgView>, o: OptionsView) -> Result<OptionsView, Seq<char>>
    decreases args.len(),
{
    if args.len() == 0 {
        Ok(o)
    } else {
        match apply_cli_arg(args[0], o) {
            Err(e) => Err(e),
            Ok(o2) => apply_cli_args(args.drop_first(), o2),
        }
    }
}

/// The action that the flags ask for: help before version, and running otherwise.
pub open spec fn resolved(o: OptionsView) -> OptionsView {
    OptionsView {
        action: if o.help {
            NtpDaemonAction::Help
        } else if o.version {
            NtpDaemonAction::Version
        } else {
            NtpDaemonAction::Run
        },
        ..o
    }
}

/// The long options that take a value.
pub open spec fn daemon_long_options() -> Seq<Seq<char>> {
    seq!["--config"@, "--log-level"@]
}

/// The short options that take a value.
pub open spec fn daemon_short_options() -> Seq<char> {
    seq!['c', 'l']
}

/// The options that a command line gives, or the message why it is refused.
pub open spec fn parsed_options(args: Seq<Seq<char>>) -> Result<OptionsView, Seq<char>> {
    match normalized(daemon_long_options(), daemon_short_options(), args) {
        Err(e) => Err(e),
        Ok(v) => match apply_cli_args(v, initial_options()) {
            Err(e) => Err(e),
            Ok(o) => Ok(resolved(o)),
        },
    }
}

/// The parsed options or the error message, as plain values.
pub open spec fn options_result_view(r: Result<NtpDaemonOptions, String>) -> Result<OptionsView, Seq<char>> {
    match r {
        Ok(o) => Ok(o@),
        Err(e) => Err(e@),
    }
}

impl NtpDaemonOptions {
    /// Parses a command line whose first entry names the program.
    pub fn try_parse_from(args: Vec<String>) -> (r: Result<NtpDaemonOptions, String>)
        ensures
            options_result_view(r) == parsed_options(strings_view(args@)),
    {
        let takes: Vec<&str> = vec!["--config", "--log-level"];
        let shorts: Vec<char> = vec!['c', 'l'];
        assert(strs_view(takes@) =~= daemon_long_options());
        assert(shorts@ =~= daemon_short_options());
        let ghost sargs = strings_view(args@);
        let entries = match CliArg::normalize_arguments(takes.as_slice(), shorts.as_slice(), args) {
            Ok(v) => v,
            Err(e) => {
                return Err(e);
            },
        };
        let ghost nv = cli_args_view(entries@);
        let mut options = NtpDaemonOptions {
            config: None,
            log_level: None,
            help: false,
            version: false,
            action: NtpDaemonAction::Help,
        };
        let mut i: usize = 0;
        assert(nv.subrange(0, nv.len() as int) =~= nv);
        while i < entries.len()
            invariant
                nv == cli_args_view(entries@),
                sargs == strings_view(args@),
                normalized(daemon_long_options(), daemon_short_options(), sargs) == Ok::<
                    Seq<CliArgView>,
                    Seq<char>,
                >(nv),
                i <= entries@.len(),
                apply_cli_args(nv, initial_options()) == apply_cli_args(
                    nv.subrange(i as int, nv.len() as int),
                    options@,
                ),
            decreases entries.len() - i,
        {
            let ghost tail = nv.subrange(i as int, nv.len() as int);
            assert(tail[0] == entries@[i as int]@);
            assert(tail.drop_first() =~= nv.subrange(i + 1, nv.len() as int));
            match &entries[i] {
                CliArg::Flag(flag) => {
                    if str_eq(flag.as_str(), "-h") || str_eq(flag.as_str(), "--help") {
                        options.help = true;
                    } else if str_eq(flag.as_str(), "-v") || str_eq(flag.as_str(), "--version") {
                        options.version = true;
                    } else {
                        let mut m = "invalid option provided: ".to_owned();
                        m.append(flag.as_str());
                        return Err(m);
                    }
                },
                CliArg::Argument(option, value) => {
                    if str_eq(option.as_str(), "-c") || str_eq(option.as_str(), "--config") {
                        options.config = Some(value.clone());
                    } else if str_eq(option.as_str(), "-l") || str_eq(option.as_str(), "--log-level") {
                        match LogLevel::from_name(value.as_str()) {
                            Some(level) => {
                                options.log_level = Some(level);
                            },
                            None => {
                                return Err("invalid log level".to_owned());
                            },
                        }
                    } else {
                        let mut m = "invalid option provided: ".to_owned();
                        m.append(option.as_str());
                        return Err(m);
                    }
                },
                CliArg::Rest(_) => {},
            }
            i += 1;
        }
        options.resolve_action();
        Ok(options)
    }

    /// Sets the action from the flags: help before version, and running otherwise.
    pub fn resolve_action(&mut self)
        ensures
            final(self)@ == resolved(old(self)@),
    {
        if self.help {
            self.action = NtpDaemonAction::Help;
        } else if self.version {
            self.action = NtpDaemonAction::Version;
        } else {
            self.action = NtpDaemonAction::Run;
        }
    }
}


/// The full help text: what the daemon is, how it is called, and its options.
pub open spec fn help_text() -> Seq<char> {
    "ntp-daemon - synchronize system time"@ + "\n\n"@ + "usage: ntp-daemon [-c PATH] [-l LOG_LEVEL]
       ntp-daemon -h
       ntp-daemon -v"@ + "\n\n"@ + "Options:
  -c, --config=PATH             change the config .toml file
  -l, --log-level=LOG_LEVEL     change the log level
  -h, --help                    display this help text
  -v, --version                 display version information"@
}

/// The full help text of the daemon.
pub fn long_help_message() -> (r: String)
    ensures
        r@ == help_text(),
{
    let mut r = "ntp-daemon - synchronize system time".to_owned();
    r.append("\n\n");
    r.append("usage: ntp-daemon [-c PATH] [-l LOG_LEVEL]
       ntp-daemon -h
       ntp-daemon -v");
    r.append("\n\n");
    r.append("Options:
  -c, --config=PATH             change the config .toml file
  -l, --log-level=LOG_LEVEL     change the log level
  -h, --help                    display this help text
  -v, --version                 display version information");
    r
}

} // verus!
