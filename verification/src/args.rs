//! The command line.

use crate::app::ScanOptions;
use crate::paths::OsPath;
use crate::text;
use crate::tree::Metric;
use vstd::prelude::*;

verus! {

/// One argument.
#[derive(Debug)]
pub struct Arg {
    pub text: String,
    /// It reads as an address and a port.
    pub is_address: bool,
}

/// An argument, as contracts speak of it.
pub struct Word {
    pub text: Seq<char>,
    pub is_address: bool,
}

impl View for Arg {
    type V = Word;

    open spec fn view(&self) -> Word {
        Word { text: self.text@, is_address: self.is_address }
    }
}

/// The views of arguments.
pub open spec fn words_of(args: Seq<Arg>) -> Seq<Word> {
    args.map_values(|arg: Arg| arg@)
}

/// What the command line asked for.
#[derive(Debug)]
pub struct Wanted {
    pub root: Option<String>,
    /// Where to listen.
    pub listen: String,
    pub token: Option<String>,
    pub options: ScanOptions,
    pub depth: u32,
}

/// What the command line asked for, as contracts speak of it.
pub struct Choice {
    pub root: Option<Seq<char>>,
    pub listen: Seq<char>,
    pub token: Option<Seq<char>>,
    pub options: ScanOptions,
    pub depth: u32,
}

impl View for Wanted {
    type V = Choice;

    open spec fn view(&self) -> Choice {
        Choice {
            root: text::opt_text(self.root),
            listen: self.listen@,
            token: text::opt_text(self.token),
            options: self.options,
            depth: self.depth,
        }
    }
}

/// What a command line comes to.
#[derive(Debug)]
pub enum Parsed {
    Run(Wanted),
    /// Show the usage and leave.
    Help,
    /// It makes no sense, and why.
    Refused(String),
}

/// What a command line comes to, as contracts speak of it.
pub enum Meaning {
    Run(Choice),
    Help,
    Refused(Seq<char>),
}

impl View for Parsed {
    type V = Meaning;

    open spec fn view(&self) -> Meaning {
        match self {
            Parsed::Run(wanted) => Meaning::Run(wanted@),
            Parsed::Help => Meaning::Help,
            Parsed::Refused(why) => Meaning::Refused(why@),
        }
    }
}

/// How the program is used.
pub open spec fn usage_text() -> Seq<char> {
    "\
disktree-web — the disktree treemap in a browser, for remote machines

usage: disktree-web [OPTIONS] [PATH]

arguments:
  PATH              directory to scan (default: the home directory)

The page is the desktop app's twin: same treemap, same marks, same review
screen, same removal guards. Everything is decided server-side; the browser
draws what it is sent.

options:
  -a, --apparent-size   measure apparent length instead of allocated blocks
  -l, --follow-links    follow symlinks
  -H, --no-hidden       skip dotfiles and dot-directories
  -X, --cross-filesystems
                        also measure other disks, network shares and pseudo
                        filesystems mounted below PATH (off by default)
  -d, --depth N         how many levels to draw at once (1-6, default 3)
      --metric files    rank by file count instead of bytes
      --listen ADDR     bind address (default: 127.0.0.1:8737)
      --token TOKEN     require ?token=TOKEN on every request; also read from
                        DISKTREE_TOKEN. Set this before listening on anything
                        but localhost: anyone who can reach the page can mark
                        and remove files under PATH.
  -h, --help            show this help
"@
}

/// How the program is used.
pub fn usage() -> (r: &'static str)
    ensures
        r@ == usage_text(),
{
    "\
disktree-web — the disktree treemap in a browser, for remote machines

usage: disktree-web [OPTIONS] [PATH]

arguments:
  PATH              directory to scan (default: the home directory)

The page is the desktop app's twin: same treemap, same marks, same review
screen, same removal guards. Everything is decided server-side; the browser
draws what it is sent.

options:
  -a, --apparent-size   measure apparent length instead of allocated blocks
  -l, --follow-links    follow symlinks
  -H, --no-hidden       skip dotfiles and dot-directories
  -X, --cross-filesystems
                        also measure other disks, network shares and pseudo
                        filesystems mounted below PATH (off by default)
  -d, --depth N         how many levels to draw at once (1-6, default 3)
      --metric files    rank by file count instead of bytes
      --listen ADDR     bind address (default: 127.0.0.1:8737)
      --token TOKEN     require ?token=TOKEN on every request; also read from
                        DISKTREE_TOKEN. Set this before listening on anything
                        but localhost: anyone who can reach the page can mark
                        and remove files under PATH.
  -h, --help            show this help
"
}

/// The number decimal digits stand for; nothing when something else is among
/// them.
pub open spec fn digits_value(digits: Seq<char>) -> Option<nat>
    decreases digits.len(),
{
    if digits.len() == 0 {
        Some(0)
    } else {
        match digits_value(digits.drop_last()) {
            Some(value) => if '0' <= digits.last() && digits.last() <= '9' {
                Some((value * 10 + (digits.last() as u32 - 48)) as nat)
            } else {
                None
            },
            None => None,
        }
    }
}

/// A text without the plus sign it begins with.
pub open spec fn unsigned(text: Seq<char>) -> Seq<char> {
    if text.len() > 0 && text[0] == '+' {
        text.skip(1)
    } else {
        text
    }
}

/// The 32-bit number a text reads as: an optional plus sign and at least one
/// digit.
pub open spec fn number(text: Seq<char>) -> Option<u32> {
    match digits_value(unsigned(text)) {
        Some(value) => if unsigned(text).len() > 0 && value <= u32::MAX {
            Some(value as u32)
        } else {
            None
        },
        None => None,
    }
}

/// A prefix that is no number makes the whole none.
proof fn lemma_digits(digits: Seq<char>, at: int)
    requires
        0 <= at <= digits.len(),
    ensures
        digits_value(digits.take(at)) is None ==> digits_value(digits) is None,
        (digits_value(digits.take(at)) matches Some(value) && value > u32::MAX) ==> match digits_value(
            digits,
        ) {
            Some(whole) => whole > u32::MAX,
            None => true,
        },
    decreases digits.len() - at,
{
    if at < digits.len() {
        assert(digits.take(at + 1).drop_last() =~= digits.take(at));
        lemma_digits(digits, at + 1);
    } else {
        assert(digits.take(at) =~= digits);
    }
}

/// The 32-bit number a text reads as.
pub fn parse_number(text: &str) -> (r: Option<u32>)
    ensures
        r == number(text@),
{
    let all = text::chars_of(text);
    let from: usize = if all.len() > 0 && all[0] == '+' {
        1
    } else {
        0
    };
    let ghost digits = unsigned(text@);
    assert(digits =~= all@.skip(from as int));
    if all.len() == from {
        return None;
    }
    let mut value: u64 = 0;
    let mut at: usize = from;
    assert(digits.take(0) =~= Seq::empty());
    while at < all.len()
        invariant
            from <= at <= all@.len(),
            digits == all@.skip(from as int),
            digits == unsigned(text@),
            digits.len() > 0,
            value <= u32::MAX,
            digits_value(digits.take(at - from)) == Some(value as nat),
        decreases all@.len() - at,
    {
        let c = all[at];
        proof {
            assert(digits.take(at + 1 - from).drop_last() =~= digits.take(at - from));
            assert(digits.take(at + 1 - from).last() == c);
            lemma_digits(digits, at + 1 - from);
        }
        if c < '0' || '9' < c {
            return None;
        }
        value = value * 10 + (c as u64 - 48);
        if value > u32::MAX as u64 {
            return None;
        }
        at = at + 1;
    }
    assert(digits.take(at - from) =~= digits);
    Some(value as u32)
}

/// What an option is.
pub enum Switch {
    Apparent,
    Follow,
    Hidden,
    Cross,
    Depth,
    Measure,
    Listen,
    Token,
    Help,
    Unknown,
    Place,
}

/// What an argument is.
pub open spec fn switch(text: Seq<char>) -> Switch {
    if text == "-a"@ || text == "--apparent-size"@ {
        Switch::Apparent
    } else if text == "-l"@ || text == "--follow-links"@ {
        Switch::Follow
    } else if text == "-H"@ || text == "--no-hidden"@ {
        Switch::Hidden
    } else if text == "-X"@ || text == "--cross-filesystems"@ {
        Switch::Cross
    } else if text == "-d"@ || text == "--depth"@ {
        Switch::Depth
    } else if text == "--metric"@ {
        Switch::Measure
    } else if text == "--listen"@ {
        Switch::Listen
    } else if text == "--token"@ {
        Switch::Token
    } else if text == "-h"@ || text == "--help"@ {
        Switch::Help
    } else if text.len() > 0 && text[0] == '-' {
        Switch::Unknown
    } else {
        Switch::Place
    }
}

fn switch_of(word: &str) -> (r: Switch)
    ensures
        r == switch(word@),
{
    if text::same(word, "-a") || text::same(word, "--apparent-size") {
        Switch::Apparent
    } else if text::same(word, "-l") || text::same(word, "--follow-links") {
        Switch::Follow
    } else if text::same(word, "-H") || text::same(word, "--no-hidden") {
        Switch::Hidden
    } else if text::same(word, "-X") || text::same(word, "--cross-filesystems") {
        Switch::Cross
    } else if text::same(word, "-d") || text::same(word, "--depth") {
        Switch::Depth
    } else if text::same(word, "--metric") {
        Switch::Measure
    } else if text::same(word, "--listen") {
        Switch::Listen
    } else if text::same(word, "--token") {
        Switch::Token
    } else if text::same(word, "-h") || text::same(word, "--help") {
        Switch::Help
    } else {
        let chars = text::chars_of(word);
        if chars.len() > 0 && chars[0] == '-' {
            Switch::Unknown
        } else {
            Switch::Place
        }
    }
}

/// A switch that stands alone.
pub open spec fn stands_alone(kind: Switch) -> bool {
    kind is Apparent || kind is Follow || kind is Hidden || kind is Cross
}

/// What a switch that stands alone does to the options.
pub open spec fn switched(options: ScanOptions, kind: Switch) -> ScanOptions {
    match kind {
        Switch::Apparent => ScanOptions { apparent_size: true, ..options },
        Switch::Follow => ScanOptions { follow_links: true, ..options },
        Switch::Hidden => ScanOptions { include_hidden: false, ..options },
        Switch::Cross => ScanOptions { one_filesystem: false, ..options },
        _ => options,
    }
}

/// An option that wants a value, and what it says without one.
pub open spec fn wants(kind: Switch) -> Option<Seq<char>> {
    match kind {
        Switch::Depth => Some("--depth wants a number"@),
        Switch::Measure => Some("--metric wants size|files"@),
        Switch::Listen => Some("--listen wants host:port"@),
        Switch::Token => Some("--token wants a value"@),
        _ => None,
    }
}

/// What an option makes of its value: the choice it leads to, or why not.
pub open spec fn valued(choice: Choice, kind: Switch, value: Word) -> Result<Choice, Seq<char>> {
    match kind {
        Switch::Depth => match number(value.text) {
            Some(depth) => if 1 <= depth <= 6 {
                Ok(Choice { depth, ..choice })
            } else {
                Err("--depth must be between 1 and 6, got "@ + text::decimal(depth as nat))
            },
            None => Err("--depth: not a number: "@ + value.text),
        },
        Switch::Measure => if value.text == "size"@ {
            Ok(Choice { options: ScanOptions { metric: Metric::Bytes, ..choice.options }, ..choice })
        } else if value.text == "files"@ {
            Ok(Choice { options: ScanOptions { metric: Metric::Files, ..choice.options }, ..choice })
        } else {
            Err("--metric must be size or files, got "@ + value.text)
        },
        Switch::Listen => if value.is_address {
            Ok(Choice { listen: value.text, ..choice })
        } else {
            Err("--listen: not host:port: "@ + value.text)
        },
        Switch::Token => if value.text.len() == 0 {
            Err("--token must not be empty"@)
        } else {
            Ok(Choice { token: Some(value.text), ..choice })
        },
        _ => Ok(choice),
    }
}

/// A complaint with the usage under it.
pub open spec fn with_usage(complaint: Seq<char>, word: Seq<char>) -> Seq<char> {
    complaint + word + "\n\n"@ + usage_text()
}

/// What the arguments `words[at..]` make of what was said before them.
pub open spec fn meaning(choice: Choice, words: Seq<Word>, at: int) -> Meaning
    decreases words.len() - at,
{
    if at >= words.len() {
        Meaning::Run(choice)
    } else {
        let word = words[at];
        let kind = switch(word.text);
        if stands_alone(kind) {
            meaning(
                Choice { options: switched(choice.options, kind), ..choice },
                words,
                at + 1,
            )
        } else if wants(kind) is Some {
            if at + 1 >= words.len() {
                Meaning::Refused(wants(kind)->0)
            } else {
                match valued(choice, kind, words[at + 1]) {
                    Ok(next) => meaning(next, words, at + 2),
                    Err(why) => Meaning::Refused(why),
                }
            }
        } else if kind is Help {
            Meaning::Help
        } else if kind is Unknown {
            Meaning::Refused(with_usage("unknown option: "@, word.text))
        } else if choice.root is Some {
            Meaning::Refused(with_usage("one PATH at a time: "@, word.text))
        } else {
            meaning(Choice { root: Some(word.text), ..choice }, words, at + 1)
        }
    }
}

/// What is wanted before anything is said: three levels, served to this
/// machine alone.
pub open spec fn unsaid(token: Option<Seq<char>>, options: ScanOptions) -> Choice {
    Choice {
        root: None,
        listen: "127.0.0.1:8737"@,
        token: match token {
            Some(token) => if token.len() == 0 {
                None
            } else {
                Some(token)
            },
            None => None,
        },
        options,
        depth: 3,
    }
}

fn take_value(wanted: Wanted, kind: &Switch, value: &Arg) -> (r: Result<Wanted, String>)
    ensures
        match r {
            Ok(next) => valued(wanted@, *kind, value@) == Ok::<Choice, Seq<char>>(next@),
            Err(why) => valued(wanted@, *kind, value@) == Err::<Choice, Seq<char>>(why@),
        },
{
    let Wanted { root, listen, token, options, depth } = wanted;
    let said = value.text.as_str();
    match kind {
        Switch::Depth => match parse_number(said) {
            Some(depth) => if 1 <= depth && depth <= 6 {
                Ok(Wanted { root, listen, token, options, depth })
            } else {
                Err(
                    "--depth must be between 1 and 6, got ".to_owned().concat(
                        text::decimal_text(depth as u64).as_str(),
                    ),
                )
            },
            None => Err("--depth: not a number: ".to_owned().concat(said)),
        },
        Switch::Measure => if text::same(said, "size") {
            let options = ScanOptions { metric: Metric::Bytes, ..options };
            Ok(Wanted { root, listen, token, options, depth })
        } else if text::same(said, "files") {
            let options = ScanOptions { metric: Metric::Files, ..options };
            Ok(Wanted { root, listen, token, options, depth })
        } else {
            Err("--metric must be size or files, got ".to_owned().concat(said))
        },
        Switch::Listen => if value.is_address {
            Ok(Wanted { root, listen: said.to_owned(), token, options, depth })
        } else {
            Err("--listen: not host:port: ".to_owned().concat(said))
        },
        Switch::Token => if text::is_empty(said) {
            Err("--token must not be empty".to_owned())
        } else {
            Ok(Wanted { root, listen, token: Some(said.to_owned()), options, depth })
        },
        _ => Ok(Wanted { root, listen, token, options, depth }),
    }
}

fn missing_value(kind: &Switch) -> (r: Option<String>)
    ensures
        text::opt_text(r) == wants(*kind),
{
    match kind {
        Switch::Depth => Some("--depth wants a number".to_owned()),
        Switch::Measure => Some("--metric wants size|files".to_owned()),
        Switch::Listen => Some("--listen wants host:port".to_owned()),
        Switch::Token => Some("--token wants a value".to_owned()),
        _ => None,
    }
}

fn complain(complaint: &str, word: &str) -> (r: String)
    ensures
        r@ == with_usage(complaint@, word@),
{
    complaint.to_owned().concat(word).concat("\n\n").concat(usage())
}

fn flip(options: ScanOptions, kind: &Switch) -> (r: Option<ScanOptions>)
    ensures
        match r {
            Some(next) => stands_alone(*kind) && next == switched(options, *kind),
            None => !stands_alone(*kind),
        },
{
    match kind {
        Switch::Apparent => Some(ScanOptions { apparent_size: true, ..options }),
        Switch::Follow => Some(ScanOptions { follow_links: true, ..options }),
        Switch::Hidden => Some(ScanOptions { include_hidden: false, ..options }),
        Switch::Cross => Some(ScanOptions { one_filesystem: false, ..options }),
        _ => None,
    }
}

/// What a command line comes to: `args` without the program's name, `token`
/// from the environment, `options` as they are when nothing is said.
pub fn parse_args(args: &Vec<Arg>, token: Option<String>, options: ScanOptions) -> (r: Parsed)
    ensures
        r@ == meaning(unsaid(text::opt_text(token), options), words_of(args@), 0),
{
    let ghost words = words_of(args@);
    let ghost start = unsaid(text::opt_text(token), options);
    let set = match token {
        Some(token) => if text::is_empty(token.as_str()) {
            None
        } else {
            Some(token)
        },
        None => None,
    };
    let mut wanted = Wanted {
        root: None,
        listen: "127.0.0.1:8737".to_owned(),
        token: set,
        options,
        depth: 3,
    };
    let mut at: usize = 0;
    let end: usize = args.len();
    while at < end
        invariant
            at <= end,
            end == args@.len(),
            words == words_of(args@),
            start == unsaid(text::opt_text(token), options),
            meaning(start, words, 0) == meaning(wanted@, words, at as int),
        decreases end - at,
    {
        let arg = &args[at];
        let word = arg.text.as_str();
        assert(words[at as int] == arg@);
        let kind = switch_of(word);
        if let Some(options) = flip(wanted.options, &kind) {
            wanted.options = options;
            at = at + 1;
        } else if let Some(why) = missing_value(&kind) {
            if end - at < 2 {
                return Parsed::Refused(why);
            }
            assert(words[at + 1] == args@[at + 1]@);
            match take_value(wanted, &kind, &args[at + 1]) {
                Ok(next) => {
                    wanted = next;
                },
                Err(why) => {
                    return Parsed::Refused(why);
                },
            }
            at = at + 2;
        } else {
            match kind {
                Switch::Help => {
                    return Parsed::Help;
                },
                Switch::Unknown => {
                    return Parsed::Refused(complain("unknown option: ", word));
                },
                _ => {
                    if wanted.root.is_some() {
                        return Parsed::Refused(complain("one PATH at a time: ", word));
                    }
                    wanted.root = Some(word.to_owned());
                    at = at + 1;
                },
            }
        }
    }
    Parsed::Run(wanted)
}

/// The directory to scan: the one asked for, else the home directory.
pub fn root_or_home(root: Option<OsPath>, home: Option<OsPath>) -> (r: Result<OsPath, String>)
    ensures
        match r {
            Ok(path) => match root {
                Some(root) => path@ == root@,
                None => home is Some && path@ == home->0@,
            },
            Err(why) => root is None && home is None && why@ == "no PATH and no HOME to scan"@,
        },
{
    match root {
        Some(root) => Ok(root),
        None => match home {
            Some(home) => Ok(home),
            None => Err("no PATH and no HOME to scan".to_owned()),
        },
    }
}

/// The directory to scan, as the filesystem resolved it: nothing when it
/// could not be read, and whether it is a directory.
pub fn checked_root(root: &OsPath, resolved: Option<(OsPath, bool)>) -> (r: Result<OsPath, String>)
    ensures
        match resolved {
            Some((path, true)) => r matches Ok(found) && found@ == path@,
            Some((path, false)) => r matches Err(why) && why@ == "not a directory: "@
                + text::lossy_text(path@),
            None => r matches Err(why) && why@ == "cannot read "@ + text::lossy_text(root@),
        },
{
    match resolved {
        Some((path, is_dir)) => if is_dir {
            Ok(path)
        } else {
            Err("not a directory: ".to_owned().concat(path.display().as_str()))
        },
        None => Err("cannot read ".to_owned().concat(root.display().as_str())),
    }
}

/// Where the page is, once it is served.
pub open spec fn url(listen: Seq<char>, token: Option<Seq<char>>) -> Seq<char> {
    match token {
        Some(token) => "http://"@ + listen + "/?token="@ + token,
        None => "http://"@ + listen,
    }
}

/// Where the page is, once it is served.
pub fn page_url(listen: &str, token: Option<&str>) -> (r: String)
    ensures
        r@ == url(
            listen@,
            match token {
                Some(token) => Some(token@),
                None => None,
            },
        ),
{
    match token {
        Some(token) => "http://".to_owned().concat(listen).concat("/?token=").concat(token),
        None => "http://".to_owned().concat(listen),
    }
}

/// What to say to whoever started a server that other machines can reach
/// without a secret.
pub fn exposure_warning(listen: &str, root: &OsPath, loopback: bool, has_token: bool) -> (r: Option<
    String,
>)
    ensures
        text::opt_text(r) == if !loopback && !has_token {
            Some(
                "disktree-web: warning: "@ + listen@
                    + " is reachable by other machines and this page can remove files under "@
                    + text::lossy_text(root@) + ". Restart with --token."@,
            )
        } else {
            None
        },
{
    if !loopback && !has_token {
        Some(
            "disktree-web: warning: ".to_owned().concat(listen).concat(
                " is reachable by other machines and this page can remove files under ",
            ).concat(root.display().as_str()).concat(". Restart with --token."),
        )
    } else {
        None
    }
}

} // verus!
