//! The client's rules: how a command line becomes a request, and what a
//! response means for the exit code and for the end of a stream.

use vstd::prelude::*;
use vstd::string::StringExecFns;
use crate::config::ConfigError;
use crate::dir_utils::{expand_home_dir, expanded, text_view};
use crate::protocol::{Request, ResponsePart};
use crate::text::{all_spaces, is_space, same_text, split_whitespace, split_words, texts_view};

verus! {

/// The code that the client exits with.
#[allow(non_camel_case_types)]
#[derive(Clone, Copy, Debug, PartialEq, Eq, Structural)]
pub enum ExitCode {
    /// Every command succeeded.
    OK,
    /// The user interrupted the session.
    SIGINT,
    /// The response to the last command held an error.
    COMMANDERROR,
    /// Something else went wrong.
    OTHERERROR,
}

impl ExitCode {
    /// The number of the code.
    pub open spec fn number(self) -> i32 {
        match self {
            ExitCode::OK => 0,
            ExitCode::SIGINT => 1,
            ExitCode::COMMANDERROR => 2,
            ExitCode::OTHERERROR => 3,
        }
    }

    /// The number that the process exits with.
    pub fn as_i32(&self) -> (n: i32)
        ensures
            n == self.number(),
    {
        match self {
            ExitCode::OK => 0,
            ExitCode::SIGINT => 1,
            ExitCode::COMMANDERROR => 2,
            ExitCode::OTHERERROR => 3,
        }
    }
}

/// Whether a word is a flag: it begins with a hyphen.
pub open spec fn is_flag(word: Seq<char>) -> bool {
    word.len() > 0 && word[0] == '-'
}

/// The flags among the words, in order.
pub open spec fn flags_of(words: Seq<Seq<char>>) -> Seq<Seq<char>>
    decreases words.len(),
{
    if words.len() == 0 {
        Seq::empty()
    } else if is_flag(words.last()) {
        flags_of(words.drop_last()).push(words.last())
    } else {
        flags_of(words.drop_last())
    }
}

/// The words that are no flags, in order.
pub open spec fn args_of(words: Seq<Seq<char>>) -> Seq<Seq<char>>
    decreases words.len(),
{
    if words.len() == 0 {
        Seq::empty()
    } else if is_flag(words.last()) {
        args_of(words.drop_last())
    } else {
        args_of(words.drop_last()).push(words.last())
    }
}

/// A line that is not blank has a first word.
pub proof fn lemma_line_has_word(line: Seq<char>)
    requires
        !all_spaces(line),
    ensures
        split_words(line, false).len() > 0,
    decreases line.len(),
{
    if line.len() > 0 {
        let before = line.drop_last();
        if is_space(line.last()) {
            assert(!all_spaces(before)) by {
                if all_spaces(before) {
                    assert forall|i: int| 0 <= i < line.len() implies is_space(
                        #[trigger] line[i],
                    ) by {
                        if i < line.len() - 1 {
                            assert(before[i] == line[i]);
                        }
                    }
                }
            }
            lemma_line_has_word(before);
        }
    }
}

/// Whether a word begins with a hyphen.
fn word_is_flag(word: &str) -> (flag: bool)
    ensures
        flag == is_flag(word@),
{
    let chars = crate::text::chars_of(word);
    chars.len() > 0 && chars[0] == '-'
}

/// Turns a command line into a request: the first word is the command; of
/// the words after it, those that begin with a hyphen are flags and the
/// others are arguments. The line must hold a word.
pub fn line_to_request(line: &str) -> (request: Request)
    requires
        !all_spaces(line@),
    ensures
        request.command@ == split_words(line@, false)[0],
        texts_view(request.flags@) == flags_of(split_words(line@, false).skip(1)),
        texts_view(request.args@) == args_of(split_words(line@, false).skip(1)),
        request.stream is None,
{
    proof {
        lemma_line_has_word(line@);
    }
    let words = split_whitespace(line, false);
    let ghost all = split_words(line@, false);
    assert(words@[0]@ == texts_view(words@)[0]);
    let mut request = Request {
        command: words[0].clone(),
        flags: Vec::new(),
        args: Vec::new(),
        stream: None,
    };
    let mut flags: Vec<String> = Vec::new();
    let mut args: Vec<String> = Vec::new();
    let mut i: usize = 1;
    assert(all.skip(1).take(0) =~= Seq::empty());
    assert(texts_view(flags@) =~= flags_of(all.skip(1).take(0)));
    assert(texts_view(args@) =~= args_of(all.skip(1).take(0)));
    while i < words.len()
        invariant
            1 <= i <= words.len(),
            texts_view(words@) == all,
            texts_view(flags@) == flags_of(all.skip(1).take(i - 1)),
            texts_view(args@) == args_of(all.skip(1).take(i - 1)),
        decreases words.len() - i,
    {
        let word = &words[i];
        proof {
            let rest = all.skip(1);
            assert(rest.take(i as int).drop_last() =~= rest.take(i - 1));
            assert(rest.take(i as int).last() == all[i as int]);
            assert(texts_view(words@)[i as int] == word@);
        }
        let ghost known_flags = texts_view(flags@);
        let ghost known_args = texts_view(args@);
        if word_is_flag(word.as_str()) {
            flags.push(word.clone());
            assert(texts_view(flags@) =~= known_flags.push(word@));
        } else {
            args.push(word.clone());
            assert(texts_view(args@) =~= known_args.push(word@));
        }
        i += 1;
    }
    proof {
        let rest = all.skip(1);
        assert(rest.take(words.len() - 1) =~= rest);
    }
    request.flags = flags;
    request.args = args;
    request
}

/// Some part of the response is an error.
pub open spec fn has_error(parts: Seq<ResponsePart>) -> bool {
    exists|i: int| 0 <= i < parts.len() && #[trigger] parts[i] is Error
}

/// Takes in one response. An empty response changes nothing and the stream
/// goes on. Otherwise the exit code becomes `COMMANDERROR` if a part is an
/// error and `OK` if none is, and the stream goes on exactly if the last
/// part is streamed bytes.
pub fn process_response(res: &Vec<ResponsePart>, exit_code: &mut ExitCode) -> (streaming: bool)
    ensures
        res@.len() == 0 ==> streaming && *final(exit_code) == *old(exit_code),
        res@.len() > 0 ==> {
            &&& streaming == (res@.last() is Stream)
            &&& *final(exit_code) == (if has_error(res@) {
                ExitCode::COMMANDERROR
            } else {
                ExitCode::OK
            })
        },
{
    if res.len() == 0 {
        return true;
    }
    *exit_code = ExitCode::OK;
    let mut i: usize = 0;
    while i < res.len()
        invariant
            i <= res.len(),
            *exit_code == (if has_error(res@.take(i as int)) {
                ExitCode::COMMANDERROR
            } else {
                ExitCode::OK
            }),
        decreases res.len() - i,
    {
        let ghost before = res@.take(i as int);
        let ghost now = res@.take(i + 1);
        proof {
            if has_error(before) {
                let k = choose|k: int| 0 <= k < before.len() && #[trigger] before[k] is Error;
                assert(now[k] is Error);
            }
            if has_error(now) && !(res@[i as int] is Error) {
                let k = choose|k: int| 0 <= k < now.len() && #[trigger] now[k] is Error;
                assert(before[k] is Error);
            }
        }
        match &res[i] {
            ResponsePart::Error(_) => {
                assert(now[i as int] is Error);
                *exit_code = ExitCode::COMMANDERROR;
            },
            _ => {},
        }
        i += 1;
    }
    assert(res@.take(res.len() as int) =~= res@);
    match &res[res.len() - 1] {
        ResponsePart::Stream(_) => true,
        _ => false,
    }
}

/// Where the client's configuration is looked for unless a path is given.
pub const DEFAULT_CONFIG_PATH: &'static str = "~/.config/taskmeister/client.toml";

/// The server that the client talks to unless told otherwise.
pub const DEFAULT_SERVER_ADDR: &'static str = "127.0.0.1:14242";

/// The prompt of the interactive session.
pub const DEFAULT_PROMPT: &'static str = "taskmeister> ";

/// Where the history of the interactive session is kept.
pub const DEFAULT_HISTORY_FILE: &'static str = "~/.taskmeister_history";

/// The client's configuration.
#[derive(Debug)]
pub struct Config {
    pub server_addr: String,
    pub prompt: String,
    pub history_file: String,
}

/// The home directory as text, if there is one.
pub open spec fn home_view(home: Option<&str>) -> Option<Seq<char>> {
    match home {
        Some(base) => Some(base@),
        None => None,
    }
}

impl Config {
    /// The file to load the configuration from and whether it was asked
    /// for: the path given, or else the default path under `home`.
    pub fn locate(path: Option<String>, home: Option<&str>) -> (place: (String, bool))
        ensures
            match path {
                Some(given) => place.0 == given && place.1,
                None => !place.1 && place.0@ == expanded(DEFAULT_CONFIG_PATH@, home_view(home)),
            },
    {
        match path {
            Some(given) => (given, true),
            None => (expand_home_dir(DEFAULT_CONFIG_PATH, home), false),
        }
    }

    /// Settles the configuration once its file was looked for. `found` is
    /// what the file holds, if it exists. A missing file that was asked for
    /// is an error; a missing default file gives the default configuration,
    /// and the flag says that it is to be written, as it stands before the
    /// address is overridden. A server address given on the command line
    /// overrides the configured one.
    pub fn load(
        given: bool,
        config_file: String,
        found: Option<Config>,
        server_addr: Option<String>,
        home: Option<&str>,
    ) -> (loaded: Result<(Config, bool), ConfigError>)
        ensures
            match loaded {
                Ok((config, created)) => {
                    &&& created == (found is None)
                    &&& found is None ==> !given
                    &&& config.server_addr@ == (match (server_addr, found) {
                        (Some(addr), _) => addr@,
                        (None, Some(read)) => read.server_addr@,
                        (None, None) => DEFAULT_SERVER_ADDR@,
                    })
                    &&& config.prompt@ == (match found {
                        Some(read) => read.prompt@,
                        None => DEFAULT_PROMPT@,
                    })
                    &&& config.history_file@ == (match found {
                        Some(read) => read.history_file@,
                        None => expanded(DEFAULT_HISTORY_FILE@, home_view(home)),
                    })
                },
                Err(ConfigError::Missing(file)) => found is None && given && file == config_file,
            },
    {
        let (mut config, created) = match found {
            Some(read) => (read, false),
            None => {
                if given {
                    return Err(ConfigError::Missing(config_file));
                }
                (
                    Config {
                        server_addr: String::from_str(DEFAULT_SERVER_ADDR),
                        prompt: String::from_str(DEFAULT_PROMPT),
                        history_file: expand_home_dir(DEFAULT_HISTORY_FILE, home),
                    },
                    true,
                )
            },
        };
        match server_addr {
            Some(addr) => {
                config.server_addr = addr;
            },
            None => {},
        }
        Ok((config, created))
    }
}

/// What the client's arguments ask for.
#[derive(Debug)]
pub struct ParsedArgumets {
    /// The command to run instead of an interactive session.
    pub command: Option<String>,
    /// The path of the configuration file.
    pub config_file: Option<String>,
    /// The arguments that name the server, in order; the last one counts.
    pub server_addr: Vec<String>,
    /// Whether help was asked for.
    pub help: bool,
}

/// The client's arguments as plain mathematical values.
pub struct ArgumentsView {
    pub command: Option<Seq<char>>,
    pub config_file: Option<Seq<char>>,
    pub server_addr: Seq<Seq<char>>,
    pub help: bool,
}

impl View for ParsedArgumets {
    type V = ArgumentsView;

    open spec fn view(&self) -> ArgumentsView {
        ArgumentsView {
            command: text_view(self.command),
            config_file: text_view(self.config_file),
            server_addr: texts_view(self.server_addr@),
            help: self.help,
        }
    }
}

/// Reads the arguments from position `from` on, given what was read so
/// far. `-f` and `-c` take the argument that follows; where none follows,
/// the reading fails with the server addresses seen until then. `-h` asks
/// for help and ends the reading. Any other argument names the server.
pub open spec fn read_arguments(args: Seq<Seq<char>>, from: int, so_far: ArgumentsView) -> Result<
    ArgumentsView,
    Seq<Seq<char>>,
>
    decreases args.len() - from,
{
    if from < 0 || from >= args.len() {
        Ok(so_far)
    } else if args[from] == "-f"@ {
        if from + 1 < args.len() {
            read_arguments(
                args,
                from + 2,
                ArgumentsView { config_file: Some(args[from + 1]), ..so_far },
            )
        } else {
            Err(so_far.server_addr)
        }
    } else if args[from] == "-c"@ {
        if from + 1 < args.len() {
            read_arguments(args, from + 2, ArgumentsView { command: Some(args[from + 1]), ..so_far })
        } else {
            Err(so_far.server_addr)
        }
    } else if args[from] == "-h"@ {
        Ok(ArgumentsView { help: true, ..so_far })
    } else {
        read_arguments(
            args,
            from + 1,
            ArgumentsView { server_addr: so_far.server_addr.push(args[from]), ..so_far },
        )
    }
}

/// Nothing asked for.
pub open spec fn no_arguments() -> ArgumentsView {
    ArgumentsView { command: None, config_file: None, server_addr: Seq::empty(), help: false }
}

impl ParsedArgumets {
    fn empty() -> (parsed: ParsedArgumets)
        ensures
            parsed@ == no_arguments(),
    {
        let parsed = ParsedArgumets {
            command: None,
            config_file: None,
            server_addr: Vec::new(),
            help: false,
        };
        assert(parsed@.server_addr =~= Seq::empty());
        parsed
    }

    /// Reads the client's arguments, the program's name left out.
    pub fn new(args: &Vec<String>) -> (parsed: Result<ParsedArgumets, Vec<String>>)
        ensures
            match parsed {
                Ok(p) => read_arguments(texts_view(args@), 0, no_arguments()) == Ok::<
                    ArgumentsView,
                    Seq<Seq<char>>,
                >(p@),
                Err(seen) => read_arguments(texts_view(args@), 0, no_arguments()) == Err::<
                    ArgumentsView,
                    Seq<Seq<char>>,
                >(texts_view(seen@)),
            },
    {
        let mut ret = ParsedArgumets::empty();
        let ghost all = texts_view(args@);
        let mut i: usize = 0;
        while i < args.len()
            invariant
                i <= args.len(),
                all == texts_view(args@),
                read_arguments(all, 0, no_arguments()) == read_arguments(all, i as int, ret@),
            decreases args.len() - i,
        {
            let arg = args[i].as_str();
            assert(all[i as int] == arg@);
            if same_text(arg, "-f") {
                if i + 1 < args.len() {
                    assert(all[i + 1] == args@[i + 1]@);
                    ret.config_file = Some(args[i + 1].clone());
                    i += 2;
                } else {
                    return Err(ret.server_addr);
                }
            } else if same_text(arg, "-c") {
                if i + 1 < args.len() {
                    assert(all[i + 1] == args@[i + 1]@);
                    ret.command = Some(args[i + 1].clone());
                    i += 2;
                } else {
                    return Err(ret.server_addr);
                }
            } else if same_text(arg, "-h") {
                ret.help = true;
                return Ok(ret);
            } else {
                let ghost before = ret@.server_addr;
                ret.server_addr.push(args[i].clone());
                assert(ret@.server_addr =~= before.push(arg@));
                i += 1;
            }
        }
        Ok(ret)
    }
}

} // verus!
