//! Paths and arguments of the command line, as plain text.

use vstd::prelude::*;
use vstd::string::StringExecFns;
use crate::text::{chars_of, same_text, texts_view};

verus! {

/// What the server's arguments give: the path of the configuration file
/// behind `-f`, and the argument that follows; or, where the first argument
/// is not `-f`, no path and that argument.
pub open spec fn config_arguments(args: Seq<Seq<char>>) -> (Option<Seq<char>>, Option<Seq<char>>) {
    if args.len() == 0 {
        (None, None)
    } else if args[0] == "-f"@ {
        (
            if args.len() > 1 {
                Some(args[1])
            } else {
                None
            },
            if args.len() > 2 {
                Some(args[2])
            } else {
                None
            },
        )
    } else {
        (None, Some(args[0]))
    }
}

/// The text of an optional text.
pub open spec fn text_view(text: Option<String>) -> Option<Seq<char>> {
    match text {
        Some(t) => Some(t@),
        None => None,
    }
}

/// Reads the server's arguments, the program's name left out.
pub fn parse_config_path(args: &Vec<String>) -> (found: (Option<String>, Option<String>))
    ensures
        (text_view(found.0), text_view(found.1)) == config_arguments(texts_view(args@)),
{
    if args.len() == 0 {
        return (None, None);
    }
    assert(texts_view(args@)[0] == args@[0]@);
    if same_text(args[0].as_str(), "-f") {
        let path = if args.len() > 1 {
            assert(texts_view(args@)[1] == args@[1]@);
            Some(args[1].clone())
        } else {
            None
        };
        let rest = if args.len() > 2 {
            assert(texts_view(args@)[2] == args@[2]@);
            Some(args[2].clone())
        } else {
            None
        };
        (path, rest)
    } else {
        (None, Some(args[0].clone()))
    }
}

/// A path under a base directory. An absolute path stands for itself; a
/// separator is put between the two unless the base ends with one or is
/// empty.
pub open spec fn joined(base: Seq<char>, rest: Seq<char>) -> Seq<char> {
    if rest.len() > 0 && rest[0] == '/' {
        rest
    } else if base.len() == 0 || base.last() == '/' {
        base + rest
    } else {
        base + "/"@ + rest
    }
}

/// The path with a leading `~/` replaced by the home directory, if there is
/// one; any other path as it is.
pub open spec fn expanded(path: Seq<char>, home: Option<Seq<char>>) -> Seq<char> {
    match home {
        Some(base) => if path.len() >= 2 && path[0] == '~' && path[1] == '/' {
            joined(base, path.skip(2))
        } else {
            path
        },
        None => path,
    }
}

/// Replaces a leading `~/` of the path by the home directory `home`.
pub fn expand_home_dir(path: &str, home: Option<&str>) -> (full: String)
    ensures
        full@ == expanded(
            path@,
            match home {
                Some(base) => Some(base@),
                None => None,
            },
        ),
{
    let base = match home {
        Some(base) => base,
        None => {
            return String::from_str(path);
        },
    };
    let chars = chars_of(path);
    if !(chars.len() >= 2 && chars[0] == '~' && chars[1] == '/') {
        return String::from_str(path);
    }
    let rest = path.substring_char(2, chars.len());
    assert(rest@ =~= path@.skip(2));
    if chars.len() > 2 && chars[2] == '/' {
        return String::from_str(rest);
    }
    let base_chars = chars_of(base);
    let mut full = String::from_str(base);
    if base_chars.len() > 0 && base_chars[base_chars.len() - 1] != '/' {
        full.append("/");
    }
    full.append(rest);
    full
}

} // verus!
