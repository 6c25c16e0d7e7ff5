//! The configuration of the server.

use crate::configuration::util::{
    args_view, check_for_missing_next_value, missing_next_value, next_arg, parse_next_arg,
};
use crate::text::str_eq;
use vstd::prelude::*;
use vstd::string::*;

verus! {

/// What the server is run with. It is made once and only read afterwards.
#[derive(Debug, Clone, PartialEq, Eq)]
pub struct Config {
    /// The port to listen on.
    pub port: u16,
    /// The directory that is served. Before requests are answered it has to
    /// be absolute and canonical.
    pub serve_path: String,
    /// How long a read from a connection may take, in seconds.
    pub timeout: u64,
    /// The file that stands for a directory.
    pub index_file_name: String,
    /// The page that is sent with the status 404, if it can be read.
    pub file_not_found_path: String,
    /// Whether failed requests and responses are reported.
    pub is_in_debug_mode: bool,
}

/// A configuration as a mathematical value.
pub struct ConfigView {
    pub port: u16,
    pub serve_path: Seq<char>,
    pub timeout: u64,
    pub index_file_name: Seq<char>,
    pub file_not_found_path: Seq<char>,
    pub is_in_debug_mode: bool,
}

impl View for Config {
    type V = ConfigView;

    open spec fn view(&self) -> ConfigView {
        ConfigView {
            port: self.port,
            serve_path: self.serve_path@,
            timeout: self.timeout,
            index_file_name: self.index_file_name@,
            file_not_found_path: self.file_not_found_path@,
            is_in_debug_mode: self.is_in_debug_mode,
        }
    }
}

/// The configuration of a server that is started without arguments: port
/// 8080, the working directory, reads of at most 30 seconds, `index.html`
/// for a directory, `404.html` for what is not found, no reports.
pub open spec fn default_config() -> ConfigView {
    ConfigView {
        port: 8080,
        serve_path: "./"@,
        timeout: 30,
        index_file_name: "index.html"@,
        file_not_found_path: "404.html"@,
        is_in_debug_mode: false,
    }
}

/// The configuration that the arguments from `index` on make of `config`.
///
/// `--port`, `--source` and `--timeout` each take the next argument as their
/// value; anything else is refused. A later option overrides an earlier one.
/// The first argument that is wrong decides the message.
pub open spec fn read_args(args: Seq<Seq<char>>, index: int, config: ConfigView) -> Result<
    ConfigView,
    Seq<char>,
>
    decreases args.len() - index,
{
    if index < 0 || index >= args.len() {
        Ok(config)
    } else if args[index] == "--port"@ {
        if missing_next_value(args, index) {
            Err("Missing port number"@)
        } else {
            match next_arg::<u16>(args, index) {
                Ok(port) => read_args(args, index + 2, ConfigView { port, ..config }),
                Err(message) => Err(message),
            }
        }
    } else if args[index] == "--source"@ {
        if missing_next_value(args, index) {
            Err("Missing source path"@)
        } else {
            read_args(args, index + 2, ConfigView { serve_path: args[index + 1], ..config })
        }
    } else if args[index] == "--timeout"@ {
        if missing_next_value(args, index) {
            Err("Missing timeout in sec"@)
        } else {
            match next_arg::<u64>(args, index) {
                Ok(timeout) => read_args(args, index + 2, ConfigView { timeout, ..config }),
                Err(message) => Err(message),
            }
        }
    } else {
        Err("Invalid parameter: \""@ + args[index] + "\""@)
    }
}

/// The result of reading the arguments, as a mathematical value.
pub open spec fn config_result_view(result: Result<Config, String>) -> Result<
    ConfigView,
    Seq<char>,
> {
    match result {
        Ok(config) => Ok(config@),
        Err(message) => Err(message@),
    }
}

impl Config {
    /// Reads the configuration from the arguments of the command line. The
    /// first argument is the name of the program and is not looked at.
    pub fn new(args: &[String]) -> (result: Result<Config, String>)
        ensures
            config_result_view(result) == read_args(args_view(args@), 1, default_config()),
    {
        let mut index: usize = 1;
        let mut port: u16 = 8080;
        let mut serve_path = String::from_str("./");
        let mut timeout: u64 = 30;
        let ghost all = args_view(args@);

        while index < args.len()
            invariant
                1 <= index,
                all == args_view(args@),
                read_args(all, 1, default_config()) == read_args(
                    all,
                    index as int,
                    ConfigView { port, serve_path: serve_path@, timeout, ..default_config() },
                ),
            decreases args.len() - index,
        {
            let arg = args[index].as_str();
            assert(all[index as int] == arg@);
            if str_eq(arg, "--port") {
                if check_for_missing_next_value(args, index) {
                    return Err(String::from_str("Missing port number"));
                }
                match parse_next_arg::<u16>(args, index) {
                    Ok(value) => {
                        port = value;
                    },
                    Err(message) => {
                        return Err(message);
                    },
                }
                index += 1;
            } else if str_eq(arg, "--source") {
                if check_for_missing_next_value(args, index) {
                    return Err(String::from_str("Missing source path"));
                }
                serve_path = args[index + 1].clone();
                index += 1;
            } else if str_eq(arg, "--timeout") {
                if check_for_missing_next_value(args, index) {
                    return Err(String::from_str("Missing timeout in sec"));
                }
                match parse_next_arg::<u64>(args, index) {
                    Ok(value) => {
                        timeout = value;
                    },
                    Err(message) => {
                        return Err(message);
                    },
                }
                index += 1;
            } else {
                let mut message = String::from_str("Invalid parameter: \"");
                message.append(arg);
                message.append("\"");
                return Err(message);
            }
            index += 1;
        }

        Ok(
            Config {
                port,
                serve_path,
                timeout,
                index_file_name: String::from_str("index.html"),
                file_not_found_path: String::from_str("404.html"),
                is_in_debug_mode: false,
            },
        )
    }
}

} // verus!
