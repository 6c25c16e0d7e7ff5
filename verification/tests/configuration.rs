use std::path::PathBuf;
use std::time::Duration;

use throwscape::configuration::util::{check_for_missing_next_value, parse_next_arg};
use throwscape::configuration::Config;

fn args_of(words: &[&str]) -> Vec<String> {
    words.iter().map(|word| word.to_string()).collect()
}

#[test]
fn correctly_parses_arguments() {
    let port: u16 = 99;
    let timeout: u64 = 2;
    let source_folder = "./example-stuff";

    println!("{}", port.to_string());

    let args = [
        String::from("ultrascape"),
        String::from("--port"),
        port.to_string(),
        String::from("--timeout"),
        timeout.to_string(),
        String::from("--source"),
        source_folder.to_string(),
    ];

    let result = Config::new(&args).unwrap();

    assert_eq!(result.port, port);
    assert_eq!(Duration::from_secs(result.timeout), Duration::from_secs(timeout));
    assert_eq!(PathBuf::from(&result.serve_path), PathBuf::from(source_folder));
}

#[test]
fn missing_value_check_catches_missing_value() {
    let args = [String::from("--port"), String::from("--wrong-val")];
    let index = 0;
    assert_eq!(true, check_for_missing_next_value(&args, index));
}

#[test]
fn missing_value_check_doesnt_catch_correct_values() {
    let args = [String::from("--port"), String::from("8080")];
    let index = 0;
    assert_eq!(false, check_for_missing_next_value(&args, index));
}

#[test]
fn missing_value_check_catches_the_last_argument() {
    let args = args_of(&["--port"]);
    assert!(check_for_missing_next_value(&args, 0));
    assert!(check_for_missing_next_value(&args, 5));
    assert!(check_for_missing_next_value(&args, usize::MAX));
    assert!(check_for_missing_next_value(&[], 0));
}

#[test]
fn missing_value_check_takes_a_single_dash_for_a_value() {
    let args = args_of(&["--source", "-dir"]);
    assert!(!check_for_missing_next_value(&args, 0));
    let args = args_of(&["--source", "--"]);
    assert!(check_for_missing_next_value(&args, 0));
    let args = args_of(&["--source", ""]);
    assert!(!check_for_missing_next_value(&args, 0));
}

#[test]
fn no_arguments_give_the_defaults() {
    let config = Config::new(&args_of(&["throwscape"])).unwrap();
    assert_eq!(config.port, 8080);
    assert_eq!(config.serve_path, "./");
    assert_eq!(config.timeout, 30);
    assert_eq!(config.index_file_name, "index.html");
    assert_eq!(config.file_not_found_path, "404.html");
    assert!(!config.is_in_debug_mode);
    assert_eq!(Config::new(&[]).unwrap(), config);
}

#[test]
fn the_program_name_is_not_read() {
    let config = Config::new(&args_of(&["--port"])).unwrap();
    assert_eq!(config.port, 8080);
}

#[test]
fn a_later_option_overrides_an_earlier_one() {
    let config = Config::new(&args_of(&["x", "--port", "1", "--port", "2"])).unwrap();
    assert_eq!(config.port, 2);
}

#[test]
fn missing_values_are_reported_by_option() {
    assert_eq!(
        Config::new(&args_of(&["x", "--port"])),
        Err(String::from("Missing port number"))
    );
    assert_eq!(
        Config::new(&args_of(&["x", "--port", "--source", "a"])),
        Err(String::from("Missing port number"))
    );
    assert_eq!(
        Config::new(&args_of(&["x", "--source"])),
        Err(String::from("Missing source path"))
    );
    assert_eq!(
        Config::new(&args_of(&["x", "--timeout"])),
        Err(String::from("Missing timeout in sec"))
    );
}

#[test]
fn unreadable_numbers_are_reported_as_port_numbers() {
    for bad in ["abc", "70000", "-1", "", " 80", "80 ", "8_0", "+", "0x10"] {
        assert_eq!(
            Config::new(&args_of(&["x", "--port", bad])),
            Err(String::from("Invalid port number")),
            "port {:?}",
            bad
        );
    }
    assert_eq!(
        Config::new(&args_of(&["x", "--timeout", "soon"])),
        Err(String::from("Invalid port number"))
    );
    assert_eq!(
        Config::new(&args_of(&["x", "--timeout", "18446744073709551616"])),
        Err(String::from("Invalid port number"))
    );
}

#[test]
fn numbers_at_the_limits_are_read() {
    let config = Config::new(&args_of(&[
        "x",
        "--port",
        "65535",
        "--timeout",
        "18446744073709551615",
    ]))
    .unwrap();
    assert_eq!(config.port, 65535);
    assert_eq!(config.timeout, u64::MAX);
    let config = Config::new(&args_of(&["x", "--port", "+0080", "--timeout", "0"])).unwrap();
    assert_eq!(config.port, 80);
    assert_eq!(config.timeout, 0);
    assert_eq!(
        Config::new(&args_of(&["x", "--port", "65536"])),
        Err(String::from("Invalid port number"))
    );
}

#[test]
fn an_unknown_parameter_is_quoted() {
    assert_eq!(
        Config::new(&args_of(&["x", "--verbose"])),
        Err(String::from("Invalid parameter: \"--verbose\""))
    );
    assert_eq!(
        Config::new(&args_of(&["x", "--port", "1", "stray", "--port"])),
        Err(String::from("Invalid parameter: \"stray\""))
    );
}

#[test]
fn the_first_wrong_argument_decides() {
    assert_eq!(
        Config::new(&args_of(&["x", "--timeout", "x", "--bogus"])),
        Err(String::from("Invalid port number"))
    );
    assert_eq!(
        Config::new(&args_of(&["x", "--bogus", "--timeout", "x"])),
        Err(String::from("Invalid parameter: \"--bogus\""))
    );
}

#[test]
fn next_argument_is_read_as_the_type_asked_for() {
    let args = args_of(&["--port", "300", "--timeout", "70000"]);
    assert_eq!(parse_next_arg::<u16>(&args, 0), Ok(300));
    assert_eq!(parse_next_arg::<u64>(&args, 0), Ok(300));
    assert_eq!(parse_next_arg::<u64>(&args, 2), Ok(70000));
    assert_eq!(
        parse_next_arg::<u16>(&args, 2),
        Err(String::from("Invalid port number"))
    );
    assert_eq!(
        parse_next_arg::<u64>(&args, 1),
        Err(String::from("Invalid port number"))
    );
}
