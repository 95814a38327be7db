use wassette::config::Config;
use wassette::env_file::{parse_env_file, parse_env_line, trim, EnvFileError, EnvLine};

fn pairs(v: &[(&str, &str)]) -> Vec<(String, String)> {
    v.iter().map(|(k, x)| (k.to_string(), x.to_string())).collect()
}

#[test]
fn env_file_lines() {
    let content = "# comment\n\nAPI_KEY = abc \nQUOTED=\"hello world\"\nSINGLE='x'\r\nEMPTY=\nA=1=2\n";
    assert_eq!(
        parse_env_file(content),
        Ok(pairs(&[
            ("API_KEY", "abc"),
            ("QUOTED", "hello world"),
            ("SINGLE", "x"),
            ("EMPTY", ""),
            ("A", "1=2"),
        ]))
    );
}

#[test]
fn env_file_errors_name_the_line() {
    assert_eq!(parse_env_file("A=1\n=2\n"), Err(EnvFileError::EmptyKey { line: 2 }));
    assert_eq!(
        parse_env_file("A=1\n\n  oops  \nB=2"),
        Err(EnvFileError::InvalidLine { line: 3, text: "oops".to_string() })
    );
    assert_eq!(parse_env_file(""), Ok(vec![]));
}

#[test]
fn env_line_kinds() {
    assert_eq!(parse_env_line("   "), EnvLine::Skip);
    assert_eq!(parse_env_line(" # x=1"), EnvLine::Skip);
    assert_eq!(parse_env_line("  =v"), EnvLine::EmptyKey);
    assert_eq!(parse_env_line("novalue"), EnvLine::Invalid);
    assert_eq!(
        parse_env_line("K=\""),
        EnvLine::Entry { key: "K".to_string(), value: "\"".to_string() }
    );
    assert_eq!(trim("\t a b \n"), "a b");
}

#[test]
fn environment_precedence() {
    let mut config = Config::new("/c".to_string(), "/s".to_string());
    assert_eq!(config.bind_address, "127.0.0.1:9001");
    config.environment_vars.push(("FROM_CONFIG".to_string(), "config".to_string()));
    config.environment_vars.push(("SHARED".to_string(), "config".to_string()));
    config.merge_environment(
        &pairs(&[("SHARED", "file"), ("FILE_ONLY", "file")]),
        &pairs(&[("SHARED", "cli")]),
        &pairs(&[("SHARED", "system"), ("PATH", "/bin"), ("PATH", "/usr/bin"), ("FROM_CONFIG", "system")]),
    );
    assert_eq!(config.environment_var("SHARED").map(|s| s.as_str()), Some("cli"));
    assert_eq!(config.environment_var("FILE_ONLY").map(|s| s.as_str()), Some("file"));
    assert_eq!(config.environment_var("FROM_CONFIG").map(|s| s.as_str()), Some("config"));
    assert_eq!(config.environment_var("PATH").map(|s| s.as_str()), Some("/bin"));
    assert_eq!(config.environment_var("MISSING"), None);
}
