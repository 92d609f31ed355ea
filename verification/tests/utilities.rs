use cli_core::args::ArgParser;
use cli_core::config::Config;
use cli_core::errors::{auth_error, config_error, network_error, unknown_error, CliError};
use cli_core::interactive::{interpret_confirm, interpret_selection};
use cli_core::logger::format_log_line;
use cli_core::numtext::{parse_usize, u64_to_dec};
use cli_core::strmap::StrMap;
use cli_core::templates::{add_template, get_template, remove_template, Templates};

#[test]
fn parser_scans_pairs_flags_and_positionals() {
    let mut parser = ArgParser::new("tool");
    let args: Vec<String> = vec![
        "tool".to_string(),
        "--mode=fast".to_string(),
        "--verbose".to_string(),
        "input.txt".to_string(),
        "-o".to_string(),
        "out.txt".to_string(),
        "extra".to_string(),
        "--dry-run".to_string(),
    ];
    assert!(parser.parse(&args).is_ok());
    assert_eq!(parser.get("mode").map(|s| s.as_str()), Some("fast"));
    assert_eq!(parser.get("o").map(|s| s.as_str()), Some("out.txt"));
    assert!(parser.get("missing").is_none());
    // "--verbose" was followed by a plain token, so it took it as a value
    assert_eq!(parser.get("verbose").map(|s| s.as_str()), Some("input.txt"));
    // "--dry-run" stayed pending at the end, so it became a flag
    assert!(parser.has_flag("dry-run"));
    assert!(!parser.has_flag("verbose"));
    assert_eq!(parser.positional_count(), 1);
    assert_eq!(parser.get_positional(0).map(|s| s.as_str()), Some("extra"));
    assert!(parser.get_positional(1).is_none());
    assert_eq!(parser.get_all_positional().len(), 1);
}

#[test]
fn parser_help_token_aborts_with_error() {
    let mut parser = ArgParser::new("tool");
    let args: Vec<String> = vec![
        "tool".to_string(),
        "first".to_string(),
        "--help".to_string(),
        "after".to_string(),
    ];
    let r = parser.parse(&args);
    assert!(r.is_err());
    match r {
        Err(CliError::Unknown(m)) => assert_eq!(m.as_str(), "show help"),
        _ => panic!("expected the help error"),
    }
    // what was scanned before the help token stays; what followed does not
    assert_eq!(parser.positional_count(), 1);
    assert_eq!(parser.get_positional(0).map(|s| s.as_str()), Some("first"));
}

#[test]
fn parser_short_help_aborts_too() {
    let mut parser = ArgParser::new("tool");
    let args: Vec<String> = vec!["tool".to_string(), "-h".to_string()];
    assert!(parser.parse(&args).is_err());
}

#[test]
fn parser_strips_repeated_dashes() {
    let mut parser = ArgParser::new("tool");
    let args: Vec<String> = vec![
        "tool".to_string(),
        "----deep".to_string(),
        "value".to_string(),
        "-abc".to_string(),
    ];
    assert!(parser.parse(&args).is_ok());
    assert_eq!(parser.get("deep").map(|s| s.as_str()), Some("value"));
    assert!(parser.has_flag("abc"));
}

#[test]
fn parser_empty_and_lone_dash() {
    let mut parser = ArgParser::new("tool");
    let args: Vec<String> = vec!["tool".to_string(), "-".to_string()];
    assert!(parser.parse(&args).is_ok());
    // a lone dash is positional: it is no key (too short) and nothing was pending
    assert_eq!(parser.positional_count(), 1);
    assert_eq!(parser.get_positional(0).map(|s| s.as_str()), Some("-"));

    let mut empty = ArgParser::new("tool");
    let none: Vec<String> = Vec::new();
    assert!(empty.parse(&none).is_ok());
    assert_eq!(empty.positional_count(), 0);
}

#[test]
fn parser_description_and_help_text() {
    let parser = ArgParser::new("tool").with_description("a demo");
    let text = parser.help_text();
    assert!(text.starts_with("-- tool --\n"));
    assert!(text.contains("a demo"));
    assert!(text.contains("使い方"));
    assert!(text.contains("-h, --help"));
}

#[test]
fn templates_defaults_and_editing() {
    let mut t = Templates::new();
    assert_eq!(
        get_template(&t, "not_found").as_deref(),
        Some("指定されたリソースが見つかりませんでした")
    );
    assert_eq!(get_template(&t, "permission_denied").as_deref(), Some("権限がありません"));
    assert_eq!(get_template(&t, "success").as_deref(), Some("処理が正常に完了しました"));
    assert_eq!(get_template(&t, "cancelled").as_deref(), Some("操作がキャンセルされました"));
    assert!(get_template(&t, "greeting").is_none());

    assert!(add_template(&mut t, "greeting", "こんにちは").is_ok());
    assert_eq!(get_template(&t, "greeting").as_deref(), Some("こんにちは"));
    assert!(add_template(&mut t, "greeting", "やあ").is_ok());
    assert_eq!(get_template(&t, "greeting").as_deref(), Some("やあ"));

    assert!(remove_template(&mut t, "greeting"));
    assert!(get_template(&t, "greeting").is_none());
    assert!(!remove_template(&mut t, "greeting"));
    // the others stayed
    assert_eq!(get_template(&t, "success").as_deref(), Some("処理が正常に完了しました"));
}

#[test]
fn strmap_insert_get_remove() {
    let mut m = StrMap::new();
    assert_eq!(m.len(), 0);
    m.insert("a", "1");
    m.insert("b", "2");
    m.insert("a", "3");
    assert_eq!(m.len(), 2);
    assert_eq!(m.get("a").map(|s| s.as_str()), Some("3"));
    assert_eq!(m.get("b").map(|s| s.as_str()), Some("2"));
    assert!(m.get("c").is_none());
    assert!(m.remove("a"));
    assert!(m.get("a").is_none());
    assert_eq!(m.get("b").map(|s| s.as_str()), Some("2"));
}

#[test]
fn error_messages_carry_their_prefixes() {
    assert_eq!(config_error("x").message().as_str(), "設定エラー: x");
    assert_eq!(auth_error("y").message().as_str(), "認証エラー: y");
    assert_eq!(network_error("z").message().as_str(), "ネットワークエラー: z");
    assert_eq!(unknown_error("w").message().as_str(), "不明なエラー: w");
    let io = CliError::IoError("broken pipe".to_string());
    assert_eq!(io.message().as_str(), "入出力エラー: broken pipe");
}

#[test]
fn log_line_is_composed_exactly() {
    let line = format_log_line("2024-01-01 00:00:00", "[INFO]", "hello");
    assert_eq!(line.as_str(), "2024-01-01 00:00:00 [INFO] hello");
}

#[test]
fn confirm_answers() {
    assert_eq!(interpret_confirm("", true), Some(true));
    assert_eq!(interpret_confirm("", false), Some(false));
    assert_eq!(interpret_confirm("y", false), Some(true));
    assert_eq!(interpret_confirm("Y", false), Some(true));
    assert_eq!(interpret_confirm("YES", false), Some(true));
    assert_eq!(interpret_confirm("はい", false), Some(true));
    assert_eq!(interpret_confirm("n", true), Some(false));
    assert_eq!(interpret_confirm("No", true), Some(false));
    assert_eq!(interpret_confirm("いいえ", true), Some(false));
    assert_eq!(interpret_confirm("maybe", true), None);
}

#[test]
fn selection_answers() {
    assert_eq!(interpret_selection("1", 3), Some(0));
    assert_eq!(interpret_selection("3", 3), Some(2));
    assert_eq!(interpret_selection("+2", 3), Some(1));
    assert_eq!(interpret_selection("0", 3), None);
    assert_eq!(interpret_selection("4", 3), None);
    assert_eq!(interpret_selection("abc", 3), None);
    assert_eq!(interpret_selection("", 3), None);
    assert_eq!(interpret_selection("99999999999999999999999999", 3), None);
}

#[test]
fn decimal_rendering_and_reading() {
    assert_eq!(u64_to_dec(0).as_str(), "0");
    assert_eq!(u64_to_dec(7).as_str(), "7");
    assert_eq!(u64_to_dec(105).as_str(), "105");
    assert_eq!(u64_to_dec(u64::MAX).as_str(), "18446744073709551615");
    assert_eq!(parse_usize("0"), Some(0));
    assert_eq!(parse_usize("105"), Some(105));
    assert_eq!(parse_usize("+9"), Some(9));
    assert_eq!(parse_usize("+"), None);
    assert_eq!(parse_usize("-3"), None);
    assert_eq!(parse_usize("12a"), None);
    assert_eq!(parse_usize(""), None);
}

#[test]
fn config_default_values() {
    let c = Config::default();
    assert_eq!(c.logger.level.as_str(), "info");
    assert!(c.logger.color);
    assert!(c.logger.timestamp);
    assert_eq!(c.templates.custom_templates.len(), 0);
}
