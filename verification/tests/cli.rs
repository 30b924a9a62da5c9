use puzzle::cli::error::cli_error;
use puzzle::cli::info::{cli_command, unknown, CliCommand};
use puzzle::cli::parse::{check_args, parse_cli_args, project_not_found, with_bool_options, CliParser};
use puzzle::error::PzlError;
use puzzle::options::CliOptions;

fn args(v: &[&str]) -> Vec<String> {
    v.iter().map(|a| a.to_string()).collect()
}

fn parse_error(v: &[&str]) -> PzlError {
    parse_cli_args(&args(v)).unwrap_err()
}

#[test]
fn command_line_errors_are_of_kind_command() {
    let e = cli_error("boom");
    assert_eq!(e.kind, "命令");
    assert!(e.path.is_none());
    assert!(e.position.is_none());
    assert_eq!(e.message(), "\x1b[31m[命令错误] boom\x1b[0m");
    let u = unknown();
    assert_eq!(u.msg, "未知命令: 请使用 help 命令查看使用帮助手册");
}

#[test]
fn commands() {
    assert_eq!(cli_command(&args(&["puzzle"])), CliCommand::Help);
    assert_eq!(cli_command(&args(&["puzzle", "build", "--path=x"])), CliCommand::Build);
    assert_eq!(cli_command(&args(&["puzzle", "help"])), CliCommand::Help);
    assert_eq!(cli_command(&args(&["puzzle", "version"])), CliCommand::Version);
    assert_eq!(cli_command(&args(&["puzzle", "run"])), CliCommand::Unknown);
}

#[test]
fn all_options_given() {
    let o = parse_cli_args(&args(&["--path=/w/demo", "--features=ansi-color", "--exports=ast", "--infos=file,progress"]))
        .unwrap();
    assert_eq!(o.project_path, Some("/w/demo".to_string()));
    assert!(o.enable_ansi_color());
    assert!(o.enable_export_ast());
    assert!(o.enable_info_progress());
    assert!(!o.enable_info_ignore());
    assert!(o.enable_info_file());
    assert!(o.is_exists_project_path());
    assert_eq!(o.project_path(), "/w/demo");
}

#[test]
fn all_and_none() {
    let o = parse_cli_args(&args(&["--infos=all", "--path=p", "--features=none"])).unwrap();
    assert!(o.enable_info_progress() && o.enable_info_ignore() && o.enable_info_file());
    assert!(!o.enable_ansi_color());
    assert!(!o.enable_export_ast());
}

#[test]
fn order_of_options_does_not_matter() {
    let a = parse_cli_args(&args(&["--path=p", "--infos=ignore", "--exports=ast"])).unwrap();
    let b = parse_cli_args(&args(&["--exports=ast", "--path=p", "--infos=ignore"])).unwrap();
    assert_eq!(
        (a.project_path, a.enable_export_ast, a.enable_info_ignore, a.enable_info_file),
        (b.project_path, b.enable_export_ast, b.enable_info_ignore, b.enable_info_file)
    );
}

#[test]
fn unknown_option() {
    assert_eq!(parse_error(&["--path=p", "--colour=on"]).msg, "未知选项: --colour=on");
    assert_eq!(parse_error(&["--path"]).msg, "未知选项: --path");
}

#[test]
fn repeated_option_is_refused() {
    assert_eq!(parse_error(&["--path=a", "--path=b"]).msg, "重复的选项: --path");
    assert_eq!(parse_error(&["--infos=file", "--path=a", "--infos=ignore"]).msg, "重复的选项: --infos");
}

#[test]
fn white_space_in_a_value() {
    assert_eq!(parse_error(&["--path=a b"]).msg, "参数 --path=a b 中不允许出现空白字符");
    assert_eq!(parse_error(&["--infos=file,\u{3000}ignore"]).msg, "参数 --infos=file,\u{3000}ignore 中不允许出现空白字符");
}

#[test]
fn empty_value() {
    assert_eq!(parse_error(&["--features="]).msg, "参数 --features=<option1,option2,...> 缺少值");
}

#[test]
fn unavailable_and_repeated_values() {
    assert_eq!(parse_error(&["--path=p", "--exports=json"]).msg, "--exports=json 不可用的值");
    assert_eq!(parse_error(&["--infos=file,file"]).msg, "--infos=file 重复的值");
    assert_eq!(parse_error(&["--infos=file,,ignore"]).msg, "--infos= 不可用的值");
    assert_eq!(parse_error(&["--features=all,ansi-color"]).msg, "--features=all 不可用的值");
}

#[test]
fn project_path_is_required() {
    assert_eq!(parse_error(&["--infos=file"]).msg, "缺少 --path 参数");
    assert_eq!(parse_error(&[]).msg, "缺少 --path 参数");
    assert!(check_args(&CliOptions::default()).is_err());
}

#[test]
fn first_wrong_argument_wins() {
    assert_eq!(parse_error(&["--x=1", "--path=a b"]).msg, "未知选项: --x=1");
}

#[test]
fn bool_options() {
    let avail = vec!["progress", "ignore", "file"];
    assert_eq!(with_bool_options("all", "--infos", &avail).unwrap(), vec![true, true, true]);
    assert_eq!(with_bool_options("none", "--infos", &avail).unwrap(), vec![false, false, false]);
    assert_eq!(with_bool_options("file", "--infos", &avail).unwrap(), vec![false, false, true]);
    assert_eq!(with_bool_options("ignore,progress", "--infos", &avail).unwrap(), vec![true, true, false]);
}

#[test]
fn parser_steps_tell_where_the_path_is_given() {
    let mut p = CliParser::new();
    assert_eq!(p.parse_cli_arg("--infos=progress").unwrap(), false);
    assert_eq!(p.parse_cli_arg("--path=rel").unwrap(), true);
    assert_eq!(p.options.project_path.as_deref(), Some("rel"));
    assert!(p.options.enable_info_progress);
    assert_eq!(p.used, vec![true, false, false, true]);
    assert!(p.parse_cli_arg("--path=again").is_err());
}

#[test]
fn missing_project_names_its_directory() {
    let e = project_not_found(&"/w/nothing/".to_string());
    assert_eq!(e.msg, "\"nothing\" 项目不存在");
    assert_eq!(e.kind, "命令");
}

#[test]
fn missing_project_name_is_written_as_a_path() {
    let e = project_not_found(&"/w/it's".to_string());
    assert_eq!(e.msg, "\"it's\" 项目不存在");
    let e = project_not_found(&"/w/a\"b/".to_string());
    assert_eq!(e.msg, "\"a\\\"b\" 项目不存在");
}

#[test]
fn options_not_given_stay_off() {
    let o = parse_cli_args(&args(&["--path=p"])).unwrap();
    assert!(!o.enable_ansi_color && !o.enable_export_ast);
    assert!(!o.enable_info_progress && !o.enable_info_ignore && !o.enable_info_file);
}

#[test]
fn every_order_of_the_arguments_gives_the_same_options() {
    let a = ["--path=p", "--features=ansi-color", "--exports=ast", "--infos=ignore,file"];
    let first = parse_cli_args(&args(&a)).unwrap();
    let orders = [[0, 1, 2, 3], [3, 2, 1, 0], [1, 3, 0, 2], [2, 0, 3, 1]];
    for o in orders.iter() {
        let v: Vec<&str> = o.iter().map(|&i| a[i]).collect();
        let r = parse_cli_args(&args(&v)).unwrap();
        assert_eq!(r.project_path, first.project_path);
        assert_eq!(r.enable_ansi_color, first.enable_ansi_color);
        assert_eq!(r.enable_export_ast, first.enable_export_ast);
        assert_eq!(r.enable_info_progress, first.enable_info_progress);
        assert_eq!(r.enable_info_ignore, first.enable_info_ignore);
        assert_eq!(r.enable_info_file, first.enable_info_file);
    }
}

#[test]
fn none_switches_every_option_off() {
    let o = parse_cli_args(&args(&["--path=p", "--infos=none", "--features=none", "--exports=none"])).unwrap();
    assert!(!o.enable_info_progress && !o.enable_info_ignore && !o.enable_info_file);
    assert!(!o.enable_ansi_color && !o.enable_export_ast);
    let mut p = CliParser::new();
    p.options.enable_info_file = true;
    p.parse_cli_arg("--infos=none").unwrap();
    assert!(!p.options.enable_info_file);
}
