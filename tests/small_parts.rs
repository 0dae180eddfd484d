use bedrock_launcher::cli::{classify, parse_args, Invocation};
use bedrock_launcher::edition::Edition;
use bedrock_launcher::logger::{format_log_line, log_line, LogLevel};
use bedrock_launcher::text::str_equal;
use bedrock_launcher::version::PackageVersion;

fn args(list: &[&str]) -> Vec<String> {
    list.iter().map(|a| a.to_string()).collect()
}

#[test]
fn editions_round_trip_by_name() {
    for e in [Edition::Uwp, Edition::Beta, Edition::Education, Edition::EducationPreview] {
        assert_eq!(Edition::from_package_name(&e.package_name()), Some(e));
    }
    assert_eq!(Edition::from_package_name("Microsoft.MinecraftUWP2"), None);
}

#[test]
fn edition_table_values() {
    assert_eq!(
        Edition::Education.app_user_model_id(),
        "Microsoft.MinecraftEducationEdition_8wekyb3d8bbwe!Microsoft.MinecraftEducationEdition"
    );
    assert_eq!(
        Edition::EducationPreview.shell_target(),
        "shell:appsFolder\\Microsoft.MinecraftEducationPreview_8wekyb3d8bbwe!Microsoft.MinecraftEducationEdition"
    );
    assert_eq!(Edition::Beta.shell_target(), "shell:appsFolder\\Microsoft.MinecraftWindowsBeta_8wekyb3d8bbwe!App");
}

#[test]
fn version_is_rendered_dotted() {
    let v = PackageVersion { major: 1, minor: 20, build: 0, revision: 65535 };
    assert_eq!(v.to_dotted_string(), "1.20.0.65535");
    let z = PackageVersion { major: 0, minor: 0, build: 10, revision: 9 };
    assert_eq!(z.to_dotted_string(), "0.0.10.9");
}

#[test]
fn log_line_layout() {
    assert_eq!(
        format_log_line("2024-01-02 03:04:05", LogLevel::Error, "boom"),
        "[2024-01-02 03:04:05] \x1b[31mERROR\x1b[0m boom"
    );
    assert_eq!(LogLevel::Info.tag(), "\x1b[32mINFO\x1b[0m");
    let line = log_line(LogLevel::Debug, "hello");
    assert!(line.starts_with('['));
    assert!(line.ends_with("] \x1b[34mDEBUG\x1b[0m hello"));
}

#[test]
fn string_equality() {
    assert!(str_equal("abc", "abc"));
    assert!(!str_equal("abc", "abd"));
    assert!(!str_equal("abc", "ab"));
    assert!(str_equal("", ""));
}

#[test]
fn command_is_case_insensitive() {
    match parse_args(&args(&["bblc", "UNPACK", "c:/p/mc.appx", "d:/a", "-f", "-dappx"])) {
        Invocation::Unpack(q) => {
            assert_eq!(q.source_archive_path, "c:/p/mc.appx");
            assert_eq!(q.destination_dir, "d:/a");
            assert!(q.force_replace);
            assert!(!q.delete_signature_after);
            assert!(q.delete_source_after);
        }
        other => panic!("unexpected {:?}", other),
    }
}

#[test]
fn short_command_lines_give_usage() {
    assert!(matches!(parse_args(&args(&["bblc", "unpack", "only-one"])), Invocation::UnpackUsage));
    assert!(matches!(parse_args(&args(&["bblc", "regpack"])), Invocation::RegpackUsage));
    assert!(matches!(parse_args(&args(&["bblc"])), Invocation::Unknown));
    assert!(matches!(parse_args(&args(&["bblc", "launch"])), Invocation::Unknown));
    assert!(matches!(parse_args(&args(&["bblc", "Help"])), Invocation::Help));
}

#[test]
fn regpack_reads_start_flag() {
    match classify("regpack", &args(&["bblc", "regpack", "D:/Downloads/MC", "-start"])) {
        Invocation::Regpack { package_dir, auto_start } => {
            assert_eq!(package_dir, "D:/Downloads/MC");
            assert!(auto_start);
        }
        other => panic!("unexpected {:?}", other),
    }
    assert!(matches!(classify("REGPACK", &args(&["bblc", "regpack", "x"])), Invocation::Unknown));
}
