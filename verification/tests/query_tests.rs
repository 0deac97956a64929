use gitlog::commands::count_args;
use gitlog::commands::log_args;
use gitlog::commands::search_args;
use gitlog::numbers::format_usize;
use gitlog::numbers::parse_usize;
use gitlog::query::commit_count;
use gitlog::query::get_log;
use gitlog::query::get_recent_commits;
use gitlog::query::search_commits;
use gitlog::text::trim_str;

const FORMAT_ARG: &str = "--format=%H\x1f%h\x1f%s\x1f%an\x1f%ar\x1f%aI\x1f%P\x1f%D";

#[test]
fn log_args_are_exact() {
    let args = log_args(25, 50, None);
    assert_eq!(
        args,
        vec![
            "log".to_string(),
            "-25".to_string(),
            "--skip=50".to_string(),
            FORMAT_ARG.to_string(),
            "--graph".to_string(),
        ]
    );
}

#[test]
fn log_args_append_branch() {
    let args = log_args(1, 0, Some("feature/x"));
    assert_eq!(args.len(), 6);
    assert_eq!(args[2], "--skip=0");
    assert_eq!(args[5], "feature/x");
}

#[test]
fn count_args_are_exact() {
    assert_eq!(
        count_args(),
        vec!["rev-list".to_string(), "--count".to_string(), "HEAD".to_string()]
    );
}

#[test]
fn search_args_are_exact() {
    let args = search_args("fix", 10);
    assert_eq!(
        args,
        vec![
            "log".to_string(),
            "-10".to_string(),
            FORMAT_ARG.to_string(),
            "--grep=fix".to_string(),
            "-i".to_string(),
        ]
    );
}

#[test]
fn format_usize_renders_decimal() {
    assert_eq!(format_usize(0), "0");
    assert_eq!(format_usize(7), "7");
    assert_eq!(format_usize(1234567890), "1234567890");
}

#[test]
fn parse_usize_reads_digits() {
    assert_eq!(parse_usize("123"), Some(123));
    assert_eq!(parse_usize("+7"), Some(7));
    assert_eq!(parse_usize("0"), Some(0));
    assert_eq!(parse_usize(""), None);
    assert_eq!(parse_usize("12a"), None);
    assert_eq!(parse_usize("-3"), None);
    assert_eq!(parse_usize("99999999999999999999999999"), None);
}

#[test]
fn trim_removes_surrounding_whitespace() {
    assert_eq!(trim_str("  42\r\n"), "42");
    assert_eq!(trim_str("\t \n"), "");
    assert_eq!(trim_str("a b"), "a b");
}

#[test]
fn get_log_parses_invoker_output() {
    let out = "* h1\x1fs1\x1fone\x1fme\x1fnow\x1fiso\x1f\x1f\n* h2\x1fs2\x1ftwo\x1fme\x1fnow\x1fiso\x1fh1\x1f\n";
    let r = get_log(2, 0, None, |_args| Ok(out.to_string()));
    let entries = r.unwrap();
    assert_eq!(entries.len(), 2);
    assert_eq!(entries[0].hash, "h1");
    assert_eq!(entries[1].parents, vec!["h1".to_string()]);
}

#[test]
fn get_log_receives_its_own_arguments() {
    let r = get_log(3, 9, Some("dev"), |args: Vec<String>| {
        assert_eq!(
            args,
            vec![
                "log".to_string(),
                "-3".to_string(),
                "--skip=9".to_string(),
                FORMAT_ARG.to_string(),
                "--graph".to_string(),
                "dev".to_string(),
            ]
        );
        Ok(String::new())
    });
    assert_eq!(r.unwrap().len(), 0);
}

#[test]
fn recent_commits_equal_log_with_defaults() {
    let out = "* h1\x1fs1\x1fone\x1fme\x1fnow\x1fiso\x1f\x1fmain\n";
    for n in 1..5usize {
        let a = get_recent_commits(n, |_args| Ok(out.to_string())).unwrap();
        let b = get_log(n, 0, None, |_args| Ok(out.to_string())).unwrap();
        assert_eq!(a.len(), b.len());
        assert_eq!(a[0].hash, b[0].hash);
        assert_eq!(a[0].refs, b[0].refs);
        assert_eq!(a[0].graph, b[0].graph);
    }
}

#[test]
fn recent_commits_send_same_arguments_as_log() {
    let mut from_recent: Vec<String> = Vec::new();
    let r = get_recent_commits(4, |args: Vec<String>| {
        from_recent = args;
        Ok(String::new())
    });
    assert!(r.is_ok());
    let mut from_log: Vec<String> = Vec::new();
    let r = get_log(4, 0, None, |args: Vec<String>| {
        from_log = args;
        Ok(String::new())
    });
    assert!(r.is_ok());
    assert_eq!(from_recent, from_log);
}

#[test]
fn commit_count_parses_trimmed_number() {
    let r = commit_count(|_args| Ok("  42\n".to_string()));
    assert_eq!(r.unwrap(), 42);
}

#[test]
fn commit_count_defaults_to_zero_on_bad_text() {
    let r = commit_count(|_args| Ok("not a number".to_string()));
    assert_eq!(r.unwrap(), 0);
    let r = commit_count(|_args| Ok(String::new()));
    assert_eq!(r.unwrap(), 0);
}

#[test]
fn commit_count_requests_reachable_head_count() {
    let r = commit_count(|args: Vec<String>| {
        assert_eq!(args, vec!["rev-list".to_string(), "--count".to_string(), "HEAD".to_string()]);
        Ok("7".to_string())
    });
    assert_eq!(r.unwrap(), 7);
}

#[test]
fn search_keeps_only_matching_messages() {
    let out = "h1\x1fs1\x1ffeat: add login page\x1fme\x1fnow\x1fiso\x1f\x1f\nh2\x1fs2\x1ffix: typo\x1fme\x1fnow\x1fiso\x1fh1\x1f\nh3\x1fs3\x1fLOGIN rework\x1fme\x1fnow\x1fiso\x1fh2\x1f\n";
    let r = search_commits("login", 10, |_args| Ok(out.to_string()));
    let entries = r.unwrap();
    assert_eq!(entries.len(), 2);
    assert_eq!(entries[0].hash, "h1");
    assert_eq!(entries[1].hash, "h3");
}

#[test]
fn search_is_case_insensitive_both_ways() {
    let out = "h1\x1fs1\x1fFIX crash\x1fme\x1fnow\x1fiso\x1f\x1f\n";
    let r = search_commits("fix", 5, |_args| Ok(out.to_string()));
    assert_eq!(r.unwrap().len(), 1);
    let r = search_commits("FiX", 5, |_args| Ok(out.to_string()));
    assert_eq!(r.unwrap().len(), 1);
    let r = search_commits("feat", 5, |_args| Ok(out.to_string()));
    assert_eq!(r.unwrap().len(), 0);
}

#[test]
fn empty_query_matches_every_entry() {
    let out = "h1\x1fs1\x1fanything\x1fme\x1fnow\x1fiso\x1f\x1f\n";
    let r = search_commits("", 5, |_args| Ok(out.to_string()));
    assert_eq!(r.unwrap().len(), 1);
}

#[test]
fn invoker_failure_propagates_from_every_query() {
    let r = get_log(1, 0, None, |_args| Err("boom".to_string()));
    assert_eq!(r.unwrap_err().message, "boom");
    let r = get_recent_commits(1, |_args| Err("boom".to_string()));
    assert_eq!(r.unwrap_err().message, "boom");
    let r = search_commits("q", 1, |_args| Err("boom".to_string()));
    assert_eq!(r.unwrap_err().message, "boom");
    let r = commit_count(|_args| Err("boom".to_string()));
    assert_eq!(r.unwrap_err().message, "boom");
}
