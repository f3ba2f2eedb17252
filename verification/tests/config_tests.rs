use memwatchdog::config::{usage_text, ArgAction, Config, SelectionPolicy, Whitelist};

fn args(list: &[&str]) -> Vec<String> {
    list.iter().map(|s| s.to_string()).collect()
}

#[test]
fn default_settings() {
    let c = Config::default();
    assert_eq!(c.critical_threshold_mb, 200);
    assert_eq!(c.warning_threshold_mb, 500);
    assert_eq!(c.interval_ms, 200);
    assert_eq!(c.grace_ms, 1000);
    assert_eq!(c.policy, SelectionPolicy::HighestRss);
    assert!(!c.verbose);
    assert!(!c.dry_run);
    assert!(!c.notify);
}

#[test]
fn default_whitelist_is_lowercase() {
    let c = Config::default();
    assert_eq!(c.whitelist.len(), 22);
    for name in [
        "systemd", "init", "sshd", "xorg", "xwayland", "hyprland", "kwin", "mutter",
        "gnome-shell", "sway", "dbus-daemon", "dbus-broker", "pipewire", "wireplumber",
        "antigravity", "agy", "bash", "zsh", "fish", "tmux", "screen", "memwatchdog",
    ] {
        assert!(c.whitelist.contains(name), "{} should be protected", name);
    }
    assert!(!c.whitelist.contains("Xorg"));
    assert!(!c.whitelist.contains("firefox"));
}

#[test]
fn whitelist_insert_ignores_duplicates() {
    let mut w = Whitelist::new();
    assert_eq!(w.len(), 0);
    assert!(w.insert("firefox".to_string()));
    assert!(!w.insert("firefox".to_string()));
    assert!(w.insert("chrome".to_string()));
    assert_eq!(w.len(), 2);
    assert!(w.contains("firefox"));
    assert!(!w.contains("blender"));
}

#[test]
fn readme_config_file() {
    let mut c = Config::default();
    c.load_config_str(
        "threshold_mb=200\nwarning_threshold_mb=500\ninterval_ms=200\ngrace_ms=1000\nnotify=true\nexclude=firefox,chrome,blender\n",
    );
    assert_eq!(c.critical_threshold_mb, 200);
    assert_eq!(c.warning_threshold_mb, 500);
    assert_eq!(c.interval_ms, 200);
    assert_eq!(c.grace_ms, 1000);
    assert!(c.notify);
    assert!(c.whitelist.contains("firefox"));
    assert!(c.whitelist.contains("chrome"));
    assert!(c.whitelist.contains("blender"));
    assert_eq!(c.whitelist.len(), 25);
}

#[test]
fn config_file_keys_values_and_comments() {
    let mut c = Config::default();
    c.load_config_str(
        "# a comment\n\n   THRESHOLD_MB  =  300  \r\nwarning_threshold_mb=abc\n  # threshold_mb=1\nno equals sign\ninterval_ms=+50\ngrace_ms = 7 = 8\nunknown=5\n",
    );
    assert_eq!(c.critical_threshold_mb, 300);
    assert_eq!(c.warning_threshold_mb, 500);
    assert_eq!(c.interval_ms, 50);
    assert_eq!(c.grace_ms, 1000);
}

#[test]
fn config_file_notify_values() {
    let mut c = Config::default();
    c.load_config_str("notify=TRUE");
    assert!(c.notify);
    c.load_config_str("notify=yes");
    assert!(!c.notify);
    c.load_config_str("notify = 1");
    assert!(c.notify);
    c.load_config_str("notify=0");
    assert!(!c.notify);
    c.load_config_str("notify=True\nnotify=false");
    assert!(!c.notify);
}

#[test]
fn config_file_exclude_items_are_trimmed_and_lowercased() {
    let mut c = Config::default();
    c.load_config_str("exclude= Firefox , ,Blender,,\nexclude=STEAM");
    assert!(c.whitelist.contains("firefox"));
    assert!(c.whitelist.contains("blender"));
    assert!(c.whitelist.contains("steam"));
    assert!(!c.whitelist.contains(""));
    assert_eq!(c.whitelist.len(), 25);
}

#[test]
fn config_file_later_lines_override() {
    let mut c = Config::default();
    c.load_config_str("threshold_mb=100\nthreshold_mb=150");
    assert_eq!(c.critical_threshold_mb, 150);
    c.load_config_str("threshold_mb=99999999999999999999");
    assert_eq!(c.critical_threshold_mb, 150);
}

#[test]
fn config_line_directly() {
    let mut c = Config::default();
    c.apply_config_line(&"grace_ms=250".chars().collect());
    assert_eq!(c.grace_ms, 250);
    c.apply_config_line(&"#grace_ms=1".chars().collect());
    assert_eq!(c.grace_ms, 250);
}

#[test]
fn args_numeric_options() {
    let mut c = Config::default();
    let a = args(&["memwatchdog", "-t", "100", "--warning-threshold", "300", "-i", "50", "--grace", "20", "-m", "64"]);
    assert_eq!(c.apply_arg(&a, 1), ArgAction::Next(3));
    assert_eq!(c.apply_arg(&a, 3), ArgAction::Next(5));
    assert_eq!(c.apply_arg(&a, 5), ArgAction::Next(7));
    assert_eq!(c.apply_arg(&a, 7), ArgAction::Next(9));
    assert_eq!(c.apply_arg(&a, 9), ArgAction::Next(11));
    assert_eq!(c.critical_threshold_mb, 100);
    assert_eq!(c.warning_threshold_mb, 300);
    assert_eq!(c.interval_ms, 50);
    assert_eq!(c.grace_ms, 20);
    assert_eq!(c.policy, SelectionPolicy::MinRssThreshold(64));
}

#[test]
fn args_bad_or_missing_value() {
    let mut c = Config::default();
    let a = args(&["memwatchdog", "--threshold", "abc", "-t"]);
    assert_eq!(c.apply_arg(&a, 1), ArgAction::Next(3));
    assert_eq!(c.critical_threshold_mb, 200);
    assert_eq!(c.apply_arg(&a, 3), ArgAction::Next(4));
    assert_eq!(c.critical_threshold_mb, 200);
    let b = args(&["memwatchdog", "-m", "-5"]);
    assert_eq!(c.apply_arg(&b, 1), ArgAction::Next(3));
    assert_eq!(c.policy, SelectionPolicy::HighestRss);
}

#[test]
fn args_flags_and_exclude() {
    let mut c = Config::default();
    let a = args(&["memwatchdog", "-n", "--dry-run", "-v", "-e", "Firefox", "--exclude", "CHROME", "-e"]);
    assert_eq!(c.apply_arg(&a, 1), ArgAction::Next(2));
    assert_eq!(c.apply_arg(&a, 2), ArgAction::Next(3));
    assert_eq!(c.apply_arg(&a, 3), ArgAction::Next(4));
    assert_eq!(c.apply_arg(&a, 4), ArgAction::Next(6));
    assert_eq!(c.apply_arg(&a, 6), ArgAction::Next(8));
    assert_eq!(c.apply_arg(&a, 8), ArgAction::Next(9));
    assert!(c.notify);
    assert!(c.dry_run);
    assert!(c.verbose);
    assert!(c.whitelist.contains("firefox"));
    assert!(c.whitelist.contains("chrome"));
    assert_eq!(c.whitelist.len(), 24);
}

#[test]
fn args_config_help_unknown() {
    let mut c = Config::default();
    let a = args(&["memwatchdog", "-c", "/tmp/x.conf", "--config", "--help", "-h", "--bogus"]);
    assert_eq!(c.apply_arg(&a, 1), ArgAction::LoadConfig { path_index: 2, next: 3 });
    assert_eq!(c.apply_arg(&a, 3), ArgAction::LoadConfig { path_index: 4, next: 5 });
    assert_eq!(c.apply_arg(&a, 4), ArgAction::ShowHelp);
    assert_eq!(c.apply_arg(&a, 5), ArgAction::ShowHelp);
    assert_eq!(c.apply_arg(&a, 6), ArgAction::Unknown);
    let b = args(&["memwatchdog", "--config"]);
    assert_eq!(c.apply_arg(&b, 1), ArgAction::Next(2));
}

#[test]
fn usage_and_paths() {
    let u = usage_text("memwatchdog");
    assert!(u.starts_with("Usage: memwatchdog [OPTIONS]\n\nOptions:\n"));
    assert!(u.contains("  -c, --config <file>          Load custom configuration file\n"));
    assert!(u.contains("  -t, --threshold <MB>         Critical free memory threshold in MB (default: 200)\n"));
    assert!(u.ends_with("  -h, --help                   Show help message\n"));
    assert_eq!(u.lines().count(), 14);
    assert_eq!(Config::user_config_path("/home/me"), "/home/me/.config/memwatchdog.conf");
    assert_eq!(Config::system_config_path(), "/etc/memwatchdog.conf");
}

#[test]
fn min_rss_requirement_of_policies() {
    assert_eq!(SelectionPolicy::HighestRss.min_rss_requirement(), 0);
    assert_eq!(SelectionPolicy::MinRssThreshold(100).min_rss_requirement(), 100);
}

fn same_settings(a: &Config, b: &Config, names: &[&str]) {
    assert_eq!(a.critical_threshold_mb, b.critical_threshold_mb);
    assert_eq!(a.warning_threshold_mb, b.warning_threshold_mb);
    assert_eq!(a.interval_ms, b.interval_ms);
    assert_eq!(a.grace_ms, b.grace_ms);
    assert_eq!(a.notify, b.notify);
    assert_eq!(a.whitelist.len(), b.whitelist.len());
    for n in names {
        assert_eq!(a.whitelist.contains(n), b.whitelist.contains(n));
    }
}

#[test]
fn joined_texts_read_like_two_files() {
    let pairs = [
        ("threshold_mb=1\nexclude=Alpha\r", "threshold_mb=2\nnotify=true"),
        ("grace_ms=5\n", "grace_ms=x\ninterval_ms=9"),
        ("", "exclude=beta"),
        ("notify=1\r\n", ""),
    ];
    for (t1, t2) in pairs {
        let mut joined = Config::default();
        joined.load_config_str(&format!("{}\n{}", t1, t2));
        let mut two = Config::default();
        two.load_config_str(t1);
        two.load_config_str(t2);
        same_settings(&joined, &two, &["alpha", "beta"]);
    }
}

#[test]
fn reading_a_file_twice_is_reading_it_once() {
    let text = "threshold_mb=10\nthreshold_mb=20\nnotify=true\nexclude=a,b\ngrace_ms=3";
    let mut once = Config::default();
    once.load_config_str(text);
    let mut twice = Config::default();
    twice.load_config_str(text);
    twice.load_config_str(text);
    same_settings(&once, &twice, &["a", "b"]);
    assert_eq!(twice.critical_threshold_mb, 20);
}

#[test]
fn later_option_overrides_config_file() {
    let mut c = Config::default();
    c.load_config_str("THRESHOLD_MB=300\ngrace_ms=10");
    assert_eq!(c.critical_threshold_mb, 300);
    let a = args(&["memwatchdog", "--threshold", "120", "-g", "+40"]);
    assert_eq!(c.apply_arg(&a, 1), ArgAction::Next(3));
    assert_eq!(c.apply_arg(&a, 3), ArgAction::Next(5));
    assert_eq!(c.critical_threshold_mb, 120);
    assert_eq!(c.grace_ms, 40);
}
