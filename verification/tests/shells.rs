use pfauterminal::shells::{
    detect_shells_from, file_name, is_known_shell, probe_paths, shell_file_entries,
    windows_shells_from,
};

fn chars(s: &str) -> Vec<char> {
    s.chars().collect()
}

fn name(s: &str) -> Option<String> {
    file_name(&chars(s)).map(|v| v.into_iter().collect())
}

fn pairs(v: &[(&str, &str)]) -> Vec<(String, String)> {
    v.iter().map(|(a, b)| (a.to_string(), b.to_string())).collect()
}

fn existing(v: &[&str]) -> Vec<String> {
    v.iter().map(|s| s.to_string()).collect()
}

#[test]
fn file_names_like_path() {
    assert_eq!(name("/bin/zsh"), Some("zsh".to_string()));
    assert_eq!(name("/usr/local/bin/fish/"), Some("fish".to_string()));
    assert_eq!(name("/bin/bash/."), Some("bash".to_string()));
    assert_eq!(name("nu"), Some("nu".to_string()));
    assert_eq!(name("/"), None);
    assert_eq!(name(""), None);
    assert_eq!(name("."), None);
    assert_eq!(name("/usr/.."), None);
}

#[test]
fn known_shell_names() {
    assert!(is_known_shell(&chars("zsh")));
    assert!(is_known_shell(&chars("pwsh")));
    assert!(!is_known_shell(&chars("tcsh")));
    assert!(!is_known_shell(&chars("")));
}

#[test]
fn shell_file_entries_skip_comments_and_blanks() {
    let e = shell_file_entries("# List of shells\n/bin/sh\n\n  /bin/zsh  \n#/bin/csh\n/usr/bin/fish");
    let e: Vec<String> = e.into_iter().map(|v| v.into_iter().collect()).collect();
    assert_eq!(e, vec!["/bin/sh", "/bin/zsh", "/usr/bin/fish"]);
}

#[test]
fn login_shell_first_then_etc_shells() {
    let etc = "/bin/sh\n/bin/bash\n/usr/bin/zsh\n/bin/zsh\n/usr/bin/tcsh\n";
    let found = detect_shells_from(
        Some("/usr/bin/zsh"),
        Some(etc),
        &existing(&["/usr/bin/zsh", "/bin/sh", "/bin/bash", "/bin/zsh", "/usr/bin/tcsh"]),
    );
    assert_eq!(
        found,
        pairs(&[("Default (zsh)", "/usr/bin/zsh"), ("sh", "/bin/sh"), ("bash", "/bin/bash")])
    );
}

#[test]
fn missing_paths_are_skipped() {
    let found = detect_shells_from(None, Some("/bin/bash\n/usr/bin/bash\n"), &existing(&["/usr/bin/bash"]));
    assert_eq!(found, pairs(&[("bash", "/usr/bin/bash")]));
}

#[test]
fn fallback_candidates_when_nothing_listed() {
    let found = detect_shells_from(
        Some("/opt/missing/zsh"),
        None,
        &existing(&["/usr/local/bin/zsh", "/bin/bash", "/usr/bin/bash", "/bin/sh"]),
    );
    assert_eq!(
        found,
        pairs(&[("zsh", "/usr/local/bin/zsh"), ("bash", "/bin/bash"), ("sh", "/bin/sh")])
    );
}

#[test]
fn last_resort_is_bin_sh() {
    assert_eq!(detect_shells_from(None, Some(""), &[]), pairs(&[("sh", "/bin/sh")]));
}

#[test]
fn login_shell_without_name() {
    let found = detect_shells_from(Some("/"), None, &existing(&["/"]));
    assert_eq!(found, pairs(&[("Default (shell)", "/")]));
}

#[test]
fn probe_list_covers_every_candidate() {
    let p = probe_paths(Some("/bin/zsh"), Some("#c\n/bin/dash\n"));
    assert_eq!(p[0], "/bin/zsh");
    assert_eq!(p[1], "/bin/dash");
    assert!(p.contains(&"/usr/local/bin/pwsh".to_string()));
    assert_eq!(p.len(), 2 + 13);
}

#[test]
fn windows_shell_choice() {
    let all = windows_shells_from(
        Some("C:\\Windows\\system32\\cmd.exe"),
        Some("  C:\\Program Files\\PowerShell\\7\\pwsh.exe\r"),
        Some("C:\\Windows\\System32\\WindowsPowerShell\\v1.0\\powershell.exe"),
        Some("C:\\Windows\\System32\\cmd.exe"),
        (false, true),
    );
    assert_eq!(
        all,
        pairs(&[
            ("Default (cmd)", "C:\\Windows\\system32\\cmd.exe"),
            ("PowerShell", "C:\\Program Files\\PowerShell\\7\\pwsh.exe"),
            ("Windows PowerShell", "C:\\Windows\\System32\\WindowsPowerShell\\v1.0\\powershell.exe"),
            ("Git Bash", "C:\\Program Files (x86)\\Git\\bin\\bash.exe"),
        ])
    );
    let no_comspec = windows_shells_from(None, None, None, Some("C:\\W\\cmd.exe"), (true, true));
    assert_eq!(
        no_comspec,
        pairs(&[("Command Prompt", "C:\\W\\cmd.exe"), ("Git Bash", "C:\\Program Files\\Git\\bin\\bash.exe")])
    );
    assert_eq!(windows_shells_from(None, None, None, None, (false, false)), pairs(&[("cmd", "cmd.exe")]));
}
