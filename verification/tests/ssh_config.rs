use pfauterminal::ssh_config::{parse_ssh_config, SshHostEntry};

#[test]
fn parse_basic_config() {
    let config = r#"
Host myserver
    HostName 192.168.1.100
    User admin
    Port 2222
    IdentityFile ~/.ssh/id_ed25519

Host *
    ServerAliveInterval 60

Host dev
    HostName dev.example.com
    User deploy
"#;
    let entries = parse_ssh_config(config);
    assert_eq!(entries.len(), 2);

    assert_eq!(entries[0].alias, "myserver");
    assert_eq!(entries[0].hostname.as_deref(), Some("192.168.1.100"));
    assert_eq!(entries[0].user.as_deref(), Some("admin"));
    assert_eq!(entries[0].port, Some(2222));

    assert_eq!(entries[1].alias, "dev");
    assert_eq!(entries[1].hostname.as_deref(), Some("dev.example.com"));
    assert_eq!(entries[1].user.as_deref(), Some("deploy"));
    assert_eq!(entries[1].port, None);
}

#[test]
fn display_label_formats() {
    let entry = SshHostEntry {
        alias: "myserver".to_string(),
        hostname: Some("192.168.1.100".to_string()),
        user: Some("admin".to_string()),
        port: Some(2222),
        identity_file: None,
    };
    assert_eq!(entry.display_label(), "myserver (admin@192.168.1.100:2222)");

    let entry2 = SshHostEntry {
        alias: "example.com".to_string(),
        hostname: Some("example.com".to_string()),
        user: Some("root".to_string()),
        port: None,
        identity_file: None,
    };
    assert_eq!(entry2.display_label(), "root@example.com");
}

#[test]
fn wildcard_hosts_are_not_listed() {
    let entries = parse_ssh_config("Host *\n  User x\nHost web?\nHost *.corp\nhost Real\n  hostname 10.0.0.5\n  PORT 2022\n");
    assert_eq!(entries.len(), 1);
    assert_eq!(entries[0].alias, "Real");
    assert_eq!(entries[0].hostname.as_deref(), Some("10.0.0.5"));
    assert_eq!(entries[0].port, Some(2022));
    assert_eq!(entries[0].effective_host(), "10.0.0.5");
    assert_eq!(entries[0].effective_port(), 2022);
}

#[test]
fn keywords_before_any_host_are_ignored() {
    let entries = parse_ssh_config("User nobody\n# comment\n\nHost a\nPort nope\nIdentityFile ~/.ssh/a\n");
    assert_eq!(entries.len(), 1);
    assert_eq!(entries[0].user, None);
    assert_eq!(entries[0].port, None);
    assert_eq!(entries[0].identity_file.as_deref(), Some("~/.ssh/a"));
    assert_eq!(entries[0].effective_port(), 22);
    assert_eq!(entries[0].effective_host(), "a");
}

#[test]
fn keyword_case_does_not_change_the_entries() {
    let a = parse_ssh_config("Host web\n  HostName 10.0.0.1\n  Port 2200\n  User deploy\n  IdentityFile ~/.ssh/web\n");
    let b = parse_ssh_config("HOST web\n  hostname 10.0.0.1\n  PORT 2200\n  uSeR deploy\n  IDENTITYFILE ~/.ssh/web\n");
    assert_eq!(a.len(), 1);
    assert_eq!(b.len(), 1);
    assert_eq!(a[0].alias, b[0].alias);
    assert_eq!(a[0].hostname, b[0].hostname);
    assert_eq!(a[0].port, b[0].port);
    assert_eq!(a[0].user, b[0].user);
    assert_eq!(a[0].identity_file, b[0].identity_file);
    assert_eq!(b[0].port, Some(2200));
}
