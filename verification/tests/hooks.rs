use std::collections::HashMap;

use ali::errors::NayiError;
use ali::hooks::{apply_hook, ActionHook, HookPlan};
use ali::quicknet::{parse_quicknet, QuickNet};
use ali::replace_token::{parse, HookReplaceToken, ModeHook, ReplaceToken};

#[test]
fn test_parse_quicknet() {
    let should_pass = vec![
        "@quicknet eth0",
        "@quicknet inf",
        "@quicknet dns 1.1.1.1 eth0",
        "@quicknet eth0 dns 1.1.1.1",
    ];

    let should_err = vec![
        "eth0",
        "@quicknet",
        "@quicknet dns",
        "@quicknet eth0 1.1.1.1 dns",
        "#quickmet eth0 dns",
    ];

    for cmd in should_pass {
        let result = parse_quicknet(cmd);
        if let Err(err) = result {
            panic!("got error from cmd {cmd}: {}", err.message());
        }
    }

    for cmd in should_err {
        let result = parse_quicknet(cmd);
        if let Ok(qn) = result {
            panic!("got ok result from bad arg {cmd}: {}", qn.to_json_string());
        }
    }
}

#[test]
fn test_quicknet_encode() {
    let tests = HashMap::from([
        (
            "@quicknet eth0",
            r#"# Installed by ali-rs hook @quicknet
[Match]
Name=eth0

[Network]
DHCP=yes
"#,
        ),
        (
            "@quicknet eth0 dns 9.9.9.9",
            r#"# Installed by ali-rs hook @quicknet
[Match]
Name=eth0

[Network]
DHCP=yes

# Installed by ali-rs hook @quicknet
DNS=9.9.9.9
"#,
        ),
        (
            "@quicknet dns 8.8.8.8 ens3",
            r#"# Installed by ali-rs hook @quicknet
[Match]
Name=ens3

[Network]
DHCP=yes

# Installed by ali-rs hook @quicknet
DNS=8.8.8.8
"#,
        ),
    ]);

    for (cmd, expected) in tests {
        let qn = parse_quicknet(cmd).unwrap();
        let s = qn.encode_to_string();

        assert_eq!(expected, s);
    }
}

#[test]
fn test_parse_replace_token() {
    let should_pass = vec![
        "@replace-token PORT 3322 /etc/ssh/sshd",
        "@replace-token foo bar https://example.com/template /some/file",
        "@replace-token linux_boot \"loglevel=3 quiet root=/dev/archvg/archlv ro\" /etc/default/grub",
        "@replace-token \"linux boot\" \"loglevel=3 quiet root=/dev/archvg/archlv ro\" /some/template /etc/default/grub",
    ];

    let should_err = vec![
        "PORT 3322 /etc/ssh/sshd",
        "@replace-token PORT",
        "@replace-token PORT 3322",
        "@replace-token PORT \"3322\"",
        "@replace-token PORT \"3322 /some/template",
        "@replace-token PORT \"3322 /some/template /some/output",
    ];

    for cmd in should_pass {
        let result = HookReplaceToken::try_from(cmd);
        if let Err(err) = result {
            panic!("got error from cmd {cmd}: {}", err.message());
        }
    }

    for cmd in should_err {
        let result = HookReplaceToken::try_from(cmd);
        if let Ok(HookReplaceToken {
            rp: qn,
            mode_hook: _,
        }) = result
        {
            panic!("got ok result from bad arg {cmd}: {}", qn.to_json_string());
        }
    }

    let tests = HashMap::from([
        (
            "@replace-token-print PORT 3322 /etc/ssh/sshd",
            ReplaceToken{
                token: String::from("PORT"),
                value: String::from("3322"),
                template: String::from("/etc/ssh/sshd"),
                output: String::from("/etc/ssh/sshd"),
            }
        ),
        (
            "@replace-token linux_boot \"loglevel=3 quiet root=/dev/archvg/archlv ro\" /etc/default/grub",
            ReplaceToken{
                token: String::from("linux_boot"),
                value: String::from("loglevel=3 quiet root=/dev/archvg/archlv ro"),
                template: String::from("/etc/default/grub"),
                output: String::from("/etc/default/grub"),
            },
        ),
        (
            "@replace-token-print \"linux boot\" \"loglevel=3 quiet root=/dev/archvg/archlv ro\" /some/template /etc/default/grub",
            ReplaceToken{
                token: String::from("linux boot"),
                value: String::from("loglevel=3 quiet root=/dev/archvg/archlv ro"),
                template: String::from("/some/template"),
                output: String::from("/etc/default/grub"),
            },
        ),
    ]);

    for (cmd, expected) in tests {
        let actual = HookReplaceToken::try_from(cmd).unwrap();
        assert_eq!(expected, actual.rp);
    }
}

#[test]
fn test_uncomment() {
    let tests = HashMap::from([
        (
            ReplaceToken {
                token: String::from("PORT"),
                value: String::from("3322"),
                template: String::from("/etc/ssh/sshd"),
                output: String::from("/etc/ssh/sshd"),
            },
            ("{{ PORT }} foo bar {{PORT}}", "3322 foo bar {{PORT}}"),
        ),
        (
            ReplaceToken {
                token: String::from("foo"),
                value: String::from("bar"),
                template: String::from("/etc/ssh/sshd"),
                output: String::from("/etc/ssh/sshd"),
            },
            (
                "{{ bar }} {{ foo }} {{ bar }} foo <{{ foo }}>",
                "{{ bar }} bar {{ bar }} foo <bar>",
            ),
        ),
    ]);

    for (replace, (template, expected)) in tests {
        let actual = replace
            .replace(template)
            .expect("failed to replace template {template}");

        assert_eq!(expected, actual);
    }
}

#[test]
fn replace_without_marker_is_refused() {
    let job = ReplaceToken {
        token: String::from("PORT"),
        value: String::from("3322"),
        template: String::from("/etc/ssh/sshd"),
        output: String::from("/etc/ssh/sshd"),
    };
    match job.replace("Port {{PORT}}") {
        Err(NayiError::BadHookCmd(text)) => assert_eq!(
            text,
            "template /etc/ssh/sshd does not contains token \"{{ PORT }}\""
        ),
        other => panic!("unexpected result: {:?}", other),
    }
}

#[test]
fn replace_takes_matches_from_the_left() {
    let job = ReplaceToken {
        token: String::from("x"),
        value: String::from("{{ x }}"),
        template: String::new(),
        output: String::new(),
    };
    assert_eq!(job.replace("{{ x }}{{ x }}").unwrap(), "{{ x }}{{ x }}");
    let inner = ReplaceToken {
        token: String::from("a"),
        value: String::from("-"),
        template: String::new(),
        output: String::new(),
    };
    assert_eq!(inner.replace("{{ a }} a }} {{ a }}!").unwrap(), "- a }} -!");
}

#[test]
fn quicknet_fields_follow_the_keyword() {
    let first = parse_quicknet("  @quicknet \t dns 1.1.1.1\n eth0 ").unwrap();
    assert_eq!(first.interface, "eth0");
    assert_eq!(first.dns_upstream.as_deref(), Some("1.1.1.1"));
    assert!(!first.print_only);
    let second = parse_quicknet("@quicknet-print wlan0 dns 9.9.9.9").unwrap();
    assert_eq!(second.interface, "wlan0");
    assert_eq!(second.dns_upstream.as_deref(), Some("9.9.9.9"));
    assert!(second.print_only);
    assert!(matches!(parse_quicknet("@quicknet a b"), Err(NayiError::BadHookCmd(_))));
}

#[test]
fn quicknet_json_names_both_members() {
    let qn = QuickNet { interface: "eth0".into(), dns_upstream: None, print_only: false };
    assert_eq!(qn.to_json_string(), "{\"dns_upstream\":null,\"interface\":\"eth0\"}");
    let with_dns = QuickNet {
        interface: "en\"0".into(),
        dns_upstream: Some("1.1.1.1".into()),
        print_only: true,
    };
    assert_eq!(
        with_dns.to_json_string(),
        "{\"dns_upstream\":\"1.1.1.1\",\"interface\":\"en\\\"0\"}"
    );
}

#[test]
fn replace_token_json_names_all_members() {
    let job = ReplaceToken {
        token: String::from("PORT"),
        value: String::from("3322"),
        template: String::from("/t"),
        output: String::from("/o"),
    };
    assert_eq!(
        job.to_json_string(),
        "{\"output\":\"/o\",\"template\":\"/t\",\"token\":\"PORT\",\"value\":\"3322\"}"
    );
}

#[test]
fn parse_reads_the_print_mode() {
    let hook = parse("@replace-token-print", "@replace-token-print A 'b c' /t /o").unwrap();
    assert_eq!(hook.mode(), ModeHook::Print);
    assert_eq!(hook.rp.value, "b c");
    assert_eq!(hook.rp.output, "/o");
    assert_eq!(hook.base_key(), "@replace-token");
    assert_eq!(hook.usage(), "<TOKEN> <VALUE> <TEMPLATE> [OUTPUT]");
    assert!(!hook.should_chroot());
    assert!(!hook.abort_if_no_mount());
    assert_eq!(hook.rp.output_location("/"), "/o");
    assert_eq!(hook.rp.output_location("mnt"), "/mnt//o");
}

#[test]
fn apply_hook_plans_the_network_file() {
    let plan = apply_hook("@quicknet dns 1.1.1.1 eth0", false, "/mnt").unwrap();
    match &plan {
        HookPlan::QuickNet { hook, dir, filename, content } => {
            assert_eq!(hook.interface, "eth0");
            assert_eq!(dir, "/mnt/etc/systemd/network");
            assert_eq!(filename, "/mnt/etc/systemd/network/00-quicknet-eth0.conf");
            assert!(content.ends_with("DNS=1.1.1.1\n"));
        }
        other => panic!("unexpected plan: {:?}", other),
    }
    match plan.action() {
        ActionHook::QuickNet(json) => {
            assert_eq!(json, "{\"dns_upstream\":\"1.1.1.1\",\"interface\":\"eth0\"}")
        }
        other => panic!("unexpected action: {:?}", other),
    }
    let inside = apply_hook("@quicknet eth0", true, "/mnt").unwrap();
    match inside {
        HookPlan::QuickNet { dir, .. } => assert_eq!(dir, "//etc/systemd/network"),
        other => panic!("unexpected plan: {:?}", other),
    }
}

#[test]
fn apply_hook_plans_the_template() {
    let plan = apply_hook("@replace-token PORT \"33 22\" /t /o", false, "/mnt").unwrap();
    match &plan {
        HookPlan::ReplaceToken { hook, output } => {
            assert_eq!(hook.rp.value, "33 22");
            assert_eq!(hook.mode_hook, ModeHook::Normal);
            assert_eq!(output, "//mnt//o");
        }
        other => panic!("unexpected plan: {:?}", other),
    }
    assert!(matches!(plan.action(), ActionHook::ReplaceToken(_)));
}

#[test]
fn apply_hook_refuses_each_bad_command_in_its_way() {
    assert!(matches!(apply_hook("  ", false, "/mnt"), Err(NayiError::BadManifest(_))));
    assert!(matches!(apply_hook("@nothing x", false, "/mnt"), Err(NayiError::BadArgs(_))));
    assert!(matches!(apply_hook("@quicknet", false, "/mnt"), Err(NayiError::BadHookCmd(_))));
    assert!(matches!(
        apply_hook("@replace-token PORT", false, "/mnt"),
        Err(NayiError::BadHookCmd(_))
    ));
    assert!(matches!(apply_hook("@uncomment x", false, "/mnt"), Err(NayiError::NotImplemented)));
}
