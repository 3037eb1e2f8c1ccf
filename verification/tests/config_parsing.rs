use pssh::model::{Host, OptionsMap, SshConfig};
use pssh::ssh_config_parser::{parse, parse_host};

fn options_of(pairs: &[(&str, &str)]) -> OptionsMap {
    let mut map = OptionsMap::new();
    for (key, value) in pairs {
        map.insert(key.to_string(), value.to_string());
    }
    map
}

#[test]
fn parse_single_host() {
    let single_host = "Host example_host\n\
            HostName example.com\n\
        	User example_user\n\
        ";

    let expected = Host {
        name: "example_host".to_string(),
        host_name: "example.com".to_string().into(),
        user: "example_user".to_string().into(),
        other: OptionsMap::new(),
    };

    let (_, actual) = parse_host(single_host).unwrap();
    assert_eq!(expected, actual);
}

#[test]
fn parser_skips_comments() {
    let config = "
Host foo
    # This is my comment
    HostName example.com
    #User example_user
    User exampler
        ";

    let expected = SshConfig {
        hosts: vec![Host {
            name: "foo".to_string(),
            host_name: "example.com".to_string().into(),
            user: "exampler".to_string().into(),
            other: OptionsMap::new(),
        }],
        global_options: OptionsMap::new(),
    };

    let actual = parse(config).unwrap();
    assert_eq!(expected, actual);
}

#[test]
fn global_options() {
    let config = "\n\
            StrictHostHeyChecking no\n\
            IdentityFile ~/.ssh/my_identity\n\
        ";

    let expected = SshConfig {
        global_options: options_of(&[
            ("StrictHostHeyChecking", "no"),
            ("IdentityFile", "~/.ssh/my_identity"),
        ]),
        hosts: Vec::new(),
    };

    let actual = parse(config).unwrap();
    assert_eq!(expected, actual);
}

#[test]
fn global_comments() {
    let config = "# StrictHostHeyChecking no
#alamakota

Host foo
    HostName bar
#misformatted comment
    User foobar
    ";

    let expected = SshConfig {
        hosts: vec![Host {
            name: "foo".to_string(),
            host_name: "bar".to_string().into(),
            user: "foobar".to_string().into(),
            ..Default::default()
        }],
        ..Default::default()
    };

    let actual = parse(config).unwrap();
    assert_eq!(expected, actual);
}

#[test]
fn simple_config() {
    let config = "
Host example_host
    HostName example.com
	User example_user

Host subexample 
	HostName 198.0.90.242
	User bob
    Port 9082
    IdentityFile ~/.ssh/subexample.key

";

    let expected = SshConfig {
        global_options: OptionsMap::new(),
        hosts: vec![
            Host {
                name: "example_host".to_string(),
                host_name: "example.com".to_string().into(),
                user: "example_user".to_string().into(),
                other: OptionsMap::new(),
            },
            Host {
                name: "subexample".to_string(),
                host_name: "198.0.90.242".to_string().into(),
                user: "bob".to_string().into(),
                other: options_of(&[
                    ("Port", "9082"),
                    ("IdentityFile", "~/.ssh/subexample.key"),
                ]),
            },
        ],
    };

    let actual = parse(config).unwrap();
    assert_eq!(expected, actual);
}

#[test]
fn empty_input_is_empty_config() {
    let actual = parse("").unwrap();
    assert_eq!(actual, SshConfig::default());
    assert!(actual.hosts.is_empty());
}

#[test]
fn lone_key_is_an_error() {
    assert!(parse("key").is_err());
}

#[test]
fn repeated_option_keeps_last_value() {
    let config = "Host a\n    Port 1\n    Port 2\n";
    let actual = parse(config).unwrap();
    assert_eq!(actual.hosts[0].other, options_of(&[("Port", "2")]));
}

#[test]
fn whitespace_only_input_is_an_error() {
    assert!(parse("   ").is_err());
}

#[test]
fn two_hosts_on_one_line() {
    let actual = parse("Host a Host b").unwrap();
    assert_eq!(actual.hosts.len(), 2);
    assert_eq!(actual.hosts[0].name, "a");
    assert_eq!(actual.hosts[1].name, "b");
}
