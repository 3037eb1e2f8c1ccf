use pssh::abi;
use pssh::abi::MarshalError;
use pssh::marshal::{decode_host, encode_host};
use pssh::model::{Host, OptionsMap, SshConfig};
use pssh::mutation::HostState;

fn example_host() -> Host {
    Host {
        name: "example_host".to_string(),
        host_name: Some("example.com".to_string()),
        user: Some("example_user".to_string()),
        other: OptionsMap::new(),
    }
}

#[test]
fn round_trip_through_marshalling() {
    let mut st = HostState::new(SshConfig::default());
    let handle = st.create_options_map();
    let host = example_host();
    let record = encode_host(&host, handle);
    assert_eq!(record.name, b"example_host".to_vec());
    assert_eq!(record.host_name, Some(b"example.com".to_vec()));
    assert_eq!(record.user, Some(b"example_user".to_vec()));
    let back = decode_host(&record, &OptionsMap::new()).unwrap();
    assert_eq!(back, example_host());
}

#[test]
fn round_trip_through_the_mutation_api() {
    let mut st = HostState::new(SshConfig::default());
    let handle = st.create_options_map();
    let record = encode_host(&example_host(), handle);
    st.append_host(&record).unwrap();
    assert_eq!(st.config().hosts[0], example_host());
}

#[test]
fn round_trip_multibyte_text() {
    let mut st = HostState::new(SshConfig::default());
    let handle = st.create_options_map();
    let host = Host {
        name: "h\u{e9}te".to_string(),
        host_name: None,
        user: None,
        other: OptionsMap::new(),
    };
    let record = encode_host(&host, handle);
    assert_eq!(record.name, vec![0x68, 0xc3, 0xa9, 0x74, 0x65]);
    let back = decode_host(&record, &OptionsMap::new()).unwrap();
    assert_eq!(back.name, "h\u{e9}te");
}

#[test]
fn decoding_rewrites_nothing() {
    // a record built from raw bytes, not from an encode call
    let mut st = HostState::new(SshConfig::default());
    let handle = st.create_options_map();
    let record = abi::Host {
        name: vec![0xc3, 0xa9],
        host_name: None,
        user: None,
        other: handle,
    };
    st.append_host(&record).unwrap();
    assert_eq!(st.config().hosts[0].name, "\u{e9}");
}

#[test]
fn bounds_remove_out_of_range() {
    let mut st = HostState::new(SshConfig {
        global_options: OptionsMap::new(),
        hosts: vec![example_host()],
    });
    let len = st.hosts_length();
    assert!(!st.remove_host_by_index(len));
    assert_eq!(st.hosts_length(), len);
    assert_eq!(st.config().hosts[0], example_host());
}

#[test]
fn bounds_get_leaves_output_untouched() {
    let mut st = HostState::new(SshConfig {
        global_options: OptionsMap::new(),
        hosts: vec![example_host()],
    });
    let spare = st.create_options_map();
    let mut out = abi::Host {
        name: vec![7, 7],
        host_name: Some(vec![9]),
        user: None,
        other: spare,
    };
    let len = st.hosts_length();
    assert!(!st.get_host_by_index(len, &mut out));
    assert_eq!(out.name, vec![7, 7]);
    assert_eq!(out.host_name, Some(vec![9]));
    assert_eq!(out.user, None);
    assert_eq!(out.other, spare);
}

#[test]
fn append_increases_count_by_one() {
    let mut st = HostState::new(SshConfig {
        global_options: OptionsMap::new(),
        hosts: vec![example_host()],
    });
    let old_count = st.hosts_length();
    // the same calls the observed appending plugin makes
    let handle = st.create_options_map();
    let added = Host {
        name: "Additional".to_string(),
        host_name: Some("plugin.example.com".to_string()),
        user: None,
        other: OptionsMap::new(),
    };
    let record = encode_host(&added, handle);
    st.append_host(&record).unwrap();
    assert!(st.destroy_options_map(handle));
    assert_eq!(st.hosts_length(), old_count + 1);

    let spare = st.create_options_map();
    let mut out = abi::Host { name: Vec::new(), host_name: None, user: None, other: spare };
    assert!(st.get_host_by_index(old_count, &mut out));
    assert_eq!(out.name, b"Additional".to_vec());
    assert_eq!(out.host_name, Some(b"plugin.example.com".to_vec()));
    assert_eq!(out.user, None);
}

#[test]
fn fresh_options_map_is_empty() {
    assert_eq!(OptionsMap::new().len(), 0);
    let mut st = HostState::new(SshConfig::default());
    let handle = st.create_options_map();
    let record = abi::Host { name: vec![b'x'], host_name: None, user: None, other: handle };
    st.append_host(&record).unwrap();
    assert_eq!(st.config().hosts[0].other.len(), 0);
}

#[test]
fn invalid_utf8_rejects_the_append() {
    let mut st = HostState::new(SshConfig::default());
    let handle = st.create_options_map();
    let record = abi::Host {
        name: vec![0xff, 0xfe],
        host_name: None,
        user: None,
        other: handle,
    };
    assert_eq!(st.append_host(&record), Err(MarshalError::InvalidUtf8));
    assert_eq!(st.hosts_length(), 0);
}

#[test]
fn stale_map_handle_rejects_the_append() {
    let mut st = HostState::new(SshConfig::default());
    let handle = st.create_options_map();
    assert!(st.destroy_options_map(handle));
    assert!(!st.destroy_options_map(handle));
    let record = abi::Host { name: vec![b'x'], host_name: None, user: None, other: handle };
    assert_eq!(st.append_host(&record), Err(MarshalError::StaleHandle));
}

#[test]
fn borrowed_view_dies_at_the_next_mutation() {
    let mut st = HostState::new(SshConfig {
        global_options: OptionsMap::new(),
        hosts: vec![example_host()],
    });
    let spare = st.create_options_map();
    let mut out = abi::Host { name: Vec::new(), host_name: None, user: None, other: spare };
    assert!(st.get_host_by_index(0, &mut out));
    let view = out.other;
    // a view is not obtained from the create call, so it cannot be destroyed
    assert!(!st.destroy_options_map(view));
    // appending through the view while it is live is fine
    let record = abi::Host { name: vec![b'y'], host_name: None, user: None, other: view };
    st.append_host(&record).unwrap();
    // ... but the mutation freed it, so a second use is stale
    assert_eq!(st.append_host(&record), Err(MarshalError::StaleHandle));
    // the plugin-owned map survived the mutation
    assert!(st.destroy_options_map(spare));
}

#[test]
fn reading_every_host_back() {
    let second = Host {
        name: "second".to_string(),
        host_name: None,
        user: Some("bob".to_string()),
        other: OptionsMap::new(),
    };
    let mut st = HostState::new(SshConfig {
        global_options: OptionsMap::new(),
        hosts: vec![example_host(), second],
    });
    let spare = st.create_options_map();
    let len = st.hosts_length();
    let mut names = Vec::new();
    for idx in 0..len {
        let mut out = abi::Host { name: Vec::new(), host_name: None, user: None, other: spare };
        assert!(st.get_host_by_index(idx, &mut out));
        names.push(String::from_utf8(out.name).unwrap());
    }
    assert_eq!(names, vec!["example_host".to_string(), "second".to_string()]);
}
