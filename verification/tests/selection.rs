use pssh::abi::MarshalError;
use pssh::model::{Host, OptionsMap, SshConfig};
use pssh::mutation::HostState;
use pssh::runtime::{resolve_command, selection_step, SelectionOutcome};

fn example_host() -> Host {
    Host {
        name: "example_host".to_string(),
        host_name: None,
        user: None,
        other: OptionsMap::new(),
    }
}

#[test]
fn list_fidelity() {
    let mut st = HostState::new(SshConfig::default());
    let list = st.create_list();
    assert!(st.append_to_list(list, b"cat"));
    assert!(st.append_to_list(list, b"/etc/os-release"));
    let texts = st.take_selection_result(Some(list)).unwrap().unwrap();
    assert_eq!(texts, vec!["cat".to_string(), "/etc/os-release".to_string()]);
}

#[test]
fn returned_list_is_destroyed() {
    let mut st = HostState::new(SshConfig::default());
    let list = st.create_list();
    assert!(st.append_to_list(list, b"a"));
    st.take_selection_result(Some(list)).unwrap();
    // ownership went to the host with the return; the handle is stale now
    assert_eq!(st.take_selection_result(Some(list)), Err(MarshalError::StaleHandle));
    assert!(!st.append_to_list(list, b"b"));
    assert!(!st.destroy_list(list));
}

#[test]
fn null_return_means_no_opinion() {
    let mut st = HostState::new(SshConfig::default());
    assert_eq!(st.take_selection_result(None), Ok(None));
}

#[test]
fn invalid_utf8_rejects_the_override() {
    let mut st = HostState::new(SshConfig::default());
    let list = st.create_list();
    assert!(st.append_to_list(list, b"ok"));
    assert!(st.append_to_list(list, &[0x80, 0x80]));
    assert_eq!(st.take_selection_result(Some(list)), Err(MarshalError::InvalidUtf8));
    // the list still belonged to the host and was destroyed
    assert!(!st.destroy_list(list));
}

#[test]
fn unused_list_can_be_destroyed_once() {
    let mut st = HostState::new(SshConfig::default());
    let list = st.create_list();
    assert!(st.destroy_list(list));
    assert!(!st.destroy_list(list));
}

#[test]
fn selection_fallback() {
    let host = example_host();
    // zero loaded plugins
    assert_eq!(resolve_command(&SelectionOutcome::NoOverride, &host), "ssh example_host");
    // every plugin answering the null sentinel
    let outcome = selection_step(SelectionOutcome::NoOverride, None);
    let outcome = selection_step(outcome, None);
    assert_eq!(outcome, SelectionOutcome::NoOverride);
    assert_eq!(resolve_command(&outcome, &host), "ssh example_host");
}

#[test]
fn last_wins_null_keeps_earlier_override() {
    let first = Some(vec!["a".to_string(), "b".to_string()]);
    let outcome = selection_step(SelectionOutcome::NoOverride, first);
    let outcome = selection_step(outcome, None);
    assert_eq!(
        outcome,
        SelectionOutcome::Override(vec!["a".to_string(), "b".to_string()])
    );
    assert_eq!(resolve_command(&outcome, &example_host()), "a b");
}

#[test]
fn last_wins_later_list_replaces() {
    let first = Some(vec!["a".to_string(), "b".to_string()]);
    let outcome = selection_step(SelectionOutcome::NoOverride, first);
    let outcome = selection_step(outcome, Some(vec!["c".to_string()]));
    assert_eq!(outcome, SelectionOutcome::Override(vec!["c".to_string()]));
    assert_eq!(resolve_command(&outcome, &example_host()), "c");
}

#[test]
fn empty_override_resolves_to_empty_command() {
    let outcome = selection_step(SelectionOutcome::NoOverride, Some(Vec::new()));
    assert_eq!(resolve_command(&outcome, &example_host()), "");
}
