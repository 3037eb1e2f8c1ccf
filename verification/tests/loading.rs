use pssh::config::Config;
use pssh::plugins::{classify_probe, error_needs_unload, load_plugins, LoadError, ModuleProbe};

fn resolved() -> ModuleProbe {
    ModuleProbe { load_error: None, inspect_error: None, select_error: None }
}

#[test]
fn loader_resilience() {
    let probes = vec![
        resolved(),
        ModuleProbe { load_error: None, inspect_error: Some(127), select_error: None },
        resolved(),
    ];
    let plan = load_plugins(&probes);
    assert_eq!(plan.loaded, vec![0usize, 2]);
    assert_eq!(plan.failures, vec![(1usize, LoadError::LoadInspectConfigFn(127))]);
}

#[test]
fn loader_with_no_paths() {
    let plan = load_plugins(&Vec::new());
    assert!(plan.loaded.is_empty());
    assert!(plan.failures.is_empty());
}

#[test]
fn classification_order_and_errors() {
    assert_eq!(classify_probe(&resolved()), Ok(()));
    let unloadable = ModuleProbe {
        load_error: Some(126),
        inspect_error: Some(1),
        select_error: Some(2),
    };
    // the library not loading comes before any entry-point report
    assert_eq!(classify_probe(&unloadable), Err(LoadError::OsError(126)));
    let no_select = ModuleProbe { load_error: None, inspect_error: None, select_error: Some(3) };
    assert_eq!(classify_probe(&no_select), Err(LoadError::LoadSshArgsFn(3)));
}

#[test]
fn failed_plugins_with_a_loaded_module_are_unloaded() {
    assert!(!error_needs_unload(&LoadError::OsError(1)));
    assert!(error_needs_unload(&LoadError::LoadInspectConfigFn(1)));
    assert!(error_needs_unload(&LoadError::LoadSshArgsFn(1)));
}

#[test]
fn default_settings() {
    let config = Config::default();
    assert_eq!(config.launcher_cmd, vec!["cmd.exe".to_string(), "/c".to_string()]);
    assert!(config.plugins.is_empty());
}
