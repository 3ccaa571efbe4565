use indexa_server::config::{
    config_location, location_error_message, DatabaseConfig, FlagConfig, IndexaConfig, Opt,
};
use std::path::PathBuf;

fn opt(threads: Option<usize>) -> Opt {
    Opt { addr: "127.0.0.1:8080".to_string(), threads, config: None }
}

#[test]
fn default_threads_leave_one_cpu() {
    assert_eq!(FlagConfig::for_cpus(8).threads, 7);
    assert_eq!(FlagConfig::for_cpus(2).threads, 1);
    assert_eq!(FlagConfig::for_cpus(1).threads, 1);
    assert!(FlagConfig::default().threads >= 1);
}

#[test]
fn option_threads_are_bounded() {
    let mut c = FlagConfig { threads: 3 };
    c.merge_opt_for(&opt(Some(100)), 4);
    assert_eq!(c.threads, 3);
    c.merge_opt_for(&opt(Some(2)), 8);
    assert_eq!(c.threads, 2);
    c.merge_opt_for(&opt(Some(0)), 8);
    assert_eq!(c.threads, 1);
    c.merge_opt_for(&opt(Some(5)), 1);
    assert_eq!(c.threads, 1);
}

#[test]
fn missing_option_keeps_threads() {
    let mut c = FlagConfig { threads: 5 };
    c.merge_opt_for(&opt(None), 2);
    assert_eq!(c.threads, 5);
    c.merge_opt(&opt(None));
    assert_eq!(c.threads, 5);
    c.merge_opt(&opt(Some(1)));
    assert_eq!(c.threads, 1);
}

#[test]
fn database_lies_under_data_dir() {
    let d = DatabaseConfig::in_data_dir(Some(PathBuf::from("/data")));
    assert_eq!(d.location, Some(PathBuf::from("/data/indexa/database.db")));
    assert_eq!(DatabaseConfig::in_data_dir(None).location, None);
    assert!(IndexaConfig::default().flags.threads >= 1);
}

#[test]
fn given_config_location_is_kept() {
    let p = PathBuf::from("/etc/my.toml");
    assert_eq!(config_location(Some(p.clone()), false), Ok(p.clone()));
    assert_eq!(config_location(Some(p.clone()), true), Ok(p));
}

#[test]
fn location_error_text() {
    assert_eq!(
        location_error_message(),
        "Could not determine the location of config file. Please provide the location of config file with -C/--config option."
    );
}
