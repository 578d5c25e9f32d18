use bandwith::paths::{app_dir_under, config_path, data_dir, db_path};

#[test]
fn data_dir_ends_with_bandwith() {
    assert!(data_dir().ends_with("bandwith"));
}

#[test]
fn db_path_is_under_data_dir() {
    assert!(db_path().starts_with(&data_dir()));
}

#[test]
fn paths_join_under_base() {
    let d = app_dir_under(None);
    assert_eq!(d.base, b".".to_vec());
    assert_eq!(d.parts, vec!["bandwith".to_string()]);
    let c = app_dir_under(Some(b"/home/u/.local/share".to_vec())).join("config.toml");
    assert_eq!(c.base, b"/home/u/.local/share".to_vec());
    let odd = app_dir_under(Some(vec![b'/', 0xff, 0xfe]));
    assert_eq!(odd.base, vec![b'/', 0xff, 0xfe]);
    assert!(odd.join("bandwith.db").starts_with(&odd));
    assert_eq!(c.parts, vec!["bandwith".to_string(), "config.toml".to_string()]);
    assert!(c.ends_with("config.toml"));
    assert!(!c.ends_with("bandwith"));
    assert!(!d.starts_with(&c));
    assert!(!app_dir_under(Some(b"/x".to_vec())).starts_with(&d));
    assert!(config_path().ends_with("config.toml"));
    assert_eq!(config_path().parts, vec!["bandwith".to_string(), "config.toml".to_string()]);
}
