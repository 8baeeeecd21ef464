use rotepad::config::{config_field, config_with_field, table_with_field, ConfigError};
use rotepad::recent::{
    push_recent, read_recent_files, recent_files_after_open, recent_files_value, recent_menu, MenuPlan,
    RecentEntry, RecentFiles, RECENT_FILES_FIELD, RECENT_FILES_LIMIT,
};

fn paths(v: &[RecentEntry]) -> Vec<Option<String>> {
    v.iter()
        .map(|e| match e {
            RecentEntry::Path(p) => Some(p.clone()),
            RecentEntry::Other(_) => None,
        })
        .collect()
}

fn entries(ps: &[&str]) -> Vec<RecentEntry> {
    ps.iter().map(|p| RecentEntry::Path(p.to_string())).collect()
}

fn some(ps: &[&str]) -> Vec<Option<String>> {
    ps.iter().map(|p| Some(p.to_string())).collect()
}

#[test]
fn push_recent_moves_path_to_front() {
    let r = push_recent(entries(&["/a", "/b", "/c"]), "/b".to_string());
    assert_eq!(paths(&r), some(&["/b", "/a", "/c"]));
    let r = push_recent(entries(&["/a", "/b"]), "/z".to_string());
    assert_eq!(paths(&r), some(&["/z", "/a", "/b"]));
}

#[test]
fn push_recent_drops_every_older_copy() {
    let r = push_recent(entries(&["/a", "/b", "/a", "/a"]), "/a".to_string());
    assert_eq!(paths(&r), some(&["/a", "/b"]));
}

#[test]
fn push_recent_keeps_at_most_fifteen() {
    let many: Vec<String> = (0..20).map(|i| format!("/f{}", i)).collect();
    let refs: Vec<&str> = many.iter().map(|s| s.as_str()).collect();
    let r = push_recent(entries(&refs), "/new".to_string());
    assert_eq!(RECENT_FILES_LIMIT, 15);
    assert_eq!(r.len(), 15);
    assert_eq!(paths(&r)[0], Some("/new".to_string()));
    assert_eq!(paths(&r)[14], Some("/f13".to_string()));
}

#[test]
fn push_recent_twice_is_push_once() {
    let once = push_recent(entries(&["/a", "/b", "/c"]), "/c".to_string());
    let p1 = paths(&once);
    let twice = push_recent(once, "/c".to_string());
    assert_eq!(paths(&twice), p1);
}

#[test]
fn push_recent_keeps_other_values() {
    let list = vec![
        RecentEntry::Path("/a".to_string()),
        RecentEntry::Other(toml::Value::Integer(3)),
        RecentEntry::Path("/b".to_string()),
    ];
    let r = push_recent(list, "/b".to_string());
    assert_eq!(paths(&r), vec![Some("/b".to_string()), Some("/a".to_string()), None]);
    match &r[2] {
        RecentEntry::Other(v) => assert_eq!(v, &toml::Value::Integer(3)),
        RecentEntry::Path(_) => panic!("expected the integer to stay"),
    }
}

#[test]
fn missing_list_starts_with_the_path() {
    let r = recent_files_after_open(RecentFiles::Missing, "/x".to_string()).unwrap();
    assert_eq!(paths(&r), some(&["/x"]));
    assert!(recent_files_after_open(RecentFiles::NotAList, "/x".to_string()).is_none());
    let r = recent_files_after_open(RecentFiles::List(entries(&["/y", "/x"])), "/x".to_string()).unwrap();
    assert_eq!(paths(&r), some(&["/x", "/y"]));
}

#[test]
fn read_recent_files_sorts_values() {
    assert!(matches!(read_recent_files(None), RecentFiles::Missing));
    assert!(matches!(read_recent_files(Some(toml::Value::Boolean(true))), RecentFiles::NotAList));
    let v = toml::Value::Array(vec![
        toml::Value::String("/a".to_string()),
        toml::Value::Integer(1),
        toml::Value::String("/b".to_string()),
    ]);
    match read_recent_files(Some(v.clone())) {
        RecentFiles::List(l) => {
            assert_eq!(paths(&l), vec![Some("/a".to_string()), None, Some("/b".to_string())]);
            assert_eq!(recent_files_value(l), v);
        }
        _ => panic!("expected a list"),
    }
}

#[test]
fn menu_places_paths_at_their_index() {
    let list = vec![
        RecentEntry::Path("/a".to_string()),
        RecentEntry::Other(toml::Value::Integer(3)),
        RecentEntry::Path("/b".to_string()),
    ];
    match recent_menu(RecentFiles::List(list)) {
        MenuPlan::Replace(items) => {
            let got: Vec<(usize, String)> = items.into_iter().map(|e| (e.position, e.path)).collect();
            assert_eq!(got, vec![(0, "/a".to_string()), (2, "/b".to_string())]);
        }
        _ => panic!("expected a new menu"),
    }
    assert!(matches!(recent_menu(RecentFiles::Missing), MenuPlan::Placeholder));
    assert!(matches!(recent_menu(RecentFiles::NotAList), MenuPlan::Keep));
}

#[test]
fn config_field_reads_a_document() {
    assert!(matches!(config_field(None, RECENT_FILES_FIELD), Ok(None)));
    let text = "recent_files = [\"/a\", \"/b\"]\nother = 1\n";
    let v = config_field(Some(text), "recent_files").unwrap().unwrap();
    assert_eq!(v, toml::Value::Array(vec![toml::Value::String("/a".into()), toml::Value::String("/b".into())]));
    assert!(matches!(config_field(Some(text), "missing"), Ok(None)));
    assert!(matches!(config_field(Some("recent_files = ["), "recent_files"), Err(ConfigError::Unparsable)));
}

#[test]
fn config_with_field_writes_a_document() {
    let text = config_with_field(None, "recent_files", toml::Value::Array(vec![toml::Value::String("/a".into())])).unwrap();
    let back = config_field(Some(&text), "recent_files").unwrap().unwrap();
    assert_eq!(back, toml::Value::Array(vec![toml::Value::String("/a".into())]));
    let text2 = config_with_field(Some("theme = \"dark\"\n"), "recent_files", toml::Value::Integer(2)).unwrap();
    assert_eq!(config_field(Some(&text2), "theme").unwrap(), Some(toml::Value::String("dark".into())));
    assert_eq!(config_field(Some(&text2), "recent_files").unwrap(), Some(toml::Value::Integer(2)));
    assert_eq!(config_with_field(Some("= broken"), "x", toml::Value::Integer(1)), Err(ConfigError::Unparsable));
}

#[test]
fn table_with_field_adds_the_key() {
    let t = table_with_field(Some("a = 1\n"), "b", toml::Value::Integer(2)).unwrap();
    assert_eq!(t.len(), 2);
    assert!(t.contains_key("a") && t.contains_key("b"));
    assert!(matches!(table_with_field(Some("a ="), "b", toml::Value::Integer(2)), Err(ConfigError::Unparsable)));
}

#[test]
fn opening_a_file_updates_the_stored_list() {
    let config = "recent_files = [\"/one\", \"/two\"]\n";
    let field = config_field(Some(config), RECENT_FILES_FIELD).unwrap();
    let list = recent_files_after_open(read_recent_files(field), "/two".to_string()).unwrap();
    let new_config = config_with_field(Some(config), RECENT_FILES_FIELD, recent_files_value(list)).unwrap();
    let reread = config_field(Some(&new_config), RECENT_FILES_FIELD).unwrap();
    match read_recent_files(reread) {
        RecentFiles::List(l) => assert_eq!(paths(&l), some(&["/two", "/one"])),
        _ => panic!("expected a list"),
    }
}

#[test]
fn entry_from_uses_the_text_when_there_is_one() {
    match rotepad::recent::entry_from(toml::Value::String("/p".into()), Some("/p".to_string())) {
        RecentEntry::Path(p) => assert_eq!(p, "/p"),
        RecentEntry::Other(_) => panic!("expected a path"),
    }
    match rotepad::recent::entry_from(toml::Value::Integer(4), None) {
        RecentEntry::Other(v) => assert_eq!(v, toml::Value::Integer(4)),
        RecentEntry::Path(_) => panic!("expected the value"),
    }
}

#[test]
fn config_with_field_replaces_only_that_field() {
    let start = "a = 1\nrecent_files = [\"/old\"]\nb = \"x\"\n";
    let text = config_with_field(Some(start), "recent_files", toml::Value::Array(vec![])).unwrap();
    assert_eq!(config_field(Some(&text), "recent_files").unwrap(), Some(toml::Value::Array(vec![])));
    assert_eq!(config_field(Some(&text), "a").unwrap(), Some(toml::Value::Integer(1)));
    assert_eq!(config_field(Some(&text), "b").unwrap(), Some(toml::Value::String("x".into())));
    let t = table_with_field(Some(start), "a", toml::Value::Integer(5)).unwrap();
    assert_eq!(t.len(), 3);
    assert_eq!(t.get("a"), Some(&toml::Value::Integer(5)));
}
