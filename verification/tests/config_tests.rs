use crabsync::config::{
    add_pair, find_pair_by_name, global_config_path_in, local_config_path, remove_pair,
    tag_pairs, ConfigError, Pair, PairSource, RemoveOutcome,
};

fn pair(name: &str, local: &str, remote: &str) -> Pair {
    Pair { name: name.to_string(), local: local.to_string(), remote: remote.to_string() }
}

#[test]
fn config_paths() {
    assert_eq!(local_config_path(), "crabsync.toml");
    assert_eq!(
        global_config_path_in(Some("/home/u".to_string())),
        "/home/u/.config/crabsync/crabsync.toml"
    );
    assert_eq!(
        global_config_path_in(Some("/home/u/".to_string())),
        "/home/u/.config/crabsync/crabsync.toml"
    );
    assert_eq!(global_config_path_in(None), "/tmp/.config/crabsync/crabsync.toml");
    assert_eq!(global_config_path_in(Some(String::new())), ".config/crabsync/crabsync.toml");
}

#[test]
fn local_pairs_shadow_global_ones() {
    let local = vec![pair("myproject", "./data", "user@server:/backup/data")];
    let global = vec![pair("photos", "/p", "nas:/p"), pair("myproject", "/x", "h:/x")];
    let all = tag_pairs(local, global);
    assert_eq!(all.len(), 3);
    assert_eq!(all[0].source, PairSource::Local);
    assert!(!all[0].shadowed);
    assert_eq!(all[1].pair, pair("photos", "/p", "nas:/p"));
    assert_eq!(all[1].source, PairSource::Global);
    assert!(!all[1].shadowed);
    assert_eq!(all[2].source, PairSource::Global);
    assert!(all[2].shadowed);
}

#[test]
fn find_pair_prefers_unshadowed() {
    let local = vec![pair("a", "/la", "r:/a")];
    let global = vec![pair("a", "/ga", "r:/ga"), pair("b", "/gb", "r:/gb")];
    let all = tag_pairs(local, global);
    let found = find_pair_by_name(&all, &"a".to_string()).unwrap();
    assert_eq!(found.source, PairSource::Local);
    assert_eq!(found.pair.local, "/la");
    let found = find_pair_by_name(&all, &"b".to_string()).unwrap();
    assert_eq!(found.pair.local, "/gb");
    assert!(find_pair_by_name(&all, &"c".to_string()).is_none());
}

#[test]
fn add_pair_appends_and_refuses_duplicates() {
    let mut pairs = vec![pair("a", "/a", "r:/a")];
    assert!(add_pair(&mut pairs, "b".into(), "/b".into(), "r:/b".into(), PairSource::Local).is_ok());
    assert_eq!(pairs, vec![pair("a", "/a", "r:/a"), pair("b", "/b", "r:/b")]);
    match add_pair(&mut pairs, "a".into(), "/z".into(), "r:/z".into(), PairSource::Global) {
        Err(e) => {
            assert_eq!(e.message(), "pair 'a' already exists in global config");
            assert!(matches!(e, ConfigError::AlreadyExists { .. }));
        }
        Ok(()) => panic!("duplicate accepted"),
    }
    assert_eq!(pairs.len(), 2);
}

#[test]
fn remove_pair_outcomes() {
    let pairs = vec![pair("a", "/a", "r:/a"), pair("b", "/b", "r:/b")];
    match remove_pair(pairs, &"a".to_string(), PairSource::Local) {
        Ok(RemoveOutcome::Save(kept)) => assert_eq!(kept, vec![pair("b", "/b", "r:/b")]),
        _ => panic!("expected the rest to be saved"),
    }
    match remove_pair(vec![pair("a", "/a", "r:/a")], &"a".to_string(), PairSource::Local) {
        Ok(RemoveOutcome::DeleteFile) => {}
        _ => panic!("expected the file to be deleted"),
    }
    match remove_pair(vec![pair("a", "/a", "r:/a")], &"x".to_string(), PairSource::Global) {
        Err(e) => assert_eq!(e.message(), "pair 'x' not found in global config"),
        Ok(_) => panic!("expected not found"),
    }
}

#[test]
fn add_then_remove_gives_back_the_list() {
    let before = vec![pair("a", "/a", "r:/a")];
    let mut pairs = vec![pair("a", "/a", "r:/a")];
    add_pair(&mut pairs, "n".into(), "/n".into(), "r:/n".into(), PairSource::Local).unwrap();
    match remove_pair(pairs, &"n".to_string(), PairSource::Local) {
        Ok(RemoveOutcome::Save(kept)) => assert_eq!(kept, before),
        _ => panic!("expected the list as it was"),
    }
}
