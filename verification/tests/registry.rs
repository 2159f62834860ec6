use repo_sync::config::{
    absolute_path, cargo_root, default_config_directory, expand_path, sort_by_name, validate_all,
    validate_repository, ConfigStore, EnsureReply, EnsureStep,
};
use repo_sync::failure::Failure;
use repo_sync::model::{Repository, Strategy};
use repo_sync::path::RawPath;

fn path(text: &str) -> RawPath {
    RawPath::from_text(text)
}

fn repository(name: &str, place: &str) -> Repository {
    Repository {
        name: name.to_owned(),
        path: path(place),
        strategy: Strategy::Rebase,
        submodules: false,
    }
}

fn store() -> ConfigStore {
    ConfigStore::at(path("/data/repos.tsv"))
}

fn saved(repositories: &Vec<Repository>) -> Vec<u8> {
    store().save(repositories, None, 1, 2).unwrap().text.into_bytes()
}

fn loaded(contents: &[u8]) -> Result<Vec<Repository>, Failure> {
    store().load(&Ok(contents.to_vec()), None)
}

fn message(result: Result<Vec<Repository>, Failure>) -> String {
    result.unwrap_err().full()
}

#[test]
fn round_trips_and_sorts_tsv() {
    let contents = saved(&vec![repository("zeta", "/tmp/zeta"), repository("alpha", "/tmp/alpha")]);
    let list = loaded(&contents).unwrap();
    assert_eq!(list[0].name, "alpha");
    assert_eq!(list[1].name, "zeta");
}

#[test]
fn rejects_duplicate_names_and_paths() {
    let place = "/tmp/repository";
    let duplicate_name = vec![repository("same", place), repository("same", "/tmp/b")];
    assert!(validate_all(&duplicate_name, None).is_err());

    let duplicate_path = vec![repository("a", place), repository("b", place)];
    assert!(validate_all(&duplicate_path, None).is_err());
}

#[test]
fn rejects_malformed_tsv() {
    assert!(loaded(b"missing\tfields\n").is_err());
}

#[test]
fn rejects_stale_snapshot_without_losing_external_changes() {
    let store = store();
    let original = vec![repository("a", "/tmp/a")];
    let contents = saved(&original);
    let mut external = original.clone();
    external.push(repository("b", "/tmp/b"));
    let replaced = store
        .save_if_unchanged(&Ok(contents), &original, &external, None, 1, 3)
        .unwrap()
        .text
        .into_bytes();

    assert!(store
        .save_if_unchanged(&Ok(replaced.clone()), &original, &Vec::new(), None, 1, 4)
        .is_err());
    assert_eq!(loaded(&replaced).unwrap(), external);
}

#[test]
fn one_of_two_savers_replaces_the_snapshot() {
    let store = store();
    let a = vec![repository("a", "/tmp/a")];
    let b = vec![repository("b", "/tmp/b")];
    for (first, second) in [(&a, &b), (&b, &a)] {
        let empty = Vec::new();
        let contents = saved(&empty);
        let written = store
            .save_if_unchanged(&Ok(contents), &empty, first, None, 1, 2)
            .unwrap()
            .text
            .into_bytes();
        let refused = store.save_if_unchanged(&Ok(written.clone()), &empty, second, None, 1, 3);
        assert_eq!(
            refused.unwrap_err().full(),
            "Registry changed in another process; reload and retry your change."
        );
        assert_eq!(&loaded(&written).unwrap(), first);
    }
}

#[test]
fn snapshots_are_compared_in_any_order() {
    let store = store();
    let list = vec![repository("b", "/tmp/b"), repository("a", "/tmp/a")];
    let contents = b"b\t/tmp/b\trebase\tfalse\na\t/tmp/a\trebase\tfalse\n".to_vec();
    assert_eq!(loaded(&contents).unwrap(), list);
    let save = |expected: &Vec<Repository>, list: &Vec<Repository>| {
        store.save_if_unchanged(&Ok(contents.clone()), expected, list, None, 1, 2)
    };
    let swapped = vec![repository("a", "/tmp/./a/"), repository("b", "/tmp/b")];
    assert_eq!(
        save(&swapped, &list).unwrap().text,
        "a\t/tmp/a\trebase\tfalse\nb\t/tmp/b\trebase\tfalse\n"
    );
    let changed = "Registry changed in another process; reload and retry your change.";
    let mut other = swapped.clone();
    other[0].submodules = true;
    let mut twice = swapped.clone();
    twice.push(repository("b", "/tmp/b"));
    for expected in [other, twice, vec![repository("a", "/tmp/a")]] {
        assert_eq!(save(&expected, &list).unwrap_err().full(), changed);
    }
    let clash = vec![repository("a", "/tmp/a"), repository("a", "/tmp/b")];
    assert!(save(&swapped, &clash).is_err());
}

#[test]
fn development_binary_uses_the_project_registry() {
    let executable = path("/work/project/target/debug/repo-sync");
    assert_eq!(cargo_root(&executable), Some(path("/work/project")));
    assert_eq!(
        default_config_directory(&executable, true).unwrap(),
        path("/work/project").join(&path("repo-sync-data"))
    );
}

#[test]
fn installed_binary_keeps_its_registry_beside_itself() {
    let executable = path("/usr/local/bin/repo-sync");
    assert_eq!(cargo_root(&executable), None);
    assert_eq!(
        default_config_directory(&executable, true).unwrap(),
        path("/usr/local/bin/repo-sync-data")
    );
    let unmanaged = path("/work/project/target/release/repo-sync");
    assert_eq!(
        default_config_directory(&unmanaged, false).unwrap(),
        path("/work/project/target/release/repo-sync-data")
    );
    assert_eq!(
        default_config_directory(&path("/"), false).unwrap_err().full(),
        "repo-sync executable has no parent directory"
    );
}

#[test]
fn discovers_the_configured_directory_first() {
    let found = ConfigStore::discover(
        Some(path("/etc/sync")),
        Err(Failure::of("no such file")),
        false,
    )
    .unwrap();
    assert_eq!(*found.path(), path("/etc/sync/repos.tsv"));
    let missing = ConfigStore::discover(None, Err(Failure::of("no such file")), false);
    assert_eq!(
        missing.unwrap_err().full(),
        "cannot locate the repo-sync executable: no such file"
    );
    let beside = ConfigStore::discover(None, Ok(path("/opt/repo-sync")), false).unwrap();
    assert_eq!(*beside.path(), path("/opt/repo-sync-data/repos.tsv"));
    assert_eq!(beside.lock_path(), path("/opt/repo-sync-data/repos.lock"));
}

#[test]
fn writes_one_line_for_each_repository() {
    let mut second = repository("beta", "/tmp/beta");
    second.strategy = Strategy::Merge;
    second.submodules = true;
    let replacement = store()
        .save(&vec![second, repository("alpha", "/tmp/alpha")], None, 17, 99)
        .unwrap();
    assert_eq!(
        replacement.text,
        "alpha\t/tmp/alpha\trebase\tfalse\nbeta\t/tmp/beta\tmerge\ttrue\n"
    );
    assert_eq!(replacement.temporary, path("/data/repos.17.99.tmp"));
}

#[test]
fn every_malformed_line_names_its_number() {
    assert_eq!(
        message(loaded(b"\na\tb\n")),
        "invalid config line 2: expected 4 tab-separated fields"
    );
    assert_eq!(
        message(loaded(b"a\t/a\tsquash\ttrue\n")),
        "invalid strategy on config line 1: strategy must be rebase or merge"
    );
    assert_eq!(
        message(loaded(b"a\t/a\tmerge\tyes\n")),
        "invalid submodules value on config line 1"
    );
    assert_eq!(message(loaded(b"a\xff\n")), "stream did not contain valid UTF-8");
    assert_eq!(
        message(store().load(&Err(Failure::of("denied")), Some(&path("/data")))),
        "cannot read config file: ~/repos.tsv: denied"
    );
}

#[test]
fn reads_lines_with_and_without_carriage_returns() {
    let list = loaded(b"a\t/a\trebase\ttrue\r\n \n\nb\t/b\tmerge\tfalse").unwrap();
    assert_eq!(list.len(), 2);
    assert!(list[0].submodules);
    assert_eq!(list[1].strategy, Strategy::Merge);
    assert!(loaded(b"a\t/a\trebase\ttrue\r").is_err());
}

#[test]
fn rejects_what_a_line_cannot_hold() {
    let error = |item: &Repository| validate_repository(item).unwrap_err().full();
    assert_eq!(error(&repository("", "/a")), "repository name cannot be empty");
    assert_eq!(
        error(&repository("a\tb", "/a")),
        "repository name cannot contain tabs or newlines"
    );
    assert_eq!(
        error(&repository("a", "/a\nb")),
        "repository path cannot contain tabs or newlines"
    );
    assert!(validate_repository(&repository("a", "/a b")).is_ok());
    let twice = vec![repository("a", "/home/me/x"), repository("b", "/home/me//x/")];
    assert_eq!(
        validate_all(&twice, Some(&path("/home/me"))).unwrap_err().full(),
        "repository path already exists: ~/x"
    );
    let named = vec![repository("a", "/x"), repository("a", "/y")];
    assert_eq!(
        validate_all(&named, None).unwrap_err().full(),
        "repository name already exists: a"
    );
}

#[test]
fn unicode_entries_survive_a_round_trip() {
    let list = vec![repository("项目-很长的名字", "/tmp/代码 仓库"), repository("é", "/tmp/é")];
    let contents = saved(&list);
    let mut expected = list.clone();
    expected.sort_by(|left, right| left.name.cmp(&right.name));
    assert_eq!(loaded(&contents).unwrap(), expected);
    let unchanged = store().save_if_unchanged(&Ok(contents), &list, &Vec::new(), None, 1, 2);
    assert_eq!(unchanged.unwrap().text, "");
}

#[test]
fn paths_that_are_not_text_are_not_read_back() {
    let odd = Repository {
        name: "odd".to_owned(),
        path: RawPath::from_bytes(vec![b'/', 0xff]),
        strategy: Strategy::Rebase,
        submodules: false,
    };
    let contents = saved(&vec![odd.clone()]);
    let list = loaded(&contents).unwrap();
    assert_ne!(list[0].path, odd.path);
    assert_eq!(list[0].path, path("/\u{fffd}"));
}

#[test]
fn sorting_is_stable_and_by_code_point() {
    let names: Vec<&str> = vec!["b", "B", "a", "aa", "", "é", "z"];
    let mut list: Vec<Repository> = names
        .iter()
        .enumerate()
        .map(|(index, name)| repository(name, &format!("/{index}")))
        .collect();
    list.push(repository("a", "/last"));
    let mut expected = list.clone();
    expected.sort_by(|left, right| left.name.cmp(&right.name));
    assert_eq!(sort_by_name(&list), expected);
}

#[test]
fn finds_repositories_by_name_path_and_resolved_path() {
    let list = vec![repository("one", "/tmp/one"), repository("two", "/tmp/two")];
    assert_eq!(ConfigStore::find_index(&list, "two", None), Some(1));
    assert_eq!(ConfigStore::find_index(&list, "/tmp//one/", None), Some(0));
    let resolved = path("/tmp/two");
    assert_eq!(ConfigStore::find_index(&list, "link", Some(&resolved)), Some(1));
    assert_eq!(ConfigStore::find_index(&list, "link", None), None);
}

#[test]
fn expands_the_home_directory() {
    let home = path("/home/me");
    assert_eq!(expand_path("~", Some(&home)), home);
    assert_eq!(expand_path("~/code", Some(&home)), path("/home/me/code"));
    assert_eq!(expand_path("~other", Some(&home)), path("~other"));
    assert_eq!(expand_path("~/code", None), path("~/code"));
    assert_eq!(
        absolute_path("~/x", Some(&home), Err(Failure::of("missing"))).unwrap_err().full(),
        "cannot resolve path: ~/x: missing"
    );
    assert_eq!(absolute_path("x", Some(&home), Ok(path("/y"))).unwrap(), path("/y"));
}

#[test]
fn makes_sure_that_the_file_is_there() {
    let store = store();
    let step = |replies: Vec<EnsureReply>| store.ensure(None, &replies);
    match step(vec![]) {
        EnsureStep::CreateDirectory(parent) => assert_eq!(parent, path("/data")),
        _ => panic!("the directory comes first"),
    }
    match step(vec![EnsureReply::Failed(Failure::of("denied"))]) {
        EnsureStep::Done(Err(failure)) => {
            assert_eq!(failure.full(), "cannot create config dir: /data: denied");
        }
        _ => panic!("the failure ends it"),
    }
    assert!(matches!(step(vec![EnsureReply::Succeeded]), EnsureStep::CheckFile));
    assert!(matches!(
        step(vec![EnsureReply::Succeeded, EnsureReply::AlreadyThere]),
        EnsureStep::Done(Ok(()))
    ));
    assert!(matches!(
        step(vec![EnsureReply::Succeeded, EnsureReply::Succeeded]),
        EnsureStep::CreateFile
    ));
    assert!(matches!(
        step(vec![EnsureReply::Succeeded, EnsureReply::Succeeded, EnsureReply::AlreadyThere]),
        EnsureStep::Done(Ok(()))
    ));
    match step(vec![
        EnsureReply::Succeeded,
        EnsureReply::Succeeded,
        EnsureReply::Failed(Failure::of("full")),
    ]) {
        EnsureStep::Done(Err(failure)) => {
            assert_eq!(failure.full(), "cannot write config file: /data/repos.tsv: full");
        }
        _ => panic!("the failure ends it"),
    }
    match ConfigStore::at(path("/")).ensure(None, &vec![]) {
        EnsureStep::Done(Err(failure)) => {
            assert_eq!(failure.full(), "configuration file has no parent directory");
        }
        _ => panic!("there is no parent"),
    }
    assert_eq!(
        ConfigStore::at(path("/")).save(&vec![], None, 1, 2).unwrap_err().full(),
        "config file has no parent directory"
    );
}
