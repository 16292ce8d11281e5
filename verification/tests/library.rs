use cargo_ship::error::{report, CliError};
use cargo_ship::ops::changes::{
    baseline_version, excluded_note, is_publishable, package_status, selection_note, Package,
};
use cargo_ship::utils::index::{CertsSource, CratesIoIndex, EtagTable, IndexKrate, IndexVersion, KrateStep};
use cargo_ship::utils::remote::{check_krate_name, read_index_response};
use cargo_ship::utils::shell::cargo_term_unicode;
use cargo_ship::utils::version::SemVer;

fn v(text: &str) -> SemVer {
    SemVer::parse(text).expect("valid version")
}

fn pkg(name: &str, version: &str, publish: Option<Vec<&str>>) -> Package {
    Package {
        name: name.to_owned(),
        version: v(version),
        publish: publish.map(|rs| rs.into_iter().map(|r| r.to_owned()).collect()),
    }
}

fn index_versions(name: &str, versions: &[&str]) -> Vec<IndexVersion> {
    versions
        .iter()
        .map(|version| IndexVersion { name: name.to_owned(), version: (*version).to_owned() })
        .collect()
}

fn text(version: &SemVer) -> String {
    let mut text = format!("{}.{}.{}", version.major(), version.minor(), version.patch());
    if !version.pre().is_empty() {
        text.push('-');
        text.push_str(version.pre());
    }
    if !version.build().is_empty() {
        text.push('+');
        text.push_str(version.build());
    }
    text
}

#[test]
fn silent_error_keeps_its_code() {
    let err = CliError::silent(3);
    assert_eq!(err.code(), 3);
    assert!(err.error().is_none());
    assert_eq!(err.to_string(), "");
    assert_eq!(report(Err(err)), 3);
}

#[test]
fn message_error_exits_with_101() {
    let err = CliError::message(anyhow::Error::msg("boom"));
    assert_eq!(err.code(), 101);
    assert!(err.error().is_some());
    assert_eq!(err.to_string(), "boom");
    assert_eq!(report(Err(err)), 101);
}

#[test]
fn success_exits_with_0() {
    assert_eq!(report(Ok(())), 0);
}

#[test]
fn from_code_is_silent() {
    let err = CliError::from(7);
    assert_eq!(err.code(), 7);
    assert!(err.error().is_none());
}

#[test]
fn certs_default_to_webpki() {
    assert!(matches!(CertsSource::default(), CertsSource::Webpki));
}

#[test]
fn version_parse_and_parts() {
    let version = v("1.2.3-alpha.1+build.5");
    assert_eq!(version.major(), 1);
    assert_eq!(version.minor(), 2);
    assert_eq!(version.patch(), 3);
    assert_eq!(version.pre(), "alpha.1");
    assert_eq!(version.build(), "build.5");
    assert!(SemVer::parse("1.2").is_none());
    assert!(SemVer::parse("v1.2.3").is_none());
    assert!(SemVer::parse("01.2.3").is_none());
}

#[test]
fn version_parts() {
    let version = v("0.1.0-pre+meta");
    assert_eq!((version.major(), version.minor(), version.patch()), (0, 1, 0));
    assert_eq!((version.pre(), version.build()), ("pre", "meta"));
    let version = v("10.0.255");
    assert_eq!((version.major(), version.minor(), version.patch()), (10, 0, 255));
    assert_eq!((version.pre(), version.build()), ("", ""));
}

#[test]
fn version_order() {
    assert_eq!(v("1.0.0").order(&v("1.0.0")), 0);
    assert_eq!(v("1.0.0").order(&v("1.1.0")), -1);
    assert_eq!(v("2.0.0").order(&v("1.9.9")), 1);
    assert_eq!(v("1.0.1").order(&v("1.0.0")), 1);
    // a release comes after its pre-releases
    assert_eq!(v("1.0.0-alpha").order(&v("1.0.0")), -1);
    assert_eq!(v("1.0.0").order(&v("1.0.0-alpha")), 1);
    // numeric pre-release identifiers compare as numbers
    assert_eq!(v("1.0.0-beta.2").order(&v("1.0.0-beta.11")), -1);
    assert_eq!(v("1.0.0-alpha").order(&v("1.0.0-alpha.1")), -1);
    // build metadata is compared last
    assert_eq!(v("1.0.0+a").order(&v("1.0.0+b")), -1);
    assert!(v("1.0.0").le(&v("1.0.0")));
    assert!(!v("1.0.1").le(&v("1.0.0")));
}

#[test]
fn publishable_packages() {
    assert!(is_publishable(&pkg("a", "1.0.0", None)));
    assert!(is_publishable(&pkg("a", "1.0.0", Some(vec!["crates-io"]))));
    assert!(is_publishable(&pkg("a", "1.0.0", Some(vec!["alt", "crates-io"]))));
    assert!(!is_publishable(&pkg("a", "1.0.0", Some(vec![]))));
    assert!(!is_publishable(&pkg("a", "1.0.0", Some(vec!["alternative"]))));
}

#[test]
fn baseline_is_latest_not_above_current() {
    let foo = pkg("foo", "1.0.0", None);
    let versions = index_versions("foo", &["0.9.0", "1.0.0", "1.1.0"]);
    let baseline = baseline_version(&foo, Some(versions)).expect("a baseline");
    assert_eq!(text(&baseline), "1.0.0");
}

#[test]
fn baseline_skips_unparsable_and_newer() {
    let foo = pkg("foo", "2.0.0", None);
    let versions = index_versions("foo", &["1.5.0", "garbage", "3.0.0", "1.2.0", "2.0.0-rc.1"]);
    let baseline = baseline_version(&foo, Some(versions)).expect("a baseline");
    assert_eq!(text(&baseline), "2.0.0-rc.1");
}

#[test]
fn baseline_none_for_new_crate() {
    let foo = pkg("foo", "1.0.0", None);
    assert!(baseline_version(&foo, None).is_none());
    assert!(baseline_version(&foo, Some(vec![])).is_none());
    let newer = index_versions("foo", &["1.0.1", "2.0.0"]);
    assert!(baseline_version(&foo, Some(newer)).is_none());
}

#[test]
fn baseline_counts_build_metadata() {
    // build metadata orders after its absence, so 1.0.0+a comes after 1.0.0
    let foo = pkg("foo", "1.0.0", None);
    let versions = index_versions("foo", &["1.0.0+a", "0.1.0"]);
    let baseline = baseline_version(&foo, Some(versions)).expect("a baseline");
    assert_eq!(text(&baseline), "0.1.0");
    let bar = pkg("bar", "2.0.0", None);
    let versions = index_versions("bar", &["1.0.0+b", "0.1.0", "1.0.0+a"]);
    let baseline = baseline_version(&bar, Some(versions)).expect("a baseline");
    assert_eq!(text(&baseline), "1.0.0+b");
}

#[test]
fn excluded_note_lists_publishable() {
    assert!(excluded_note(&vec![]).is_none());
    let excluded = vec![
        pkg("bar", "1.0.0", None),
        pkg("baz", "1.0.0", Some(vec![])),
        pkg("qux", "1.0.0", Some(vec!["crates-io"])),
    ];
    assert_eq!(excluded_note(&excluded).unwrap(), "ignoring changes for `bar`, `qux`");
    let one = vec![pkg("bar", "1.0.0", None)];
    assert_eq!(excluded_note(&one).unwrap(), "ignoring changes for `bar`");
    let none_publishable = vec![pkg("baz", "1.0.0", Some(vec![]))];
    assert_eq!(excluded_note(&none_publishable).unwrap(), "ignoring changes for ");
}

#[test]
fn selection_note_when_empty() {
    assert_eq!(selection_note(&vec![]).unwrap(), "no compatible packages selected");
    assert!(selection_note(&vec![pkg("foo", "1.0.0", None)]).is_none());
}

#[test]
fn status_lines() {
    let foo = pkg("foo", "1.1.0", None);
    let (status, message) = package_status(&foo);
    assert_eq!(status, "Changes");
    assert_eq!(message, "for `foo`");
    let bar = pkg("bar", "0.1.0", Some(vec![]));
    let (status, message) = package_status(&bar);
    assert_eq!(status, "Changes");
    assert_eq!(message, "for `bar`");
}

#[test]
fn selected_packages_are_reported_whatever_their_publish_list() {
    for publish in [None, Some(vec![]), Some(vec!["crates-io"]), Some(vec!["alternative"])] {
        let selected = vec![pkg("foo", "1.0.0", publish)];
        assert!(selection_note(&selected).is_none());
        assert_eq!(package_status(&selected[0]), ("Changes".to_owned(), "for `foo`".to_owned()));
    }
}

#[test]
fn term_unicode_setting() {
    assert_eq!(cargo_term_unicode(None), None);
    assert_eq!(cargo_term_unicode(Some("true")), Some(true));
    assert_eq!(cargo_term_unicode(Some("false")), Some(false));
    assert_eq!(cargo_term_unicode(Some("TRUE")), Some(false));
}

fn answer(step: KrateStep) -> Option<Option<Vec<String>>> {
    match step {
        KrateStep::Answer(entry) => {
            Some(entry.map(|k| k.versions.into_iter().map(|v| v.version).collect()))
        }
        _ => None,
    }
}

#[test]
fn index_cache_steps() {
    let mut index = CratesIoIndex::new();
    assert!(matches!(index.krate_step(Some("alt"), "foo"), KrateStep::Answer(None)));
    assert!(matches!(index.krate_step(None, "foo"), KrateStep::Connect));
    index.index_opened();
    assert!(matches!(index.krate_step(None, "foo"), KrateStep::Download));
    let entry = IndexKrate { versions: index_versions("foo", &["1.0.0", "1.1.0"]) };
    index.krate_downloaded("foo", Some(entry));
    assert_eq!(
        answer(index.krate_step(None, "foo")),
        Some(Some(vec!["1.0.0".to_owned(), "1.1.0".to_owned()]))
    );
    index.krate_downloaded("missing", None);
    assert_eq!(answer(index.krate_step(None, "missing")), Some(None));
    assert!(matches!(index.krate_step(None, "bar"), KrateStep::Download));
    // another registry leaves the cache alone
    index.update_krate(Some("alt"), "foo");
    assert!(answer(index.krate_step(None, "foo")).is_some());
    index.update_krate(None, "foo");
    assert!(matches!(index.krate_step(None, "foo"), KrateStep::Download));
    assert_eq!(answer(index.krate_step(None, "missing")), Some(None));
    // a newer download replaces the cached entry
    index.krate_downloaded("missing", Some(IndexKrate { versions: index_versions("missing", &["0.1.0"]) }));
    assert_eq!(answer(index.krate_step(None, "missing")), Some(Some(vec!["0.1.0".to_owned()])));
}

#[test]
fn index_krate_has_version() {
    let entry = IndexKrate { versions: index_versions("foo", &["1.0.0", "1.1.0"]) };
    assert!(entry.has_version("1.1.0"));
    assert!(!entry.has_version("1.2.0"));
    assert!(!entry.has_version("1.1"));
}

#[test]
fn etag_table_read_after_record() {
    let mut table = EtagTable::new();
    assert_eq!(table.etag("foo"), "");
    table.record("foo", "W/\"1\"");
    table.record("bar", "W/\"2\"");
    assert_eq!(table.etag("foo"), "W/\"1\"");
    assert_eq!(table.etag("bar"), "W/\"2\"");
    table.record("foo", "W/\"3\"");
    assert_eq!(table.etag("foo"), "W/\"3\"");
    assert_eq!(table.etag("bar"), "W/\"2\"");
    assert_eq!(table.etag("baz"), "");
}

fn test_index() -> tame_index::SparseIndex {
    let location = tame_index::IndexLocation {
        url: tame_index::IndexUrl::CratesIoSparse,
        root: tame_index::IndexPath::Exact(tame_index::PathBuf::from("/tmp/cargo_ship_index_test")),
        cargo_version: None,
    };
    tame_index::SparseIndex::new(location).expect("a sparse index")
}

const FOO_ENTRY: &str = "{\"name\":\"foo\",\"vers\":\"1.0.0\",\"deps\":[],\"cksum\":\"0000000000000000000000000000000000000000000000000000000000000000\",\"features\":{},\"yanked\":false}\n{\"name\":\"foo\",\"vers\":\"1.1.0\",\"deps\":[],\"cksum\":\"0000000000000000000000000000000000000000000000000000000000000000\",\"features\":{},\"yanked\":false}\n";

#[test]
fn krate_names_are_checked() {
    assert!(check_krate_name("foo").is_ok());
    assert!(check_krate_name("foo-bar_2").is_ok());
    assert!(check_krate_name("").is_err());
    assert!(check_krate_name("foo bar").is_err());
    assert!(check_krate_name("föo").is_err());
}

#[test]
fn index_response_ok_is_parsed_and_tag_recorded() {
    let index = test_index();
    let lock = tame_index::utils::flock::FileLock::unlocked();
    let mut etags = EtagTable::new();
    let entry = read_index_response(&mut etags, &index, "foo", 200, Some("W/\"7\""), FOO_ENTRY.as_bytes().to_vec(), &lock)
        .expect("a parsed entry")
        .expect("an entry");
    let versions: Vec<String> = entry.versions.into_iter().map(|v| v.version).collect();
    assert_eq!(versions, vec!["1.0.0".to_owned(), "1.1.0".to_owned()]);
    assert_eq!(etags.etag("foo"), "W/\"7\"");
}

#[test]
fn index_response_statuses() {
    let index = test_index();
    let lock = tame_index::utils::flock::FileLock::unlocked();
    let mut etags = EtagTable::new();
    for status in [404u16, 410, 451] {
        let res = read_index_response(&mut etags, &index, "foo", status, None, vec![], &lock);
        assert!(matches!(res, Ok(None)));
    }
    assert!(read_index_response(&mut etags, &index, "foo", 401, None, vec![], &lock).is_err());
    assert!(read_index_response(&mut etags, &index, "foo", 500, None, vec![], &lock).is_err());
    assert!(read_index_response(&mut etags, &index, "foo", 42, None, vec![], &lock).is_err());
    assert!(read_index_response(&mut etags, &index, "foo", 200, None, b"not json".to_vec(), &lock).is_err());
    // an invalid name is refused, but the tag is still kept
    assert!(read_index_response(&mut etags, &index, "bad name", 200, Some("t"), FOO_ENTRY.as_bytes().to_vec(), &lock).is_err());
    assert_eq!(etags.etag("bad name"), "t");
    assert_eq!(etags.etag("foo"), "");
}

#[test]
fn errors_convert_to_message_errors() {
    let err = CliError::from(std::io::Error::new(std::io::ErrorKind::Other, "disk"));
    assert_eq!(err.code(), 101);
    assert_eq!(err.to_string(), "disk");
    let err = CliError::from(anyhow::Error::msg("boom"));
    assert_eq!(err.code(), 101);
    assert_eq!(err.to_string(), "boom");
    assert!(CliError::from(3).error().is_none());
}
