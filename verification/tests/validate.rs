use imagetest::validate::{check_config, explain, judge, ConfigCheck, Emphasis, SUPPORTED_VERSION};

const GOOD: &str = "version = 1\n\n[[test_image]]\npath = \"a.png\"\ntest_id = \"t1\"\n";

fn parts(check: ConfigCheck) -> Vec<(String, Emphasis)> {
    explain(check).into_iter().map(|part| (part.text, part.emphasis)).collect()
}

#[test]
fn version_one_that_fits_is_valid() {
    assert_eq!(SUPPORTED_VERSION, 1);
    assert_eq!(check_config(GOOD, true), ConfigCheck::Valid);
    assert_eq!(check_config("version = 1", true), ConfigCheck::Valid);
}

#[test]
fn version_one_that_does_not_fit_is_bad_format() {
    assert_eq!(check_config("version = 1\ntest_image = 3\n", false), ConfigCheck::BadFormat);
}

#[test]
fn other_versions_are_unsupported() {
    assert_eq!(check_config("version = 2\n", true), ConfigCheck::UnsupportedVersion(2));
    assert_eq!(check_config("version = 0\n", false), ConfigCheck::UnsupportedVersion(0));
    assert_eq!(check_config("version = -1\n", true), ConfigCheck::UnsupportedVersion(-1));
}

#[test]
fn version_must_be_an_integer() {
    assert_eq!(check_config("version = \"1\"\n", true), ConfigCheck::VersionNotInteger);
    assert_eq!(check_config("version = 1.0\n", true), ConfigCheck::VersionNotInteger);
    assert_eq!(check_config("version = true\n", true), ConfigCheck::VersionNotInteger);
    assert_eq!(check_config("[version]\nmajor = 1\n", true), ConfigCheck::VersionNotInteger);
}

#[test]
fn version_must_be_there() {
    assert_eq!(check_config("", true), ConfigCheck::VersionMissing);
    assert_eq!(check_config("Version = 1\n", true), ConfigCheck::VersionMissing);
    assert_eq!(check_config("[meta]\nversion = 1\n", true), ConfigCheck::VersionMissing);
}

#[test]
fn contents_must_be_toml() {
    assert_eq!(check_config("version = ", true), ConfigCheck::NotToml);
    assert_eq!(check_config("{\"version\": 1}", true), ConfigCheck::NotToml);
    assert_eq!(check_config("version = 1\nversion = 2\n", true), ConfigCheck::NotToml);
}

#[test]
fn judge_goes_by_the_lookup() {
    assert_eq!(judge(None, true), ConfigCheck::VersionMissing);
    assert_eq!(judge(None, false), ConfigCheck::VersionMissing);
    assert_eq!(judge(Some(None), true), ConfigCheck::VersionNotInteger);
    assert_eq!(judge(Some(Some(1)), true), ConfigCheck::Valid);
    assert_eq!(judge(Some(Some(1)), false), ConfigCheck::BadFormat);
    assert_eq!(judge(Some(Some(3)), true), ConfigCheck::UnsupportedVersion(3));
    assert_eq!(judge(Some(Some(i64::MIN)), false), ConfigCheck::UnsupportedVersion(i64::MIN));
}

#[test]
fn a_valid_file_needs_no_explanation() {
    assert!(explain(ConfigCheck::Valid).is_empty());
}

#[test]
fn explanations_are_worded_part_by_part() {
    assert_eq!(
        parts(ConfigCheck::NotToml),
        vec![("Could not parse config file as TOML".to_string(), Emphasis::Red)]
    );
    assert_eq!(
        parts(ConfigCheck::VersionMissing),
        vec![
            ("Could not find ".to_string(), Emphasis::Red),
            ("\"version\"".to_string(), Emphasis::Bold),
            (" key. Can not determine config format version.".to_string(), Emphasis::Red),
        ]
    );
    assert_eq!(
        parts(ConfigCheck::VersionNotInteger),
        vec![
            ("\"version\"".to_string(), Emphasis::Bold),
            (" must be an integer".to_string(), Emphasis::Red),
        ]
    );
    assert_eq!(
        parts(ConfigCheck::BadFormat),
        vec![(
            "Could not parse config file into expected config format".to_string(),
            Emphasis::Red
        )]
    );
}

#[test]
fn an_unsupported_version_is_named() {
    assert_eq!(
        parts(ConfigCheck::UnsupportedVersion(2)),
        vec![
            ("Invalid config format version ".to_string(), Emphasis::Red),
            ("2".to_string(), Emphasis::Bold),
        ]
    );
    assert_eq!(parts(ConfigCheck::UnsupportedVersion(-40))[1].0, "-40");
    assert_eq!(
        parts(ConfigCheck::UnsupportedVersion(i64::MIN))[1].0,
        "-9223372036854775808"
    );
}
