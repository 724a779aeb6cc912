use geode::auth::{start_login, LoginStep, exchange_outcome, ExchangeOutcome, finish_login, logout_answer, check_token_status};
use geode::freshness::{are_any_of_these_later, cache_data_from_text, cache_data_json, check_resource, read_cache_data, CacheData, CacheFileError};
use geode::json::Json;
use geode::profiles::Config;
use geode::templates::{is_remote_repository, template_source, copies_entry, renders_file, possible_name};
use geode::deps::dep_options_json;
use geode::platform::DependencyImportance;

#[test]
fn login_steps() {
    let mut c = Config::default_fallback();
    assert!(matches!(start_login(&mut c, None, None), LoginStep::DeviceLogin));
    assert!(matches!(start_login(&mut c, None, Some("gh".to_string())), LoginStep::ExchangeGithubToken(ref g) if g == "gh"));
    assert!(matches!(start_login(&mut c, Some("tok".to_string()), None), LoginStep::Stored));
    assert_eq!(c.index_token.as_deref(), Some("tok"));
    assert!(matches!(start_login(&mut c, None, Some("gh".to_string())), LoginStep::AlreadyLoggedIn(ref t) if t == "tok"));
    finish_login(&mut c, "new".to_string());
    assert_eq!(c.index_token.as_deref(), Some("new"));
}

#[test]
fn login_answers() {
    assert_eq!(exchange_outcome(200), ExchangeOutcome::Accepted);
    assert_eq!(exchange_outcome(400), ExchangeOutcome::InvalidGithubToken);
    assert_eq!(exchange_outcome(500), ExchangeOutcome::Unreachable);
    assert_eq!(logout_answer("Y"), Some(true));
    assert_eq!(logout_answer("n"), Some(false));
    assert_eq!(logout_answer("yes"), None);
    let mut c = Config::default_fallback();
    c.index_token = Some("t".to_string());
    assert!(check_token_status(&mut c, 204));
    assert_eq!(c.index_token.as_deref(), Some("t"));
    assert!(!check_token_status(&mut c, 401));
    assert!(c.index_token.is_none());
}

#[test]
fn freshness_checks() {
    assert_eq!(are_any_of_these_later(Some(5), &vec![]), (Some(5), true));
    assert_eq!(are_any_of_these_later(None, &vec![3, 7, 2]), (Some(7), true));
    assert_eq!(are_any_of_these_later(Some(9), &vec![3, 7, 2]), (Some(9), false));
    assert_eq!(are_any_of_these_later(Some(4), &vec![3, 7, 2]), (Some(7), true));
}

#[test]
fn freshness_law_second_check_is_quiet() {
    for (stored, times) in [(None, vec![1u64, 5, 3]), (Some(2), vec![1, 1]), (Some(9), vec![10])] {
        let (s1, _) = are_any_of_these_later(stored, &times);
        assert_eq!(are_any_of_these_later(s1, &times), (s1, false));
    }
}

#[test]
fn template_decisions() {
    assert!(is_remote_repository("https://github.com/geode-sdk/example-mod"));
    assert!(is_remote_repository("git@github.com:x/y"));
    assert!(is_remote_repository("ssh://host/x"));
    assert!(!is_remote_repository("/home/me/template"));
    assert_eq!(template_source(&"/tmp/t".to_string(), &Some("sub".to_string())), "/tmp/t/sub");
    assert_eq!(template_source(&"/tmp/t".to_string(), &None), "/tmp/t");
    assert!(!copies_entry(&".git/HEAD".to_string()));
    assert!(copies_entry(&".gitignore".to_string()));
    assert!(renders_file(&"src/main.cpp".to_string()));
    assert!(renders_file(&"README.MD".to_string()));
    assert!(!renders_file(&"build/x.cpp".to_string()));
    assert!(!renders_file(&".github/workflows/a.yml".to_string()));
    assert!(!renders_file(&"logo.png".to_string()));
    assert!(!renders_file(&"LICENSE".to_string()));
    assert_eq!(possible_name(&Some("/a/b/MyMod".to_string()), &"/cwd".to_string()), Some("MyMod".to_string()));
    assert_eq!(possible_name(&Some("rel".to_string()), &"/cwd".to_string()), Some("rel".to_string()));
    assert_eq!(possible_name(&None, &"/cwd".to_string()), None);
}

#[test]
fn dependency_options_text() {
    assert_eq!(dep_options_json(DependencyImportance::Required), "{ \"required\": true }");
    assert_eq!(dep_options_json(DependencyImportance::Suggested), "{ \"required\": false }");
}

#[test]
fn cache_file_keeps_times_and_settings() {
    let c = cache_data_from_text(r#"{"a.png": 12, "title_json": {"size": 3}, "note": "x", "b.png": 7}"#).ok().unwrap();
    assert_eq!(c.times, vec![("a.png".to_string(), 12), ("b.png".to_string(), 7)]);
    assert_eq!(c.settings.len(), 1);
    assert_eq!(c.settings[0].0, "title_json");
    assert!(matches!(&c.settings[0].1, Json::Object(ms) if ms.len() == 1));
    assert_eq!(cache_data_from_text("[1]").err().unwrap(), CacheFileError::NotObject);
    assert_eq!(cache_data_from_text("nope").err().unwrap(), CacheFileError::NotJson);
}

#[test]
fn cache_file_law_written_then_read() {
    let kept = CacheData {
        times: vec![("a".to_string(), 3), ("b".to_string(), 9)],
        settings: vec![("f_json".to_string(), Json::Object(vec![("size".to_string(), Json::Number(Some(4)))]))],
    };
    let written = cache_data_json(kept);
    match &written {
        Json::Object(ms) => {
            let keys: Vec<&str> = ms.iter().map(|(k, _)| k.as_str()).collect();
            assert_eq!(keys, vec!["a", "b", "f_json"]);
            assert!(matches!(ms[1].1, Json::Number(Some(9))));
        }
        _ => panic!("the cache file is an object"),
    }
    let back = read_cache_data(written);
    assert_eq!(back.times, vec![("a".to_string(), 3), ("b".to_string(), 9)]);
    assert_eq!(back.settings.len(), 1);
    assert_eq!(back.settings[0].0, "f_json");
}

#[test]
fn check_resource_keeps_newest_time() {
    let mut times = vec![("other".to_string(), 50)];
    let a = "a".to_string();
    assert!(check_resource(&mut times, &a, &vec![5]));
    assert_eq!(times, vec![("other".to_string(), 50), ("a".to_string(), 5)]);
    assert!(!check_resource(&mut times, &a, &vec![5, 4]));
    assert_eq!(times[1], ("a".to_string(), 5));
    assert!(check_resource(&mut times, &a, &vec![3, 8]));
    assert_eq!(times[1], ("a".to_string(), 8));
    assert_eq!(times[0], ("other".to_string(), 50));
    assert!(check_resource(&mut times, &"none".to_string(), &vec![]));
    assert_eq!(times.len(), 2);
}
