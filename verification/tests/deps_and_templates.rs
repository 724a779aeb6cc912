use geode::deps::{
    Candidate, ModSummary, Found, search_dependency, parse_external, ExternalError, External,
    find_external, judge_external, ExternalOutcome, try_resolve, Resolution, Source, applies_to,
};
use geode::platform::{PlatformName, DependencyImportance};
use geode::templates::{Template, TemplateError, Templates, create_new_template, modify_template, delete_template, subcommand};

fn cand(path: &str, id: &str, version: &str) -> Candidate {
    Candidate { path: path.to_string(), info: Some(ModSummary { id: id.to_string(), version: version.to_string() }) }
}

#[test]
fn semver_wrappers() {
    assert!(parse_external("a:1.2.3").is_ok());
    assert!(parse_external("a:vv1.2.3").is_err());
    let id = "a".to_string();
    assert!(search_dependency(&id, &">=1.0.0".to_string(), vec![]).is_some());
    assert!(search_dependency(&id, &"~~1".to_string(), vec![]).is_none());
}

#[test]
fn dependency_found_matches_first_admitted() {
    let cs = vec![
        cand("a", "geode.other", "1.0.0"),
        cand("b", "geode.node-ids", "0.9.0"),
        cand("c", "geode.node-ids", "1.2.0"),
        cand("d", "geode.node-ids", "1.3.0"),
    ];
    match search_dependency(&"geode.node-ids".to_string(), &">=1.0.0".to_string(), cs) {
        Some(Found::Match(p, info)) => {
            assert_eq!(p, "c");
            assert_eq!(info.version, "1.2.0");
        },
        _ => panic!("expected a match"),
    }
}

#[test]
fn dependency_wrong_version_reported() {
    let cs = vec![cand("b", "geode.node-ids", "0.9.0"), Candidate { path: "x".to_string(), info: None }];
    match search_dependency(&"geode.node-ids".to_string(), &">=1.0.0".to_string(), cs) {
        Some(Found::WrongVersion(v)) => assert_eq!(v, "0.9.0"),
        _ => panic!("expected a wrong version"),
    }
}

#[test]
fn dependency_similar_id_uses_edit_distance() {
    let cs = vec![cand("a", "geode.nodeids", "1.0.0"), cand("b", "geode.node-idz", "1.0.0")];
    match search_dependency(&"geode.node-ids".to_string(), &"*".to_string(), cs) {
        Some(Found::Similar(m)) => assert_eq!(m, "geode.nodeids"),
        _ => panic!("expected a similar id"),
    }
    let far = vec![cand("a", "kitten", "1.0.0")];
    assert!(matches!(search_dependency(&"sitting".to_string(), &"*".to_string(), far), Some(Found::Similar(_))));
    let farther = vec![cand("a", "completely.else", "1.0.0")];
    assert!(matches!(search_dependency(&"geode.node-ids".to_string(), &"*".to_string(), farther), Some(Found::NotFound)));
}

#[test]
fn dependency_search_refuses_bad_semver() {
    assert!(search_dependency(&"a".to_string(), &"not a req".to_string(), vec![]).is_none());
    assert!(search_dependency(&"a".to_string(), &"*".to_string(), vec![cand("p", "a", "bad")]).is_none());
}

#[test]
fn found_promotion_law_on_values() {
    let mut f = Found::Similar("x".to_string());
    f.promote(Found::NotFound);
    assert!(matches!(f, Found::Similar(_)));
    f.promote(Found::WrongVersion("1.0.0".to_string()));
    assert!(matches!(f, Found::WrongVersion(_)));
    f.promote_eq(Found::WrongVersion("2.0.0".to_string()));
    assert!(matches!(f, Found::WrongVersion(ref v) if v == "2.0.0"));
    assert_eq!(f.promote_value(), 2);
}

#[test]
fn externals_parse() {
    let e = parse_external("geode.node-ids").unwrap();
    assert_eq!(e.id, "geode.node-ids");
    assert!(e.version.is_none());
    let v = parse_external("geode.node-ids:v1.2.3").unwrap();
    assert_eq!(v.id, "geode.node-ids");
    assert_eq!(v.version.as_deref(), Some("1.2.3"));
    assert_eq!(parse_external("a:b").err(), Some(ExternalError::InvalidVersion));
}

#[test]
fn externals_last_wins_and_judged() {
    let list = vec![
        External { id: "a".to_string(), version: Some("1.0.0".to_string()) },
        External { id: "a".to_string(), version: Some("2.0.0".to_string()) },
    ];
    assert_eq!(find_external(&list, &"a".to_string()), Some(1));
    assert_eq!(find_external(&list, &"b".to_string()), None);
    assert_eq!(judge_external(&">=2.0.0".to_string(), &list[1]), Some(ExternalOutcome::Satisfied));
    assert_eq!(judge_external(&">=2.0.0".to_string(), &list[0]), Some(ExternalOutcome::VersionMismatch));
    let bare = External { id: "a".to_string(), version: None };
    assert_eq!(judge_external(&"*".to_string(), &bare), Some(ExternalOutcome::Unversioned));
    assert_eq!(judge_external(&"??".to_string(), &bare), None);
}

#[test]
fn resolution_of_searches() {
    match try_resolve(DependencyImportance::Required, Found::NotFound, Found::Similar("m".to_string())).unwrap() {
        Resolution::Missing { required, wrong_version, similar } => {
            assert!(required);
            assert!(wrong_version.is_none());
            assert_eq!(similar, Some((Source::Installed, "m".to_string())));
        },
        _ => panic!("expected missing"),
    }
    match try_resolve(DependencyImportance::Suggested, Found::NotFound, Found::NotFound).unwrap() {
        Resolution::Missing { required, .. } => assert!(!required),
        _ => panic!("expected missing"),
    }
    let idx = Found::Match("dl/a.geode".to_string(), ModSummary { id: "a".to_string(), version: "1.0.0".to_string() });
    match try_resolve(DependencyImportance::Required, idx, Found::WrongVersion("2.0.0".to_string())).unwrap() {
        Resolution::KeepNewerInstalled { installed, index } => {
            assert_eq!(installed, "2.0.0");
            assert_eq!(index, "1.0.0");
        },
        _ => panic!("expected keep newer"),
    }
    let idx2 = Found::Match("dl/a.geode".to_string(), ModSummary { id: "a".to_string(), version: "3.0.0".to_string() });
    match try_resolve(DependencyImportance::Required, idx2, Found::WrongVersion("2.0.0".to_string())).unwrap() {
        Resolution::InstallFromIndex { path, id, replacing } => {
            assert_eq!(path, "dl/a.geode");
            assert_eq!(id, "a");
            assert_eq!(replacing.as_deref(), Some("2.0.0"));
        },
        _ => panic!("expected install"),
    }
    let inst = Found::Match("mods/a.geode".to_string(), ModSummary { id: "a".to_string(), version: "1.0.0".to_string() });
    match try_resolve(DependencyImportance::Required, Found::NotFound, inst).unwrap() {
        Resolution::UseInstalled { path, on_index } => {
            assert_eq!(path, "mods/a.geode");
            assert!(!on_index);
        },
        _ => panic!("expected use installed"),
    }
    assert!(try_resolve(DependencyImportance::Required, Found::WrongVersion("x".to_string()), Found::NotFound).is_none());
}

#[test]
fn platform_applies() {
    let ps = vec![PlatformName::Windows, PlatformName::Android64];
    assert!(applies_to(&ps, PlatformName::Android64));
    assert!(!applies_to(&ps, PlatformName::MacOS));
}

fn tpl(name: &str) -> Template {
    Template { name: name.to_string(), description: None, repository: format!("https://x/{name}"), subfolder: None }
}

#[test]
fn templates_create_modify_delete() {
    let mut ts = vec![tpl("a")];
    assert_eq!(create_new_template(&mut ts, tpl("b")), Ok(()));
    assert_eq!(create_new_template(&mut ts, tpl("a")), Err(TemplateError::AlreadyExists));
    assert_eq!(ts.len(), 2);
    assert_eq!(
        modify_template(&mut ts, &"b".to_string(), Some("desc".to_string()), None, Some("".to_string())),
        Ok(())
    );
    assert_eq!(ts[1].description.as_deref(), Some("desc"));
    assert!(ts[1].subfolder.is_none());
    assert_eq!(modify_template(&mut ts, &"zz".to_string(), None, None, None), Err(TemplateError::NotFound));
    delete_template(&mut ts, &"a".to_string());
    assert_eq!(ts.len(), 1);
    assert_eq!(ts[0].name, "b");
}

#[test]
fn templates_law_create_then_delete_restores() {
    let mut ts = vec![tpl("a"), tpl("b")];
    assert_eq!(subcommand(&mut ts, Templates::Create {
        name: "c".to_string(), repository: "r".to_string(), description: None, subfolder: None,
    }), Ok(()));
    assert_eq!(ts.len(), 3);
    assert_eq!(subcommand(&mut ts, Templates::Delete { name: "c".to_string() }), Ok(()));
    let names: Vec<&str> = ts.iter().map(|t| t.name.as_str()).collect();
    assert_eq!(names, vec!["a", "b"]);
    assert_eq!(subcommand(&mut ts, Templates::List), Ok(()));
}
