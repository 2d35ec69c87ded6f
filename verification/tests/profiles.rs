use eruption_profiles::config::{ConfigParam, FindConfig, GetAttr};
use eruption_profiles::config_map::ConfigMap;
use eruption_profiles::editor::{editor_value, ParamKind, ProfilesError};
use eruption_profiles::loading::{find_path_by_uuid, get_profile_files, get_profiles};
use eruption_profiles::manifest::{Manifest, Parameter};
use eruption_profiles::profile::{
    default_profile_file, default_script_file, Profile, ProfileError, DEFAULT_EFFECT_SCRIPT,
};

fn bare(name: &str, id: u128) -> Profile {
    Profile {
        id,
        profile_file: String::new(),
        name: name.to_string(),
        description: String::new(),
        active_scripts: vec![],
        config: None,
    }
}

fn with_config(id: u128) -> Profile {
    let mut p = bare("p", id);
    p.config = Some(ConfigMap::new());
    p
}

fn is_v4(id: u128) -> bool {
    (id >> 76) & 0xf == 4 && (id >> 62) & 0x3 == 2
}

#[test]
fn int_value_set_then_get() {
    let mut p = with_config(1);
    assert!(p.set_int_value("organic.lua", "speed", 42).is_ok());
    assert_eq!(p.get_int_value("organic.lua", "speed"), Some(&42));
    assert!(p.set_int_value("organic.lua", "speed", -7).is_ok());
    assert_eq!(p.get_int_value("organic.lua", "speed"), Some(&-7));
}

#[test]
fn all_types_round_trip() {
    let mut p = with_config(1);
    let bits = 0.25f64.to_bits();
    p.set_float_value("s.lua", "f", bits).unwrap();
    p.set_bool_value("s.lua", "b", true).unwrap();
    p.set_str_value("s.lua", "t", "hello".to_string()).unwrap();
    p.set_color_value("s.lua", "c", 0xff00ff).unwrap();
    assert_eq!(p.get_float_value("s.lua", "f").map(|b| f64::from_bits(*b)), Some(0.25));
    assert_eq!(p.get_bool_value("s.lua", "b"), Some(&true));
    assert_eq!(p.get_str_value("s.lua", "t"), Some("hello"));
    assert_eq!(p.get_color_value("s.lua", "c"), Some(&0xff00ff));
}

#[test]
fn get_of_other_type_is_none() {
    let mut p = with_config(1);
    p.set_int_value("s.lua", "x", 1).unwrap();
    assert_eq!(p.get_bool_value("s.lua", "x"), None);
    assert_eq!(p.get_str_value("s.lua", "x"), None);
    assert_eq!(p.get_int_value("s.lua", "y"), None);
    assert_eq!(p.get_int_value("t.lua", "x"), None);
}

#[test]
fn set_with_other_type_fails_and_changes_nothing() {
    let mut p = with_config(1);
    p.set_int_value("s.lua", "x", 1).unwrap();
    match p.set_bool_value("s.lua", "x", true) {
        Err(ProfileError::SetValueError { msg }) => assert_eq!(msg, "Invalid data type"),
        other => panic!("unexpected {:?}", other),
    }
    assert_eq!(p.get_int_value("s.lua", "x"), Some(&1));
}

#[test]
fn set_without_config_fails() {
    let mut p = bare("p", 1);
    match p.set_color_value("s.lua", "c", 5) {
        Err(ProfileError::SetValueError { msg }) => assert_eq!(msg, "Could not get config"),
        other => panic!("unexpected {:?}", other),
    }
    assert!(p.config.is_none());
    assert_eq!(p.get_color_value("s.lua", "c"), None);
}

#[test]
fn set_keeps_other_parameters() {
    let mut p = with_config(1);
    p.set_int_value("a.lua", "x", 1).unwrap();
    p.set_int_value("a.lua", "y", 2).unwrap();
    p.set_int_value("b.lua", "x", 3).unwrap();
    p.set_int_value("a.lua", "x", 10).unwrap();
    assert_eq!(p.get_int_value("a.lua", "x"), Some(&10));
    assert_eq!(p.get_int_value("a.lua", "y"), Some(&2));
    assert_eq!(p.get_int_value("b.lua", "x"), Some(&3));
    let cfg = p.config.as_ref().unwrap().get("a.lua").unwrap();
    assert_eq!(cfg.len(), 2);
    assert_eq!(cfg[0], ConfigParam::Int { name: "x".into(), value: 10 });
}

#[test]
fn first_parameter_of_a_name_wins() {
    let mut map = ConfigMap::new();
    map.insert(
        "s.lua".to_string(),
        vec![
            ConfigParam::Int { name: "x".into(), value: 1 },
            ConfigParam::Bool { name: "x".into(), value: true },
        ],
    );
    let mut p = bare("p", 1);
    p.config = Some(map);
    assert_eq!(p.get_int_value("s.lua", "x"), Some(&1));
    assert_eq!(p.get_bool_value("s.lua", "x"), None);
    assert!(p.set_bool_value("s.lua", "x", false).is_err());
}

#[test]
fn get_value_texts() {
    let i = ConfigParam::Int { name: "i".into(), value: -42 };
    assert_eq!(i.get_name(), "i");
    assert_eq!(i.get_value(), Some("-42".to_string()));
    let min = ConfigParam::Int { name: "m".into(), value: i64::MIN };
    assert_eq!(min.get_value(), Some(format!("{}", i64::MIN)));
    let zero = ConfigParam::Int { name: "z".into(), value: 0 };
    assert_eq!(zero.get_value(), Some("0".to_string()));
    let b = ConfigParam::Bool { name: "b".into(), value: false };
    assert_eq!(b.get_value(), Some("false".to_string()));
    let s = ConfigParam::String { name: "s".into(), value: "abc".into() };
    assert_eq!(s.get_value(), Some("abc".to_string()));
    let c = ConfigParam::Color { name: "c".into(), value: 0xff };
    assert_eq!(c.get_value(), Some("#0000ff".to_string()));
    let big = ConfigParam::Color { name: "c".into(), value: 0xff00ff00 };
    assert_eq!(big.get_value(), Some(format!("#{:06x}", 0xff00ff00u32)));
    let f = ConfigParam::Float { name: "f".into(), value: 1.5f64.to_bits() };
    assert_eq!(f.get_name(), "f");
    assert_eq!(f.get_value(), None);
}

#[test]
fn get_value_matches_std_formatting() {
    for v in [1i64, 9, 10, 99, 100, 12345, -1, -10, i64::MAX] {
        let p = ConfigParam::Int { name: "n".into(), value: v };
        assert_eq!(p.get_value(), Some(format!("{}", v)));
    }
    for v in [0u32, 1, 0xabcdef, 0x123456, 0x1000000, u32::MAX] {
        let p = ConfigParam::Color { name: "n".into(), value: v };
        assert_eq!(p.get_value(), Some(format!("#{:06x}", v)));
    }
}

#[test]
fn find_config_param_first_match() {
    let mut v = vec![
        ConfigParam::Int { name: "a".into(), value: 1 },
        ConfigParam::Color { name: "b".into(), value: 2 },
        ConfigParam::Int { name: "b".into(), value: 3 },
    ];
    assert_eq!(v.find_config_param("b"), Some(&ConfigParam::Color { name: "b".into(), value: 2 }));
    assert_eq!(v.find_config_param("c"), None);
    if let Some(p) = v.find_config_param_mut("a") {
        *p = ConfigParam::Int { name: "a".into(), value: 9 };
    }
    assert_eq!(v[0], ConfigParam::Int { name: "a".into(), value: 9 });
    assert!(v.find_config_param_mut("zz").is_none());
}

#[test]
fn config_map_operations() {
    let mut m = ConfigMap::new();
    assert!(m.get("a").is_none());
    m.insert("a".into(), vec![ConfigParam::Bool { name: "x".into(), value: true }]);
    m.insert("b".into(), vec![]);
    m.insert("a".into(), vec![]);
    assert_eq!(m.get("a").map(|v| v.len()), Some(0));
    let taken = m.take("b").unwrap();
    assert!(taken.is_empty());
    assert!(m.take("c").is_none());
    let mut entries = m.clone().into_entries();
    entries.sort_by(|x, y| x.0.cmp(&y.0));
    let keys: Vec<&str> = entries.iter().map(|e| e.0.as_str()).collect();
    assert_eq!(keys, vec!["a", "b"]);
}

#[test]
fn new_gives_fresh_id_and_empty_config() {
    let mut parsed = with_config(7);
    parsed.set_int_value("s.lua", "x", 1).unwrap();
    parsed.name = "Mine".into();
    let p = Profile::new("/tmp/mine.profile", parsed);
    assert!(is_v4(p.id));
    assert_eq!(p.profile_file, "/tmp/mine.profile");
    assert_eq!(p.name, "Mine");
    assert_eq!(p.get_int_value("s.lua", "x"), None);
    assert!(p.config.is_some());
}

#[test]
fn from_keeps_id_and_config() {
    let mut parsed = with_config(7);
    parsed.set_int_value("s.lua", "x", 1).unwrap();
    let p = Profile::from("/tmp/a.profile", parsed);
    assert_eq!(p.id, 7);
    assert_eq!(p.profile_file, "/tmp/a.profile");
    assert_eq!(p.get_int_value("s.lua", "x"), Some(&1));
    let q = Profile::from("/tmp/b.profile", bare("b", 8));
    assert!(q.config.is_some());
    assert!(q.config.unwrap().get("s.lua").is_none());
}

#[test]
fn default_profile_values() {
    let p = Profile::default();
    assert!(is_v4(p.id));
    assert_eq!(p.profile_file, "/var/lib/eruption/profiles/default.profile");
    assert_eq!(p.name, "Default");
    assert_eq!(p.description, "Auto-generated profile");
    assert_eq!(p.active_scripts, vec![DEFAULT_EFFECT_SCRIPT.to_string()]);
    assert!(p.config.is_some());
    let q = Profile::default();
    assert_ne!(p.id, q.id);
}

#[test]
fn defaults_of_parsed_fields() {
    assert_eq!(default_profile_file(), "");
    assert_eq!(default_script_file(), vec!["organic.lua".to_string()]);
}

#[test]
fn clone_keeps_profile() {
    let mut p = with_config(3);
    p.set_str_value("s.lua", "t", "v".into()).unwrap();
    let q = p.clone();
    assert_eq!(q.id, 3);
    assert_eq!(q.get_str_value("s.lua", "t"), Some("v"));
}

#[test]
fn find_by_uuid_takes_first_match() {
    let mut a = bare("a", 5);
    a.profile_file = "/p/a.profile".into();
    let mut b = bare("b", 5);
    b.profile_file = "/p/b.profile".into();
    let loaded = vec![Err(ProfileError::ParseError {}), Ok(bare("x", 4)), Ok(a), Ok(b)];
    let found = Profile::find_by_uuid(5, loaded).unwrap();
    assert_eq!(found.name, "a");
}

#[test]
fn find_by_uuid_reports_find_error() {
    let loaded = vec![Ok(bare("x", 4)), Err(ProfileError::OpenError {})];
    match Profile::find_by_uuid(9, loaded) {
        Err(ProfileError::FindError {}) => {}
        other => panic!("unexpected {:?}", other),
    }
}

#[test]
fn find_path_by_uuid_gives_file() {
    let mut a = bare("a", 5);
    a.profile_file = "/p/a.profile".into();
    assert_eq!(find_path_by_uuid(5, vec![Ok(a)]), Some("/p/a.profile".to_string()));
    assert_eq!(find_path_by_uuid(6, vec![Ok(bare("b", 5))]), None);
}

#[test]
fn get_profiles_skips_failures() {
    let loaded = vec![Ok(bare("a", 1)), Err(ProfileError::ParseError {}), Ok(bare("b", 2))];
    let names: Vec<String> = get_profiles(loaded).unwrap().into_iter().map(|p| p.name).collect();
    assert_eq!(names, vec!["a", "b"]);
    assert!(get_profiles(vec![]).unwrap().is_empty());
}

#[test]
fn profile_files_by_extension() {
    let paths: Vec<String> = vec![
        "/d/default.profile",
        "/d/.profile",
        "/d/notes.txt",
        "/d/a.profile.bak",
        "/d/x.y.profile",
        "/d.profile/readme",
        "plain.profile",
        "/d/a/.profile",
        "/d/profile",
    ]
    .into_iter()
    .map(String::from)
    .collect();
    let kept = get_profile_files(paths.clone()).unwrap();
    assert_eq!(kept, vec!["/d/default.profile", "/d/x.y.profile", "plain.profile"]);
    for p in &paths {
        let std_says = std::path::Path::new(p).extension().map(|e| e == "profile").unwrap_or(false);
        assert_eq!(kept.contains(p), std_says, "{}", p);
    }
}

#[test]
fn editor_value_decisions() {
    let p = ConfigParam::Int { name: "x".into(), value: 1 };
    assert_eq!(editor_value(ParamKind::Int, Some(&p)).unwrap(), Some(&p));
    assert!(editor_value(ParamKind::Color, None).unwrap().is_none());
    assert!(matches!(editor_value(ParamKind::Bool, Some(&p)), Err(ProfilesError::TypeMismatch {})));
}

#[test]
fn manifest_holds_parameters() {
    let m = Manifest {
        version: 1,
        exe_file: "/usr/bin/game".into(),
        process_name: "game".into(),
        window_instance: "game".into(),
        checksum: "abc".into(),
        parameters: vec![Parameter {
            name: "hp".into(),
            description: "health".into(),
            location: 3,
            default_color: 0xff0000,
        }],
    };
    assert_eq!(m.clone().parameters[0].location, 3);
}
