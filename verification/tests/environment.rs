use openab_core::environment::{
    agent_environment, build_agent_env, child_environment, expand_env, reference_name, variables_to_read, EnvVars,
    Platform,
};

fn vars(entries: &[(&str, &str)]) -> EnvVars {
    let mut vars = EnvVars::new();
    for (name, value) in entries {
        vars.insert(name.to_string(), value.to_string());
    }
    vars
}

fn strings(names: &[&str]) -> Vec<String> {
    names.iter().map(|name| name.to_string()).collect()
}

#[test]
fn explicit_env_takes_precedence_over_inherit_env() {
    let key = "OAB_TEST_PRECEDENCE";
    let process = vars(&[(key, "from_process")]);
    let explicit = vars(&[(key, "from_config")]);
    let inherit = vec![key.to_string()];

    let (result, inherited) = build_agent_env(&explicit, &inherit, &process);

    assert_eq!(result.get(key).unwrap(), "from_config");
    assert!(!inherited.contains(&key.to_string()));
}

#[test]
fn inherit_env_copies_from_process() {
    let key = "OAB_TEST_INHERIT";
    let process = vars(&[(key, "process_value")]);
    let explicit = EnvVars::new();
    let inherit = vec![key.to_string()];

    let (result, inherited) = build_agent_env(&explicit, &inherit, &process);

    assert_eq!(result.get(key).unwrap(), "process_value");
    assert!(inherited.contains(&key.to_string()));
}

#[test]
fn inherit_env_skips_missing_vars() {
    let process = vars(&[("HOME", "/root")]);
    let explicit = EnvVars::new();
    let inherit = vec!["OAB_TEST_NONEXISTENT_VAR_12345".to_string()];

    let (result, inherited) = build_agent_env(&explicit, &inherit, &process);

    assert!(!result.contains_key("OAB_TEST_NONEXISTENT_VAR_12345"));
    assert!(inherited.is_empty());
}

#[test]
fn references_are_expanded() {
    let process = vars(&[("TOKEN", "abc"), ("ÜBER", "x"), ("A}", "brace")]);
    assert_eq!(expand_env("${TOKEN}", &process), "abc");
    assert_eq!(expand_env("${ÜBER}", &process), "x");
    assert_eq!(expand_env("${A}}", &process), "brace");
    assert_eq!(expand_env("${MISSING}", &process), "");
    assert_eq!(expand_env("${}", &process), "");
}

#[test]
fn other_values_stay_as_they_are() {
    let process = vars(&[("TOKEN", "abc")]);
    for value in [
        "", "$", "${", "$}", "{}", "${TOKEN", "$TOKEN", "x${TOKEN}", "${TOKEN}x", "plain",
    ] {
        assert_eq!(expand_env(value, &process), value);
    }
}

#[test]
fn an_expanded_value_is_not_expanded_again() {
    let process = vars(&[("A", "${B}"), ("B", "b")]);
    assert_eq!(expand_env("${A}", &process), "${B}");
    assert_eq!(expand_env("${${A}}", &process), "");
}

#[test]
fn names_of_references() {
    assert_eq!(reference_name("${TOKEN}"), Some("TOKEN".to_string()));
    assert_eq!(reference_name("${}"), Some(String::new()));
    assert_eq!(reference_name("${"), None);
    assert_eq!(reference_name("TOKEN"), None);
}

#[test]
fn configured_references_are_expanded_and_not_inherited() {
    let process = vars(&[("TOKEN", "abc"), ("LANG", "C")]);
    let explicit = vars(&[("KEY", "${TOKEN}"), ("GONE", "${MISSING}")]);
    let inherit = strings(&["LANG", "KEY", "LANG"]);
    let (result, inherited) = build_agent_env(&explicit, &inherit, &process);
    assert_eq!(result.get("KEY"), Some("abc"));
    assert_eq!(result.get("GONE"), Some(""));
    assert_eq!(result.get("LANG"), Some("C"));
    assert_eq!(result.get("TOKEN"), None);
    assert_eq!(result.entries().len(), 3);
    assert_eq!(inherited, strings(&["LANG"]));
}

#[test]
fn variables_are_replaced_in_place() {
    let mut set = EnvVars::new();
    assert!(set.is_empty());
    set.insert("A".to_string(), "1".to_string());
    set.insert("B".to_string(), "2".to_string());
    set.insert("A".to_string(), "3".to_string());
    assert!(!set.is_empty());
    assert_eq!(
        set.entries(),
        &vec![
            ("A".to_string(), "3".to_string()),
            ("B".to_string(), "2".to_string()),
        ]
    );
}

#[test]
fn unix_agents_get_home_path_and_user() {
    let process = vars(&[
        ("HOME", "/home/me"),
        ("PATH", "/bin"),
        ("USER", "me"),
        ("BOT_TOKEN", "hidden"),
        ("SystemRoot", "C:\\Windows"),
    ]);
    let child = child_environment(Platform::Unix, "/work", &EnvVars::new(), &process);
    assert_eq!(child.get("HOME"), Some("/home/me"));
    assert_eq!(child.get("PATH"), Some("/bin"));
    assert_eq!(child.get("USER"), Some("me"));
    assert_eq!(child.get("BOT_TOKEN"), None);
    assert_eq!(child.get("SystemRoot"), None);
    assert_eq!(child.entries().len(), 3);
}

#[test]
fn missing_variables_have_defaults() {
    let none = EnvVars::new();
    let child = child_environment(Platform::Unix, "/work", &none, &none);
    assert_eq!(child.get("HOME"), Some("/work"));
    assert_eq!(child.get("PATH"), Some("/usr/local/bin:/usr/bin:/bin"));
    assert_eq!(child.get("USER"), Some("agent"));

    let child = child_environment(Platform::Windows, "C:\\work", &none, &none);
    assert_eq!(child.get("HOME"), Some("C:\\work"));
    assert_eq!(child.get("USERPROFILE"), Some("C:\\work"));
    assert_eq!(child.get("USERNAME"), Some("agent"));
    assert!(!child.contains_key("SystemRoot"));
    assert!(!child.contains_key("SystemDrive"));
    assert!(!child.contains_key("USER"));

    let child = child_environment(Platform::Other, "/work", &none, &none);
    assert_eq!(child.entries().len(), 2);
}

#[test]
fn windows_agents_get_the_system_directories() {
    let process = vars(&[("SystemRoot", "C:\\Windows"), ("SystemDrive", "C:")]);
    let child = child_environment(Platform::Windows, "C:\\work", &EnvVars::new(), &process);
    assert_eq!(child.get("SystemRoot"), Some("C:\\Windows"));
    assert_eq!(child.get("SystemDrive"), Some("C:"));
}

#[test]
fn variables_of_the_agent_override_the_defaults() {
    let process = vars(&[("HOME", "/home/me")]);
    let agent = vars(&[("HOME", "/agent"), ("EXTRA", "1")]);
    let child = child_environment(Platform::Unix, "/work", &agent, &process);
    assert_eq!(child.get("HOME"), Some("/agent"));
    assert_eq!(child.get("EXTRA"), Some("1"));
}

#[test]
fn only_some_variables_have_to_be_read() {
    let explicit = vars(&[("KEY", "${TOKEN}"), ("PLAIN", "value")]);
    let inherit = strings(&["LANG"]);
    let mut names = variables_to_read(Platform::Unix, &explicit, &inherit);
    names.sort();
    assert_eq!(names, strings(&["HOME", "LANG", "PATH", "TOKEN", "USER"]));
    let mut names = variables_to_read(Platform::Windows, &EnvVars::new(), &[]);
    names.sort();
    assert_eq!(
        names,
        strings(&[
            "HOME",
            "PATH",
            "SystemDrive",
            "SystemRoot",
            "USERNAME",
            "USERPROFILE"
        ])
    );
    let names = variables_to_read(Platform::Other, &EnvVars::new(), &[]);
    assert_eq!(names.len(), 2);
}

#[test]
fn what_is_not_read_does_not_matter() {
    let all = vars(&[
        ("HOME", "/home/me"),
        ("TOKEN", "abc"),
        ("LANG", "C"),
        ("BOT_TOKEN", "hidden"),
    ]);
    let explicit = vars(&[("KEY", "${TOKEN}")]);
    let inherit = strings(&["LANG"]);
    let mut partial = EnvVars::new();
    for name in variables_to_read(Platform::Unix, &explicit, &inherit) {
        if let Some(value) = all.get(&name) {
            let value = value.to_string();
            partial.insert(name, value);
        }
    }
    assert!(!partial.contains_key("BOT_TOKEN"));
    let (from_all, inherited_all) = build_agent_env(&explicit, &inherit, &all);
    let (from_partial, inherited_partial) = build_agent_env(&explicit, &inherit, &partial);
    assert_eq!(from_all.entries(), from_partial.entries());
    assert_eq!(inherited_all, inherited_partial);
    assert_eq!(
        child_environment(Platform::Unix, "/work", &from_all, &all).entries(),
        child_environment(Platform::Unix, "/work", &from_partial, &partial).entries()
    );
}

#[test]
fn the_environment_of_an_agent_is_built_at_once() {
    let process = vars(&[
        ("HOME", "/home/me"),
        ("TOKEN", "abc"),
        ("LANG", "C"),
        ("BOT_TOKEN", "hidden"),
    ]);
    let explicit = vars(&[("KEY", "${TOKEN}"), ("PATH", "/opt/bin")]);
    let inherit = strings(&["PATH", "LANG", "MISSING"]);
    let (built, inherited) =
        agent_environment(Platform::Unix, "/work", &explicit, &inherit, &process);
    assert_eq!(built.get("HOME"), Some("/home/me"));
    assert_eq!(built.get("PATH"), Some("/opt/bin"));
    assert_eq!(built.get("USER"), Some("agent"));
    assert_eq!(built.get("KEY"), Some("abc"));
    assert_eq!(built.get("LANG"), Some("C"));
    assert_eq!(built.entries().len(), 5);
    assert_eq!(inherited, strings(&["LANG"]));

    let none = EnvVars::new();
    let (agent, inherited) = build_agent_env(&none, &strings(&["MISSING"]), &process);
    assert!(agent.is_empty() && inherited.is_empty());
}
