use userdata_api::config::{contains_key, find_key, lookup_key, Config};

fn variables(pairs: &[(&str, &str)]) -> Vec<(String, String)> {
    pairs.iter().map(|(key, value)| (key.to_string(), value.to_string())).collect()
}

fn complete() -> Vec<(String, String)> {
    variables(&[
        ("PATH", "/usr/bin"),
        ("USER", "postgres"),
        ("PASSWORD", "hunter2"),
        ("HOST", "127.0.0.1"),
        ("PORT", "5432"),
        ("DBNAME", "userdata"),
        ("DISCORD_TOKEN", "discord"),
        ("USERDATA_AUTH", "secret"),
        ("SERVER_ADDR", "0.0.0.0:8080"),
        ("USER", "shadowed"),
    ])
}

#[test]
fn the_first_variable_of_a_name_is_found() {
    let vars = complete();
    assert_eq!(find_key(&vars, "USER"), "postgres");
    assert_eq!(find_key(&vars, "SERVER_ADDR"), "0.0.0.0:8080");
    assert_eq!(find_key(&vars, "PATH"), "/usr/bin");
}

#[test]
fn names_are_matched_whole_and_with_case() {
    let vars = variables(&[("USERS", "a"), ("user", "b"), ("USE", "c"), ("USER", "d")]);
    assert_eq!(find_key(&vars, "USER"), "d");
    assert!(contains_key(&vars, "USE"));
    assert!(!contains_key(&vars, "US"));
    assert!(!contains_key(&vars, "User"));
    assert!(!contains_key(&variables(&[]), "USER"));
}

#[test]
fn lookup_tells_a_missing_variable() {
    let vars = complete();
    assert_eq!(lookup_key(&vars, "HOST"), Some("127.0.0.1".to_string()));
    assert_eq!(lookup_key(&vars, "WEBHOOK_ID"), None);
    assert_eq!(lookup_key(&variables(&[("", "empty name")]), ""), Some("empty name".to_string()));
}

#[test]
fn a_complete_list_configures() {
    let config = Config::new(&complete());
    assert_eq!(config.discord_token, "discord");
    assert_eq!(config.userdata_auth, "secret");
    assert_eq!(config.server_addr, "0.0.0.0:8080");
    assert_eq!(config.pg.user.as_deref(), Some("postgres"));
    assert_eq!(config.pg.password.as_deref(), Some("hunter2"));
    assert_eq!(config.pg.host.as_deref(), Some("127.0.0.1"));
    assert_eq!(config.pg.port, Some(5432));
    assert_eq!(config.pg.dbname.as_deref(), Some("userdata"));
    let loaded = Config::load(&complete()).unwrap();
    assert_eq!(loaded.pg.port, Some(5432));
    assert_eq!(loaded.userdata_auth, "secret");
}

#[test]
fn a_missing_variable_or_a_bad_port_does_not_configure() {
    for missing in ["USER", "PASSWORD", "HOST", "PORT", "DBNAME", "DISCORD_TOKEN", "USERDATA_AUTH", "SERVER_ADDR"] {
        let vars: Vec<(String, String)> =
            complete().into_iter().filter(|(key, _)| key != missing).collect();
        assert!(Config::load(&vars).is_none());
    }
    for port in ["", "+", "http", "70000", "65536", "-1", "54 32", "5432 ", " 5432", "5_432", "0x10"] {
        let vars: Vec<(String, String)> = complete()
            .into_iter()
            .map(|(key, value)| if key == "PORT" { (key, port.to_string()) } else { (key, value) })
            .collect();
        assert!(Config::load(&vars).is_none());
    }
    let vars: Vec<(String, String)> = complete()
        .into_iter()
        .map(|(key, value)| if key == "PORT" { (key, "65535".to_string()) } else { (key, value) })
        .collect();
    assert_eq!(Config::load(&vars).unwrap().pg.port, Some(65535));
}

#[test]
fn ports_are_decimal_numbers_of_sixteen_bits() {
    for (text, port) in [("0", 0u16), ("+80", 80), ("00443", 443), ("65535", 65535)] {
        let vars: Vec<(String, String)> = complete()
            .into_iter()
            .map(|(key, value)| if key == "PORT" { (key, text.to_string()) } else { (key, value) })
            .collect();
        assert_eq!(Config::load(&vars).unwrap().pg.port, Some(port));
    }
}
