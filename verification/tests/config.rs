use pregonero::config::{
    app_env_named, log_level_named, parse_port, AppEnv, Asked, Config, Environment, LogLevel,
};

struct MockEnvironment {
    vars: std::collections::HashMap<String, String>,
}

impl Environment for MockEnvironment {
    fn get_var(&self, var: &str) -> Option<String> {
        self.vars.get(var).map(|val| val.to_owned())
    }
}

#[test]
fn test_config_from_env() {
    let mut vars = std::collections::HashMap::new();
    vars.insert("ENV".to_string(), "prod".to_string());
    vars.insert("LOG_LEVEL".to_string(), "warn".to_string());
    vars.insert("REDIS_HOST".to_string(), "myredishost".to_string());
    vars.insert("REDIS_PORT".to_string(), "6359".to_string());
    vars.insert("VERSION".to_string(), "myversion".to_string());
    let mut env = Asked::new(MockEnvironment { vars });
    let config = Config::from_env(&mut env);
    assert_eq!(config.app_env, AppEnv::Production);
    assert_eq!(config.log_level, LogLevel::Warn);
    assert_eq!(
        config.redis_server.to_string(),
        "redis://myredishost:6359".to_string()
    );
    assert_eq!(config.version.to_string(), "myversion".to_string());
}

#[test]
fn test_config_from_params() {
    let config = Config::from_params("test".to_string());
    assert_eq!(config.app_env, AppEnv::Development);
    assert_eq!(config.log_level, LogLevel::Info);
    assert_eq!(
        config.redis_server.to_string(),
        "redis://127.0.0.1:6359".to_string()
    );
    assert_eq!(config.version.to_string(), "test".to_string());
}

#[test]
fn config_defaults() {
    let mut env = Asked::new(MockEnvironment { vars: std::collections::HashMap::new() });
    let config = Config::from_env(&mut env);
    assert_eq!(config.app_env, AppEnv::Development);
    assert_eq!(config.log_level, LogLevel::Info);
    assert_eq!(config.redis_server, "redis://localhost:6379");
    assert_eq!(config.version, "experimental");
}

// An environment that notes the names it is asked for.
struct Noting {
    names: std::cell::RefCell<Vec<String>>,
}

impl Environment for Noting {
    fn get_var(&self, var: &str) -> Option<String> {
        self.names.borrow_mut().push(var.to_string());
        match var {
            "REDIS_PORT" => Some("70000".to_string()),
            "LOG_LEVEL" => Some("verbose".to_string()),
            _ => None,
        }
    }
}

#[test]
fn config_asks_for_the_five_variables_in_order() {
    let mut env = Asked::new(Noting { names: std::cell::RefCell::new(vec![]) });
    let config = Config::from_env(&mut env);
    assert_eq!(config.log_level, LogLevel::Info);
    assert_eq!(config.redis_server, "redis://localhost:6379");
    assert_eq!(config.app_env, AppEnv::Development);
    assert_eq!(config.version, "experimental");
    let names = env.into_inner().names.into_inner();
    assert_eq!(names, vec!["ENV", "LOG_LEVEL", "REDIS_HOST", "REDIS_PORT", "VERSION"]);
}

#[test]
fn asked_passes_the_answer_on() {
    let mut vars = std::collections::HashMap::new();
    vars.insert("A".to_string(), "1".to_string());
    let mut env = Asked::new(MockEnvironment { vars });
    assert_eq!(env.get_var("A"), Some("1".to_string()));
    assert_eq!(env.get_var("B"), None);
}

#[test]
fn config_from_vars_falls_back() {
    let config = Config::from_vars(
        Some("PROD".to_string()),
        Some("loud".to_string()),
        Some("example.org".to_string()),
        Some("not a port".to_string()),
        None,
    );
    assert_eq!(config.app_env, AppEnv::Production);
    assert_eq!(config.log_level, LogLevel::Info);
    assert_eq!(config.redis_server, "redis://example.org:6379");
    assert_eq!(config.version, "experimental");
    let config = Config::from_vars(Some("staging".to_string()), Some("ERROR".to_string()), None, Some("70000".to_string()), None);
    assert_eq!(config.app_env, AppEnv::Development);
    assert_eq!(config.log_level, LogLevel::Error);
    assert_eq!(config.redis_server, "redis://localhost:6379");
}

#[test]
fn config_clone_is_equal() {
    let config = Config::from_params("v".to_string());
    assert_eq!(config.clone(), config);
}

#[test]
fn names_of_environments_and_levels() {
    assert_eq!(app_env_named("prod"), AppEnv::Production);
    assert_eq!(app_env_named("dev"), AppEnv::Development);
    assert_eq!(app_env_named("production"), AppEnv::Development);
    assert_eq!(log_level_named("trace"), LogLevel::Trace);
    assert_eq!(log_level_named("debug"), LogLevel::Debug);
    assert_eq!(log_level_named("info"), LogLevel::Info);
    assert_eq!(log_level_named("warn"), LogLevel::Warn);
    assert_eq!(log_level_named("error"), LogLevel::Error);
    assert_eq!(log_level_named("fatal"), LogLevel::Info);
}

#[test]
fn ports() {
    assert_eq!(parse_port("6379"), Some(6379));
    assert_eq!(parse_port("+80"), Some(80));
    assert_eq!(parse_port("0"), Some(0));
    assert_eq!(parse_port("65535"), Some(65535));
    assert_eq!(parse_port("65536"), None);
    assert_eq!(parse_port(""), None);
    assert_eq!(parse_port("+"), None);
    assert_eq!(parse_port("-1"), None);
    assert_eq!(parse_port(" 80"), None);
    for text in ["6379", "+80", "0", "65535", "65536", "", "+", "-1", " 80", "++1", "0080"] {
        assert_eq!(parse_port(text), text.parse::<u16>().ok());
    }
}
