use homie::config::GlobalConfig;
use homie::template::{find_unbound_reference, preprocess_template, TemplateEngine};
use homie::vars::{VarMap, VarResolver};

fn vars_of(pairs: &[(&str, &str)]) -> VarMap {
    let mut vars = VarMap::new();
    for (k, v) in pairs {
        vars.insert(k.to_string(), v.to_string());
    }
    vars
}

#[test]
fn test_simple_render() {
    let engine = TemplateEngine::new();
    let vars = vars_of(&[("name", "World")]);
    let result = engine.render_string("Hello, {{name}}!", &vars).unwrap();
    assert_eq!(result, "Hello, World!");
}

#[test]
fn test_default_value() {
    let engine = TemplateEngine::new();
    let vars = VarMap::new();
    let result = engine.render_string("Hello, {{name:Guest}}!", &vars).unwrap();
    assert_eq!(result, "Hello, Guest!");
}

#[test]
fn test_default_value_with_var_present() {
    let engine = TemplateEngine::new();
    let vars = vars_of(&[("name", "World")]);
    let result = engine.render_string("Hello, {{name:Guest}}!", &vars).unwrap();
    assert_eq!(result, "Hello, World!");
}

#[test]
fn test_optional_missing() {
    let engine = TemplateEngine::new();
    let vars = VarMap::new();
    let result = engine.render_string("Hello{{name?}}!", &vars).unwrap();
    assert_eq!(result, "Hello!");
}

#[test]
fn test_optional_present() {
    let engine = TemplateEngine::new();
    let vars = vars_of(&[("name", ", World")]);
    let result = engine.render_string("Hello{{name?}}!", &vars).unwrap();
    assert_eq!(result, "Hello, World!");
}

#[test]
fn test_env_var_syntax() {
    let engine = TemplateEngine::new();
    let vars = vars_of(&[("env.API_KEY", "secret123")]);
    let result = engine.render_string("Key: {{env.API_KEY}}", &vars).unwrap();
    assert_eq!(result, "Key: secret123");
}

#[test]
fn test_multiline_template() {
    let engine = TemplateEngine::new();
    let vars = vars_of(&[("user", "alice"), ("email", "alice@example.com")]);
    let template = "[user]\n    name = {{user}}\n    email = {{email}}\n";
    let expected = "[user]\n    name = alice\n    email = alice@example.com\n";
    let result = engine.render_string(template, &vars).unwrap();
    assert_eq!(result, expected);
}

#[test]
fn preprocessing_resolves_only_own_markers() {
    let vars = vars_of(&[("name", "x")]);
    assert_eq!(preprocess_template("a {{name:d}} b {{other:d}}", &vars), "a {{name}} b d");
    assert_eq!(preprocess_template("{{name?}}{{missing?}}.", &vars), "{{name}}.");
    assert_eq!(preprocess_template("{{env.HOME}}|{{#if x}}y{{/if}}", &vars), "|{{#if x}}y{{/if}}");
    assert_eq!(preprocess_template("{{name:}}{{a b:c}}", &VarMap::new()), "{{a b:c}}");
    assert_eq!(preprocess_template("{{name:unclosed}", &VarMap::new()), "{{name:unclosed}");
}

#[test]
fn test_builtin_vars() {
    let config = GlobalConfig::default();
    let resolver = VarResolver::new(&config, None, "tester", "linux");
    let data = resolver.to_template_data(&VarMap::new());
    assert!(data.contains_key("hostname"));
    assert!(data.contains_key("user"));
    assert!(data.contains_key("home"));
    assert!(data.contains_key("os"));
    assert_eq!(data.get("user"), Some(&"tester".to_string()));
}

#[test]
fn test_global_vars() {
    let mut config = GlobalConfig::default();
    config.vars.insert("email".to_string(), "test@example.com".to_string());
    let resolver = VarResolver::new(&config, None, "tester", "linux");
    let data = resolver.to_template_data(&VarMap::new());
    assert_eq!(data.get("email"), Some(&"test@example.com".to_string()));
}

#[test]
fn pass_through_environment() {
    let mut config = GlobalConfig::default();
    config.env.pass_through = vec!["API_KEY".to_string(), "UNSET".to_string()];
    config.vars.insert("user".to_string(), "override".to_string());
    let resolver = VarResolver::new(&config, None, "tester", "linux");
    let env = vars_of(&[("API_KEY", "k1"), ("OTHER", "no")]);
    let data = resolver.to_template_data(&env);
    assert_eq!(data.get("env.API_KEY"), Some(&"k1".to_string()));
    assert_eq!(data.get("env.UNSET"), None);
    assert_eq!(data.get("env.OTHER"), None);
    assert_eq!(data.get("user"), Some(&"override".to_string()));
}

#[test]
fn empty_and_plain_templates() {
    assert_eq!(preprocess_template("", &VarMap::new()), "");
    let engine = TemplateEngine::new();
    assert_eq!(engine.render_string("", &VarMap::new()).unwrap(), "");
    assert_eq!(engine.render_string("no markers", &VarMap::new()).unwrap(), "no markers");
}

#[test]
fn required_variable_must_be_bound() {
    let engine = TemplateEngine::new();
    assert!(engine.render_string("Hello, {{name}}!", &VarMap::new()).is_err());
    assert!(engine.render_string("Hello, {{name:Guest}}!", &VarMap::new()).is_ok());
    assert!(find_unbound_reference("{{a}}", &VarMap::new()));
    assert!(!find_unbound_reference("\\{{a}}", &VarMap::new()));
    assert!(!find_unbound_reference("{{else}}", &VarMap::new()));
}
