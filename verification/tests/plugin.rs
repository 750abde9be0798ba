use salt::config::{ConfigError, PrintAllItemsPluginArgs};
use salt::plugin::{Compilation, CrateFilter, PrintAllItemsCallbacks, PrintAllItemsPlugin};
use salt::record::{Decl, Item};

fn decl(name: &str, kind: &str) -> Decl {
    Decl { name: name.to_string(), kind: kind.to_string() }
}

fn config(allcaps: bool) -> PrintAllItemsPluginArgs {
    PrintAllItemsPluginArgs { allcaps, cargo_args: Vec::new() }
}

fn strings(words: &[&str]) -> Vec<String> {
    words.iter().map(|w| w.to_string()).collect()
}

#[test]
fn example_unit_plain() {
    let decls = vec![decl("foo", "function"), decl("Bar", "struct")];
    let doc = salt::plugin::print_all_items(&decls, &config(false));
    assert_eq!(doc, "[{\"name\":\"foo\",\"ty\":\"function\"},{\"name\":\"Bar\",\"ty\":\"struct\"}]");
}

#[test]
fn example_unit_allcaps() {
    let decls = vec![decl("foo", "function"), decl("Bar", "struct")];
    let doc = salt::plugin::print_all_items(&decls, &config(true));
    assert_eq!(doc, "[{\"name\":\"FOO\",\"ty\":\"function\"},{\"name\":\"BAR\",\"ty\":\"struct\"}]");
}

#[test]
fn empty_unit_yields_empty_array() {
    let decls: Vec<Decl> = Vec::new();
    assert_eq!(salt::plugin::print_all_items(&decls, &config(false)), "[]");
    assert_eq!(salt::plugin::print_all_items(&decls, &config(true)), "[]");
}

#[test]
fn one_record_per_declaration_in_order() {
    let decls = vec![decl("a", "function"), decl("b", "enum"), decl("c", "module")];
    let doc = salt::plugin::print_all_items(&decls, &config(false));
    let parsed: serde_json::Value = serde_json::from_str(&doc).unwrap();
    let records = parsed.as_array().unwrap();
    assert_eq!(records.len(), 3);
    for (i, expected) in ["a", "b", "c"].iter().enumerate() {
        assert_eq!(records[i]["name"], serde_json::Value::String(expected.to_string()));
    }
    assert_eq!(records[1]["ty"], serde_json::Value::String("enum".to_string()));
}

#[test]
fn extraction_is_idempotent() {
    let decls = vec![decl("foo", "function"), decl("Bar", "struct"), decl("BAZ", "constant")];
    let first = salt::plugin::print_all_items(&decls, &config(true));
    let second = salt::plugin::print_all_items(&decls, &config(true));
    assert_eq!(first, second);
    let first_plain = salt::plugin::print_all_items(&decls, &config(false));
    let second_plain = salt::plugin::print_all_items(&decls, &config(false));
    assert_eq!(first_plain, second_plain);
}

#[test]
fn allcaps_transforms_name_only() {
    let decls = vec![decl("straße", "function")];
    let doc = salt::plugin::print_all_items(&decls, &config(true));
    let parsed: serde_json::Value = serde_json::from_str(&doc).unwrap();
    assert_eq!(parsed[0]["name"], serde_json::Value::String("STRASSE".to_string()));
    assert_eq!(parsed[0]["ty"], serde_json::Value::String("function".to_string()));
}

#[test]
fn no_allcaps_leaves_name_unchanged() {
    let decls = vec![decl("MiXeD_case", "trait")];
    let doc = salt::plugin::print_all_items(&decls, &config(false));
    let parsed: serde_json::Value = serde_json::from_str(&doc).unwrap();
    assert_eq!(parsed[0]["name"], serde_json::Value::String("MiXeD_case".to_string()));
}

#[test]
fn escaping_matches_reference_encoder() {
    let tricky_name = "a\"b\\c\nd\te\u{1}f\u{1f}g";
    let tricky_kind = "weird\r\u{8}\u{c}kind";
    let decls = vec![decl(tricky_name, tricky_kind)];
    let doc = salt::plugin::print_all_items(&decls, &config(false));

    let mut obj = serde_json::Map::new();
    obj.insert("name".to_string(), serde_json::Value::String(tricky_name.to_string()));
    obj.insert("ty".to_string(), serde_json::Value::String(tricky_kind.to_string()));
    let reference = serde_json::Value::Array(vec![serde_json::Value::Object(obj)]);
    assert_eq!(doc, serde_json::to_string(&reference).unwrap());
}

#[test]
fn non_ascii_passes_through_unescaped() {
    let decls = vec![decl("früh", "함수")];
    let doc = salt::plugin::print_all_items(&decls, &config(false));
    assert_eq!(doc, "[{\"name\":\"früh\",\"ty\":\"함수\"}]");
}

#[test]
fn parse_defaults() {
    let cfg = PrintAllItemsPluginArgs::parse(&strings(&[])).unwrap();
    assert!(!cfg.allcaps);
    assert!(cfg.cargo_args.is_empty());
}

#[test]
fn parse_allcaps_long_and_short() {
    let cfg = PrintAllItemsPluginArgs::parse(&strings(&["--allcaps"])).unwrap();
    assert!(cfg.allcaps);
    assert!(cfg.cargo_args.is_empty());
    let cfg = PrintAllItemsPluginArgs::parse(&strings(&["-a"])).unwrap();
    assert!(cfg.allcaps);
}

#[test]
fn parse_passthrough_after_separator() {
    let cfg =
        PrintAllItemsPluginArgs::parse(&strings(&["--allcaps", "--", "--features", "full"])).unwrap();
    assert!(cfg.allcaps);
    assert_eq!(cfg.cargo_args, strings(&["--features", "full"]));
}

#[test]
fn parse_switches_after_separator_are_not_interpreted() {
    let cfg = PrintAllItemsPluginArgs::parse(&strings(&["--", "--allcaps", "--bogus"])).unwrap();
    assert!(!cfg.allcaps);
    assert_eq!(cfg.cargo_args, strings(&["--allcaps", "--bogus"]));
}

#[test]
fn parse_unknown_flag_fails() {
    let err = PrintAllItemsPluginArgs::parse(&strings(&["--bogus"])).unwrap_err();
    assert_eq!(err, ConfigError::UnknownFlag("--bogus".to_string()));
    assert_eq!(err.message(), "unrecognized flag: --bogus");
}

#[test]
fn parse_reports_first_unknown_flag() {
    let err =
        PrintAllItemsPluginArgs::parse(&strings(&["--allcaps", "oops", "worse", "--", "x"]))
            .unwrap_err();
    assert_eq!(err, ConfigError::UnknownFlag("oops".to_string()));
}

#[test]
fn plugin_args_chooses_all_crates() {
    let plugin = PrintAllItemsPlugin;
    let (cfg, filter) = plugin.args(&strings(&["-a", "--", "build"])).unwrap();
    assert!(cfg.allcaps);
    assert_eq!(cfg.cargo_args, strings(&["build"]));
    assert_eq!(filter, CrateFilter::AllCrates);
    let err = plugin.args(&strings(&["--nope"])).unwrap_err();
    assert_eq!(err, ConfigError::UnknownFlag("--nope".to_string()));
}

#[test]
fn modify_cargo_appends_passthrough_in_order() {
    let plugin = PrintAllItemsPlugin;
    let mut cmd = strings(&["cargo", "check"]);
    let cfg = PrintAllItemsPluginArgs {
        allcaps: false,
        cargo_args: strings(&["--features", "full", "--offline"]),
    };
    plugin.modify_cargo(&mut cmd, &cfg);
    assert_eq!(cmd, strings(&["cargo", "check", "--features", "full", "--offline"]));
}

#[test]
fn modify_cargo_with_no_passthrough_changes_nothing() {
    let plugin = PrintAllItemsPlugin;
    let mut cmd = strings(&["cargo", "check"]);
    plugin.modify_cargo(&mut cmd, &config(false));
    assert_eq!(cmd, strings(&["cargo", "check"]));
}

#[test]
fn plugin_identity() {
    let plugin = PrintAllItemsPlugin;
    assert_eq!(plugin.version(), "0.1.0");
    assert_eq!(plugin.driver_name(), "salt-driver");
}

#[test]
fn callback_always_continues() {
    let callbacks = PrintAllItemsCallbacks { args: config(true) };
    let decls = vec![decl("foo", "function")];
    let (doc, signal) = callbacks.after_analysis(&decls);
    assert_eq!(doc, "[{\"name\":\"FOO\",\"ty\":\"function\"}]");
    assert_eq!(signal, Compilation::Continue);
    let (empty_doc, signal) = callbacks.after_analysis(&Vec::new());
    assert_eq!(empty_doc, "[]");
    assert_eq!(signal, Compilation::Continue);
}

#[test]
fn record_from_decl_keeps_fields() {
    let d = decl("foo", "function");
    let item = Item::from_decl(&d);
    assert_eq!(item.name, "foo");
    assert_eq!(item.ty, "function");
}
