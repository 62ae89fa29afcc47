use starship::config::{text_eq, ConfigError, ConfigValue, ErrorQueue, ParseError};
use starship::context::Context;
use starship::modules::directory::{join_separators, Directory, DirectoryConfig};
use starship::modules::{lookup, prepare, Color, DispatchError, ModuleSegment, ModuleType, PreparedModule};
use starship::prompt::{format_output, render, PromptOpts};

fn table(entries: Vec<(&str, ConfigValue)>) -> ConfigValue {
    ConfigValue::Table(entries.into_iter().map(|(k, v)| (k.to_string(), v)).collect())
}

fn text(s: &str) -> ConfigValue {
    ConfigValue::String(s.to_string())
}

fn context(dir: &str, config: Option<ConfigValue>) -> Context {
    Context::new(PromptOpts::default(), dir.to_string(), None, config)
}

#[test]
fn join_keeps_absolute_path_with_default_separator() {
    assert_eq!(join_separators("/home/user/project", "/"), "/home/user/project");
}

#[test]
fn join_root_is_empty_leading_component() {
    assert_eq!(join_separators("/a/b", "::"), "::a::b");
}

#[test]
fn join_trailing_slash_starts_no_component() {
    assert_eq!(join_separators("/a/b/", "::"), "::a::b");
    assert_eq!(join_separators("a/", "::"), "a");
}

#[test]
fn join_relative_path() {
    assert_eq!(join_separators("a/b/c", " > "), "a > b > c");
}

#[test]
fn join_keeps_empty_components() {
    assert_eq!(join_separators("/a//b/", "|"), "|a||b");
    assert_eq!(join_separators("/a//b//", "|"), "|a||b|");
}

#[test]
fn join_edge_cases() {
    assert_eq!(join_separators("", "::"), "");
    assert_eq!(join_separators("/", "::"), "");
    assert_eq!(join_separators("/c", "::"), "::c");
    assert_eq!(join_separators("plain", "::"), "plain");
    assert_eq!(join_separators("/a/b", ""), "ab");
}

#[test]
fn join_is_deterministic() {
    let first = join_separators("/x/ü/z", "→");
    let second = join_separators("/x/ü/z", "→");
    assert_eq!(first, "→x→ü→z");
    assert_eq!(first, second);
}

#[test]
fn text_eq_compares_characters() {
    assert!(text_eq("directory", "directory"));
    assert!(!text_eq("directory", "Directory"));
    assert!(!text_eq("dir", "directory"));
    assert!(text_eq("", ""));
}

#[test]
fn get_finds_first_matching_key() {
    let doc = table(vec![("a", ConfigValue::Integer(1)), ("b", text("x")), ("a", ConfigValue::Integer(2))]);
    assert!(matches!(doc.get("a"), Some(ConfigValue::Integer(1))));
    assert!(matches!(doc.get("b"), Some(ConfigValue::String(s)) if s == "x"));
    assert!(doc.get("c").is_none());
    assert!(text("x").get("a").is_none());
}

#[test]
fn error_queue_starts_empty_and_grows() {
    let mut q = ErrorQueue::new();
    assert_eq!(q.len(), 0);
    q.push(ConfigError::InvalidConfig { module: "m".to_string(), error: ParseError::NotATable });
    assert_eq!(q.len(), 1);
    assert_eq!(q.entries().len(), 1);
}

#[test]
fn load_config_without_document_gives_default() {
    let ctx = context("/", None);
    let mut q = ErrorQueue::new();
    let c: DirectoryConfig = ctx.load_config("directory", &mut q);
    assert_eq!(c.format, "$path");
    assert_eq!(c.separator, "/");
    assert_eq!(q.len(), 0);
}

#[test]
fn load_config_missing_section_same_as_no_document() {
    let doc = table(vec![("git", table(vec![("separator", text("::"))]))]);
    let ctx = context("/", Some(doc));
    let mut q = ErrorQueue::new();
    let c: DirectoryConfig = ctx.load_config("directory", &mut q);
    let none_ctx = context("/", None);
    let mut q2 = ErrorQueue::new();
    let d: DirectoryConfig = none_ctx.load_config("directory", &mut q2);
    assert_eq!(c.format, d.format);
    assert_eq!(c.separator, d.separator);
    assert_eq!(q.len(), 0);
    assert_eq!(q2.len(), 0);
}

#[test]
fn load_config_reads_section() {
    let doc = table(vec![("directory", table(vec![("separator", text("::")), ("format", text("in $path"))]))]);
    let ctx = context("/", Some(doc));
    let mut q = ErrorQueue::new();
    let c: DirectoryConfig = ctx.load_config("directory", &mut q);
    assert_eq!(c.separator, "::");
    assert_eq!(c.format, "in $path");
    assert_eq!(q.len(), 0);
}

#[test]
fn load_config_partial_section_fills_defaults() {
    let doc = table(vec![("directory", table(vec![("format", text("$path!")), ("other", ConfigValue::Boolean(true))]))]);
    let ctx = context("/", Some(doc));
    let mut q = ErrorQueue::new();
    let c: DirectoryConfig = ctx.load_config("directory", &mut q);
    assert_eq!(c.format, "$path!");
    assert_eq!(c.separator, "/");
    assert_eq!(q.len(), 0);
}

#[test]
fn load_config_empty_section_is_default() {
    let doc = table(vec![("directory", table(vec![]))]);
    let ctx = context("/", Some(doc));
    let mut q = ErrorQueue::new();
    let c: DirectoryConfig = ctx.load_config("directory", &mut q);
    assert_eq!(c.format, "$path");
    assert_eq!(c.separator, "/");
    assert_eq!(q.len(), 0);
}

#[test]
fn load_config_wrong_type_queues_one_and_defaults() {
    let doc = table(vec![("directory", table(vec![("separator", ConfigValue::Integer(3))]))]);
    let ctx = context("/", Some(doc));
    let mut q = ErrorQueue::new();
    let c: DirectoryConfig = ctx.load_config("directory", &mut q);
    assert_eq!(c.separator, "/");
    assert_eq!(c.format, "$path");
    assert_eq!(q.len(), 1);
    match &q.entries()[0] {
        ConfigError::InvalidConfig { module, error: ParseError::InvalidType { key } } => {
            assert_eq!(module, "directory");
            assert_eq!(key, "separator");
        }
        _ => panic!("unexpected entry"),
    }
}

#[test]
fn load_config_wrong_format_names_format_key() {
    let doc = table(vec![("directory", table(vec![("format", ConfigValue::Boolean(false)), ("separator", text("::"))]))]);
    let ctx = context("/", Some(doc));
    let mut q = ErrorQueue::new();
    let c: DirectoryConfig = ctx.load_config("directory", &mut q);
    assert_eq!(c.separator, "/");
    assert_eq!(q.len(), 1);
    assert!(matches!(&q.entries()[0], ConfigError::InvalidConfig { error: ParseError::InvalidType { key }, .. } if key == "format"));
}

#[test]
fn load_config_scalar_section_is_a_parse_failure() {
    let doc = table(vec![("directory", text("::"))]);
    let ctx = context("/", Some(doc));
    let mut q = ErrorQueue::new();
    let c: DirectoryConfig = ctx.load_config("directory", &mut q);
    assert_eq!(c.separator, "/");
    assert_eq!(q.len(), 1);
    assert!(matches!(&q.entries()[0], ConfigError::InvalidConfig { error: ParseError::NotATable, .. }));
}

#[test]
fn default_directory_config() {
    let c = DirectoryConfig::default();
    assert_eq!(c.format, "$path");
    assert_eq!(c.separator, "/");
}

#[test]
fn directory_metadata() {
    assert_eq!(Directory.name(), "directory");
    assert_eq!(Directory.description(), "The current working directory");
}

#[test]
fn directory_prepare_gives_one_cyan_segment() {
    let ctx = context("/home/user/project", None);
    let mut q = ErrorQueue::new();
    let m = Directory.prepare(&ctx, &mut q);
    assert_eq!(m.0.len(), 1);
    assert_eq!(m.0[0].color, Color::Cyan);
    assert_eq!(m.0[0].text, "/home/user/project");
}

#[test]
fn lookup_is_exact() {
    assert!(lookup("directory").is_some());
    assert!(lookup("Directory").is_none());
    assert!(lookup("").is_none());
}

#[test]
fn dispatch_unknown_module_is_an_error() {
    let doc = table(vec![("directory", ConfigValue::Integer(1))]);
    let ctx = context("/a", Some(doc));
    let mut q = ErrorQueue::new();
    match prepare("nope", &ctx, &mut q) {
        Err(DispatchError::UnknownModule(name)) => assert_eq!(name, "nope"),
        Ok(_) => panic!("unknown module was prepared"),
    }
    assert_eq!(q.len(), 0);
}

#[test]
fn dispatch_known_module_with_bad_config_succeeds() {
    let doc = table(vec![("directory", ConfigValue::Array(vec![ConfigValue::Other]))]);
    let ctx = context("/a/b", Some(doc));
    let mut q = ErrorQueue::new();
    let m = prepare("directory", &ctx, &mut q);
    assert!(m.is_ok());
    assert_eq!(m.ok().unwrap().0[0].text, "/a/b");
    assert_eq!(q.len(), 1);
}

#[test]
fn format_concatenates_segments() {
    let m = PreparedModule(vec![
        ModuleSegment { color: Color::Red, text: "ab".to_string() },
        ModuleSegment { color: Color::Blue, text: "cd".to_string() },
    ]);
    assert_eq!(format_output(&m).unwrap(), "abcd");
    assert!(format_output(&PreparedModule(vec![])).is_none());
}

fn render_with(dir: &str, config: Option<ConfigValue>, q: &mut ErrorQueue) -> String {
    match render(PromptOpts::default(), dir.to_string(), None, config, q) {
        Ok(s) => s,
        Err(_) => panic!("render failed"),
    }
}

#[test]
fn render_default_separator() {
    let mut q = ErrorQueue::new();
    let doc = table(vec![("directory", table(vec![]))]);
    assert_eq!(render_with("/home/user/project", Some(doc), &mut q), "/home/user/project");
    assert_eq!(q.len(), 0);
}

#[test]
fn render_custom_separator() {
    let mut q = ErrorQueue::new();
    let doc = table(vec![("directory", table(vec![("separator", text("::"))]))]);
    assert_eq!(render_with("/a/b", Some(doc), &mut q), "::a::b");
    assert_eq!(q.len(), 0);
}

#[test]
fn render_without_config_file() {
    let mut q = ErrorQueue::new();
    assert_eq!(render_with("/a/b", None, &mut q), "/a/b");
    assert_eq!(q.len(), 0);
}

#[test]
fn render_with_mistyped_separator_uses_default() {
    let mut q = ErrorQueue::new();
    let doc = table(vec![("directory", table(vec![("separator", ConfigValue::Integer(5))]))]);
    assert_eq!(render_with("/a/b", Some(doc), &mut q), "/a/b");
    assert_eq!(q.len(), 1);
}

#[test]
fn render_keeps_status_option() {
    let opts = PromptOpts { status: Some("1".to_string()) };
    let ctx = Context::new(opts, "/".to_string(), None, None);
    assert_eq!(ctx.prompt_opts.status.as_deref(), Some("1"));
    assert_eq!(ctx.current_dir, "/");
}
