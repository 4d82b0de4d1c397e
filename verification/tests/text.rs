use context_store::config::{command_name, Commands, ProjectConfig};
use context_store::error::StoreError;
use context_store::text::{chars_of, find_word, tokenize};

fn terms(text: &str) -> Vec<String> {
    tokenize(text)
        .into_iter()
        .map(|t| t.into_iter().collect())
        .collect()
}

#[test]
fn tokenize_splits_and_lowercases() {
    assert_eq!(terms("Hello  WORLD"), vec!["hello", "world"]);
    assert_eq!(terms("rust search"), vec!["rust", "search"]);
    assert_eq!(terms("  padded \t words\n"), vec!["padded", "words"]);
    assert_eq!(terms(""), Vec::<String>::new());
    assert_eq!(terms(" \t\n "), Vec::<String>::new());
    assert_eq!(terms("MiXeD"), vec!["mixed"]);
}

#[test]
fn find_word_matches_whole_words_case_insensitively() {
    let hay = chars_of("Rust search works");
    let rust: Vec<char> = "rust".chars().collect();
    let work: Vec<char> = "work".chars().collect();
    let works: Vec<char> = "works".chars().collect();
    assert!(find_word(&hay, &rust));
    assert!(find_word(&hay, &works));
    // A prefix of a longer word is not a whole-word match.
    assert!(!find_word(&hay, &work));

    let trust = chars_of("trust me");
    assert!(!find_word(&trust, &rust));

    let empty: Vec<char> = Vec::new();
    assert!(!find_word(&hay, &empty));
}

#[test]
fn command_names_are_stable() {
    assert_eq!(command_name(&Commands::AgentDoc), "agent-doc");
    assert_eq!(command_name(&Commands::Init), "init");
    assert_eq!(command_name(&Commands::Put), "put");
    assert_eq!(command_name(&Commands::Get), "get");
    assert_eq!(command_name(&Commands::Cat), "cat");
    assert_eq!(command_name(&Commands::Find), "find");
    assert_eq!(command_name(&Commands::Ls), "ls");
    assert_eq!(command_name(&Commands::Rm), "rm");
    assert_eq!(command_name(&Commands::Gc), "gc");
    assert_eq!(command_name(&Commands::Web), "web");
    assert_eq!(command_name(&Commands::WebDev), "web-dev");
    assert_eq!(command_name(&Commands::Sync), "sync");
    assert_eq!(command_name(&Commands::DebugBundle), "debug-bundle");
    assert_eq!(command_name(&Commands::AgentConfig), "agent-config");
    assert_eq!(command_name(&Commands::Project), "project");
}

#[test]
fn ensure_known_records_each_project_once() {
    let mut config = ProjectConfig::default();
    assert_eq!(config.known, vec!["default".to_string()]);
    assert!(config.current.is_none());

    config.ensure_known("demo");
    assert_eq!(config.known, vec!["default".to_string(), "demo".to_string()]);

    // Already known: unchanged.
    config.ensure_known("demo");
    config.ensure_known("default");
    assert_eq!(config.known, vec!["default".to_string(), "demo".to_string()]);

    // Blank names are ignored.
    config.ensure_known("");
    config.ensure_known("   ");
    assert_eq!(config.known, vec!["default".to_string(), "demo".to_string()]);
}

#[test]
fn error_messages_name_their_remedy() {
    assert!(StoreError::Divergence.message().contains("force"));
    assert!(StoreError::LockContention.message().contains("lock"));
    assert!(StoreError::Corruption.message().contains("corrupt"));
}
