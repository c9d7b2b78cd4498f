use acemcp_core::config::default_batch_size;
use acemcp_core::config::default_exclude_patterns;
use acemcp_core::config::default_max_lines_per_blob;
use acemcp_core::config::default_proxy_port;
use acemcp_core::config::default_text_extensions;
use acemcp_core::config::default_watch_debounce_ms;

#[test]
fn numeric_defaults_match_the_settings_screen() {
    assert_eq!(default_batch_size(), 10);
    assert_eq!(default_max_lines_per_blob(), 800);
    assert_eq!(default_watch_debounce_ms(), 180_000);
    assert_eq!(default_proxy_port(), 7890);
}

#[test]
fn default_extensions_cover_the_usual_languages() {
    let exts = default_text_extensions();
    assert_eq!(exts.len(), 28);
    assert_eq!(exts[0], ".py");
    assert!(exts.contains(&".rs".to_string()));
    assert!(exts.contains(&".bash".to_string()));
}

#[test]
fn default_excludes_cover_build_outputs() {
    let pats = default_exclude_patterns();
    assert_eq!(pats, vec!["node_modules", ".git", "target", "dist"]);
}
