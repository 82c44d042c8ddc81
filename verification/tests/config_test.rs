use belt_core::config::{parent_dir_exec, resolve_pipeline_path, BeltConfig};

#[test]
fn preserves_absolute_pipeline_path() {
    let config = BeltConfig { pipeline: "/tmp/absolute/pipeline.yml".to_string() };
    let config_path = "/some/config/dir/belt.toml";
    let resolved = resolve_pipeline_path(config_path, &config);
    assert_eq!(
        resolved, "/tmp/absolute/pipeline.yml",
        "absolute pipeline path in belt.toml must be returned unchanged (not joined with config_dir)"
    );
}

#[test]
fn relative_pipeline_path_joins_config_dir() {
    let config = BeltConfig { pipeline: "pipelines/main.yml".to_string() };
    assert_eq!(resolve_pipeline_path("/work/belt.toml", &config), "/work/pipelines/main.yml");
    assert_eq!(resolve_pipeline_path("belt.toml", &config), "pipelines/main.yml");
    assert_eq!(resolve_pipeline_path("conf/belt.toml", &config), "conf/pipelines/main.yml");
}

#[test]
fn parent_dir_of_paths() {
    assert_eq!(parent_dir_exec("/a/b/c.toml"), Some("/a/b".to_string()));
    assert_eq!(parent_dir_exec("c.toml"), Some(String::new()));
    assert_eq!(parent_dir_exec("/"), None);
}
