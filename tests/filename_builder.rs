use std::path::PathBuf;

use tracing_profile::{get_git_info, sanitize_filename, TraceFilenameBuilder, TraceOverrides};

/// Platform name handed to the builder, as the host would detect it.
const PLATFORM: &str = "x86_64";

fn built(builder: TraceFilenameBuilder) -> PathBuf {
    PathBuf::from(builder.build().unwrap())
}

#[test]
fn test_basic_builder() {
    let builder = TraceFilenameBuilder::new();
    let path = built(builder);

    assert!(path.to_string_lossy().ends_with(".perfetto-trace"));
}

#[test]
fn test_with_name_and_iteration() {
    let path = built(TraceFilenameBuilder::new().name("test_benchmark").iteration(5));

    let filename = path.file_name().unwrap().to_string_lossy();
    assert!(filename.contains("test_benchmark"));
    assert!(filename.contains("5"));
}

#[test]
fn test_custom_separator() {
    let path = built(TraceFilenameBuilder::new().name("test").iteration(1).separator("_"));

    let filename = path.file_name().unwrap().to_string_lossy();
    assert!(filename.contains("test_iter1"));
}

#[test]
fn test_subdirectories() {
    let path = built(
        TraceFilenameBuilder::new()
            .name("test")
            .output_dir("/tmp/traces")
            .subdir("benchmarks")
            .subdir("sha256"),
    );

    let path_str = path.to_string_lossy();
    assert!(path_str.contains("traces"));
    assert!(path_str.contains("benchmarks"));
    assert!(path_str.contains("sha256"));
}

#[test]
fn test_git_dirty_flag() {
    let path = built(
        TraceFilenameBuilder::new()
            .name("test")
            .git_branch("main")
            .git_commit("abc1234")
            .git_dirty(),
    );

    let filename = path.file_name().unwrap().to_string_lossy();
    assert!(filename.contains("dirty"));
}

#[test]
fn test_backward_compatibility_format() {
    let path = built(
        TraceFilenameBuilder::new()
            .timestamp()
            .git_info(&None)
            .platform(PLATFORM)
            .hostname(),
    );

    let filename = path.file_name().unwrap().to_string_lossy();
    assert!(filename.ends_with(".perfetto-trace"));

    let parts: Vec<&str> = filename.trim_end_matches(".perfetto-trace").split('.').collect();
    assert!(parts.len() >= 2);
}

#[test]
fn test_comprehensive_example() {
    let path = built(
        TraceFilenameBuilder::new()
            .name("sha256")
            .iteration(1)
            .variant("multi-threaded")
            .timestamp_custom("%Y_%m_%d_%H_%M")
            .git_branch("feature-branch")
            .git_commit("abc1234")
            .git_dirty()
            .platform(PLATFORM)
            .hostname()
            .output_dir("./traces")
            .subdir("benchmarks")
            .subdir("sha256"),
    );

    let filename = path.file_name().unwrap().to_string_lossy();
    let full_path = path.to_string_lossy();

    assert!(filename.contains("multi-threaded"));
    assert!(filename.contains("sha256"));
    assert!(filename.contains("1"));
    assert!(filename.contains("feature-branch"));
    assert!(filename.contains("abc1234"));
    assert!(filename.contains("dirty"));
    assert!(filename.ends_with(".perfetto-trace"));

    assert!(full_path.contains("traces"));
    assert!(full_path.contains("benchmarks"));
    assert!(full_path.contains("sha256"));
}

#[test]
fn test_convenience_methods() {
    let path0 = built(TraceFilenameBuilder::from_env(PLATFORM, &None));
    let filename0 = path0.file_name().unwrap().to_string_lossy();
    assert!(filename0.ends_with(".perfetto-trace"));

    let path1 = built(TraceFilenameBuilder::default_perfetto(PLATFORM, &None));
    let filename1 = path1.file_name().unwrap().to_string_lossy();
    assert!(filename1.ends_with(".perfetto-trace"));

    let path2 = built(
        TraceFilenameBuilder::for_benchmark("test_benchmark", PLATFORM, &None)
            .iteration(5),
    );
    let filename2 = path2.file_name().unwrap().to_string_lossy();
    assert!(filename2.contains("test_benchmark"));
    assert!(filename2.contains("5"));
}

#[test]
fn test_add_option() {
    let path1 = built(
        TraceFilenameBuilder::new()
            .name("test")
            .add_option("optional", Some("value"))
            .add_option("empty", None),
    );

    let filename1 = path1.file_name().unwrap().to_string_lossy();
    assert!(filename1.contains("value"));
    assert!(!filename1.contains("empty"));
}

#[test]
fn test_comprehensive_extended_example() {
    let path = built(
        TraceFilenameBuilder::new()
            .prepend("benchmark")
            .name("sha256")
            .iteration(1)
            .machine_name("workstation")
            .thread_mode("async")
            .thread_count(16)
            .config("release")
            .run_id("exp001")
            .add("custom", "value")
            .add_option("opt", Some("present"))
            .add_option("missing", None)
            .timestamp()
            .git_info(&None)
            .platform(PLATFORM)
            .hostname()
            .output_dir("./traces")
            .subdir("extended")
            .subdir("tests"),
    );

    let filename = path.file_name().unwrap().to_string_lossy();
    let full_path = path.to_string_lossy();

    assert!(filename.contains("benchmark"));
    assert!(filename.contains("value"));
    assert!(filename.contains("present"));
    assert!(!filename.contains("missing"));
    assert!(filename.contains("sha256"));
    assert!(filename.contains("iter1"));
    assert!(filename.contains("workstation"));
    assert!(filename.ends_with(".perfetto-trace"));

    assert!(full_path.contains("traces"));
    assert!(full_path.contains("extended"));
    assert!(full_path.contains("tests"));
}

#[test]
fn exact_path_from_components_in_order() {
    let path = TraceFilenameBuilder::new()
        .prepend("pre")
        .name("run")
        .add("a", "x")
        .add("b", "")
        .iteration(3)
        .git_commit("c0ffee")
        .git_branch("feat/new thing")
        .git_dirty()
        .platform("arm")
        .machine_name("box")
        .output_dir("out/")
        .subdirs(&["one", "two"])
        .build()
        .unwrap();
    assert_eq!(path, "out/one/two/pre.run.x.iter3.c0ffee.feat-new-thing.dirty.arm.box.perfetto-trace");
}

#[test]
fn empty_builder_gives_default_name() {
    let path = TraceFilenameBuilder::new().build().unwrap();
    assert_eq!(path, "./trace.perfetto-trace");
}

#[test]
fn absolute_subdirectory_replaces_base() {
    let path = TraceFilenameBuilder::new().name("n").output_dir("base").subdir("/abs").build().unwrap();
    assert_eq!(path, "/abs/n.perfetto-trace");
}

#[test]
fn overrides_take_precedence() {
    let overrides = TraceOverrides {
        file_path: None,
        trace_dir: Some("/tmp/my_traces".to_string()),
        name: Some("env_name".to_string()),
        iteration: Some("42".to_string()),
        machine_name: Some("env_machine".to_string()),
    };
    let location = TraceFilenameBuilder::new()
        .name("original_name")
        .iteration(1)
        .machine_name("original_machine")
        .output_dir("/ignored")
        .subdir("also_ignored")
        .build_with(&overrides);
    assert_eq!(location.path, "/tmp/my_traces/env_name.iter42.env_machine.perfetto-trace");
    assert_eq!(location.directory, Some("/tmp/my_traces".to_string()));
}

#[test]
fn unparsable_iteration_override_is_ignored() {
    let mut overrides = TraceOverrides::none();
    overrides.iteration = Some("x1".to_string());
    let location = TraceFilenameBuilder::new().name("n").iteration(7).build_with(&overrides);
    assert_eq!(location.path, "./n.iter7.perfetto-trace");

    overrides.iteration = Some("+8".to_string());
    let location = TraceFilenameBuilder::new().name("n").iteration(7).build_with(&overrides);
    assert_eq!(location.path, "./n.iter8.perfetto-trace");
}

#[test]
fn complete_path_override() {
    let mut overrides = TraceOverrides::none();
    overrides.file_path = Some("/tmp/custom_trace.perfetto-trace".to_string());
    let location = TraceFilenameBuilder::new().name("should_be_ignored").build_with(&overrides);
    assert_eq!(location.path, "/tmp/custom_trace.perfetto-trace");
    assert_eq!(location.directory, None);
}

#[test]
fn sanitize_replaces_unsafe_characters() {
    assert_eq!(sanitize_filename("feature/x y.z:a*b?c\"d<e>f|g#h\\i"), "feature-x-y-z-a-b-c-d-e-f-g-h-i");
    assert_eq!(sanitize_filename("plain-name_1"), "plain-name_1");
}

#[test]
fn git_info_from_build_values() {
    let info = get_git_info("feat/x", "abc1234", "true", "first line", "", "2025-01-01").unwrap();
    assert_eq!(info.branch, "feat/x");
    assert_eq!(info.commit_short, "abc1234");
    assert!(!info.is_clean);
    assert_eq!(info.commit_message, Some("first line".to_string()));
    assert_eq!(info.commit_author, None);
    assert_eq!(info.commit_time, Some("2025-01-01".to_string()));
    let clean = get_git_info("main", "abc", "false", "", "", "").unwrap();
    assert!(clean.is_clean);
    assert!(get_git_info("unknown", "abc", "false", "", "", "").is_none());
    assert!(get_git_info("main", "unknown", "false", "", "", "").is_none());

    let path = TraceFilenameBuilder::new().git_info(&Some(info)).build().unwrap();
    assert_eq!(path, "./abc1234.feat-x.dirty.perfetto-trace");
}

#[test]
fn timestamp_and_hostname_are_set() {
    let b = TraceFilenameBuilder::new().timestamp();
    assert_eq!(b.timestamp.as_ref().unwrap().len(), 15);
    let b = TraceFilenameBuilder::new().timestamp_custom("%Y");
    assert_eq!(b.timestamp.as_ref().unwrap().len(), 4);
}

#[test]
fn run_subdirectory_names_the_commit() {
    let info = get_git_info("main", "abc1234", "false", "", "", "");
    let b = TraceFilenameBuilder::new().subdir_run_id(&info);
    let dir = b.subdirs.last().unwrap();
    assert_eq!(dir.len(), 15 + 1 + 7);
    assert!(dir.ends_with("-abc1234"));
    let b = TraceFilenameBuilder::new().subdir_run_id(&None);
    assert!(b.subdirs[0].ends_with("-nogit"));
}
