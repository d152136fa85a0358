use capnp_import::aggregate::{aggregate, derive_module_name, module_unit, OutputItem};
use capnp_import::discover::{discover, WalkItem};
use capnp_import::glob::{compile_patterns, is_match};
use capnp_import::invoke::{build_command, check_invocation, ExitOutcome};
use capnp_import::path::normalize_path;
use capnp_import::PipelineError;

fn matcher_of(patterns: &[&str]) -> capnp_import::glob::CombinedMatcher {
    let owned: Vec<String> = patterns.iter().map(|p| p.to_string()).collect();
    compile_patterns(&owned).unwrap()
}

fn entry(path: &str, is_file: bool) -> WalkItem {
    WalkItem::Entry { path: path.to_string(), is_file }
}

#[test]
fn normalization_strips_markers() {
    assert_eq!(normalize_path("./a/b.capnp"), "a/b.capnp");
    assert_eq!(normalize_path("/a//b/"), "a/b");
    assert_eq!(normalize_path("../a/./b"), "a/b");
    assert_eq!(normalize_path(""), "");
    assert_eq!(normalize_path("."), "");
    assert_eq!(normalize_path("/"), "");
    assert_eq!(normalize_path("..."), "...");
}

#[test]
fn normalization_is_idempotent_on_samples() {
    for p in ["./a/../b//c", "x", "", "/deep/./path/file.txt", "a/b/c/"] {
        let once = normalize_path(p);
        let twice = normalize_path(&once);
        assert_eq!(once, twice);
    }
}

#[test]
fn literal_patterns_match_exactly() {
    let m = matcher_of(&["schemas/example.schema"]);
    assert!(is_match(&m, "schemas/example.schema"));
    assert!(is_match(&m, "./schemas/example.schema"));
    assert!(!is_match(&m, "schemas/other.schema"));
    assert!(!is_match(&m, "schemas/sub/example.schema"));
}

#[test]
fn star_stays_within_a_segment() {
    let m = matcher_of(&["schemas/*.schema"]);
    assert!(is_match(&m, "schemas/a.schema"));
    assert!(!is_match(&m, "schemas/sub/a.schema"));
    assert!(!is_match(&m, "a.schema"));
}

#[test]
fn globstar_matches_at_any_depth() {
    let m = matcher_of(&["schemas/**/*.schema"]);
    assert!(is_match(&m, "schemas/x/a.schema"));
    assert!(is_match(&m, "schemas/x/y/z/b.schema"));
    assert!(is_match(&m, "schemas/a.schema"));
    assert!(!is_match(&m, "other/x/a.schema"));
}

#[test]
fn question_and_classes_match_one_character() {
    let m = matcher_of(&["a?c"]);
    assert!(is_match(&m, "abc"));
    assert!(is_match(&m, "axc"));
    assert!(!is_match(&m, "ac"));
    let m = matcher_of(&["[abc].txt"]);
    assert!(is_match(&m, "b.txt"));
    assert!(!is_match(&m, "d.txt"));
    let m = matcher_of(&["[!abc].txt"]);
    assert!(!is_match(&m, "b.txt"));
    assert!(is_match(&m, "d.txt"));
}

#[test]
fn any_pattern_of_the_list_may_match() {
    let m = matcher_of(&["a.schema", "b.schema"]);
    assert!(is_match(&m, "a.schema"));
    assert!(is_match(&m, "b.schema"));
    assert!(!is_match(&m, "c.schema"));
}

#[test]
fn unbalanced_bracket_is_a_syntax_error() {
    let patterns = vec!["ex[ample".to_string()];
    match compile_patterns(&patterns) {
        Err(PipelineError::PatternSyntaxError { pattern, message }) => {
            assert_eq!(pattern, "ex[ample");
            assert_eq!(message, "unbalanced bracket");
        }
        other => panic!("expected a pattern syntax error, got {:?}", other),
    }
}

#[test]
fn other_glob_defects_are_reported() {
    let empty_class = vec!["a[]b".to_string()];
    match compile_patterns(&empty_class) {
        Err(PipelineError::PatternSyntaxError { message, .. }) => {
            assert_eq!(message, "empty character class");
        }
        other => panic!("expected a pattern syntax error, got {:?}", other),
    }
    let empty_segment = vec!["a//b".to_string()];
    match compile_patterns(&empty_segment) {
        Err(PipelineError::PatternSyntaxError { message, .. }) => {
            assert_eq!(message, "empty segment");
        }
        other => panic!("expected a pattern syntax error, got {:?}", other),
    }
    let adjacent = vec!["a**".to_string()];
    match compile_patterns(&adjacent) {
        Err(PipelineError::PatternSyntaxError { message, .. }) => {
            assert_eq!(message, "`**` must be a whole segment");
        }
        other => panic!("expected a pattern syntax error, got {:?}", other),
    }
    // The first bad pattern of the list is the one reported.
    let mixed = vec!["fine/*.x".to_string(), "bad[".to_string(), "also[".to_string()];
    match compile_patterns(&mixed) {
        Err(PipelineError::PatternSyntaxError { pattern, .. }) => {
            assert_eq!(pattern, "bad[");
        }
        other => panic!("expected a pattern syntax error, got {:?}", other),
    }
}

#[test]
fn discovery_keeps_traversal_order_and_reruns_identically() {
    let m = matcher_of(&["**/*.capnp"]);
    let items = vec![
        entry("./b/two.capnp", true),
        entry("./a/one.capnp", true),
        entry("./a/ignore.txt", true),
        entry("./a", false),
    ];
    let first = discover(&m, &items).unwrap();
    assert_eq!(first, vec!["b/two.capnp".to_string(), "a/one.capnp".to_string()]);
    let second = discover(&m, &items).unwrap();
    assert_eq!(first, second);
}

#[test]
fn unreadable_entry_fails_discovery() {
    let m = matcher_of(&["**"]);
    let items = vec![
        entry("./ok.capnp", true),
        WalkItem::Unreadable { path: "./broken".to_string() },
        entry("./later.capnp", true),
    ];
    match discover(&m, &items) {
        Err(PipelineError::DiscoveryError { path }) => assert_eq!(path, "./broken"),
        other => panic!("expected a discovery error, got {:?}", other),
    }
}

#[test]
fn command_holds_inputs_in_order_and_may_be_empty() {
    let cmd = build_command(
        "/usr/bin/capnp",
        "scratch",
        vec!["a.capnp".to_string(), "b.capnp".to_string()],
    );
    assert_eq!(cmd.executable, "/usr/bin/capnp");
    assert_eq!(cmd.output_dir, "scratch");
    assert_eq!(cmd.inputs, vec!["a.capnp".to_string(), "b.capnp".to_string()]);

    let empty = build_command("/usr/bin/capnp", "scratch", Vec::new());
    assert!(empty.inputs.is_empty());
}

#[test]
fn nonzero_exit_is_an_invocation_error() {
    let outcome = ExitOutcome::Exited { code: 1, message: "schema parse failure".to_string() };
    match check_invocation(&outcome) {
        Err(PipelineError::CompilerInvocationError { message }) => {
            assert_eq!(message, "schema parse failure");
        }
        other => panic!("expected an invocation error, got {:?}", other),
    }
    let spawn = ExitOutcome::SpawnFailed { message: "no such executable".to_string() };
    match check_invocation(&spawn) {
        Err(PipelineError::CompilerInvocationError { message }) => {
            assert_eq!(message, "no such executable");
        }
        other => panic!("expected an invocation error, got {:?}", other),
    }
    assert!(check_invocation(&ExitOutcome::Exited { code: 0, message: String::new() }).is_ok());
}

#[test]
fn module_names_come_from_stems() {
    assert_eq!(derive_module_name("scratch/example_capnp.rs").unwrap(), "example_capnp");
    assert_eq!(derive_module_name("noext").unwrap(), "noext");
    match derive_module_name("scratch/1bad.rs") {
        Err(PipelineError::InvalidModuleNameError { name }) => assert_eq!(name, "1bad"),
        other => panic!("expected an invalid-name error, got {:?}", other),
    }
    match derive_module_name("scratch/a.b.rs") {
        Err(PipelineError::InvalidModuleNameError { name }) => assert_eq!(name, "a.b"),
        other => panic!("expected an invalid-name error, got {:?}", other),
    }
    match derive_module_name("scratch/.hidden") {
        Err(PipelineError::InvalidModuleNameError { name }) => assert_eq!(name, ".hidden"),
        other => panic!("expected an invalid-name error, got {:?}", other),
    }
    match derive_module_name("scratch/") {
        Err(PipelineError::InvalidModuleNameError { name }) => assert_eq!(name, ""),
        other => panic!("expected an invalid-name error, got {:?}", other),
    }
}

#[test]
fn module_unit_wraps_content() {
    let unit = module_unit("scratch/example.generated", "struct A;").unwrap();
    assert_eq!(unit, "mod example {\nstruct A;\n}\n");
}

#[test]
fn aggregation_of_nothing_is_empty_not_an_error() {
    let outputs: Vec<OutputItem> = Vec::new();
    assert_eq!(aggregate(&outputs).unwrap(), "");
}

#[test]
fn aggregation_keeps_order_and_skips_non_files() {
    let outputs = vec![
        OutputItem::Other { path: "scratch/sub".to_string() },
        OutputItem::File { path: "scratch/a.generated".to_string(), content: "A".to_string() },
        OutputItem::File { path: "scratch/sub/b.generated".to_string(), content: "B".to_string() },
    ];
    let blob = aggregate(&outputs).unwrap();
    assert_eq!(blob, "mod a {\nA\n}\nmod b {\nB\n}\n");
}

#[test]
fn colliding_stems_still_emit_two_scopes() {
    let outputs = vec![
        OutputItem::File { path: "scratch/x/a.generated".to_string(), content: "one".to_string() },
        OutputItem::File { path: "scratch/y/a.generated".to_string(), content: "two".to_string() },
    ];
    let blob = aggregate(&outputs).unwrap();
    assert_eq!(blob, "mod a {\none\n}\nmod a {\ntwo\n}\n");
}

#[test]
fn unreadable_output_fails_aggregation() {
    let outputs = vec![
        OutputItem::File { path: "scratch/a.generated".to_string(), content: "A".to_string() },
        OutputItem::Unreadable { path: "scratch/b.generated".to_string() },
    ];
    match aggregate(&outputs) {
        Err(PipelineError::AggregationError { path }) => assert_eq!(path, "scratch/b.generated"),
        other => panic!("expected an aggregation error, got {:?}", other),
    }
}

#[test]
fn scenario_one_file_one_scope() {
    let patterns = vec!["schemas/example.schema".to_string()];
    let matcher = compile_patterns(&patterns).unwrap();
    let items = vec![
        entry(".", false),
        entry("./schemas", false),
        entry("./schemas/example.schema", true),
        entry("./schemas/unrelated.txt", true),
    ];
    let inputs = discover(&matcher, &items).unwrap();
    assert_eq!(inputs, vec!["schemas/example.schema".to_string()]);

    assert!(check_invocation(&ExitOutcome::Exited { code: 0, message: String::new() }).is_ok());

    let generated = "struct Example {}";
    let outputs = vec![OutputItem::File {
        path: "scratch/example.generated".to_string(),
        content: generated.to_string(),
    }];
    let blob = aggregate(&outputs).unwrap();
    assert_eq!(blob, format!("mod example {{\n{}\n}}\n", generated));
}

#[test]
fn scenario_two_files_two_scopes_in_discovery_order() {
    let patterns = vec!["schemas/**/*.schema".to_string()];
    let matcher = compile_patterns(&patterns).unwrap();
    let items = vec![
        entry("./schemas", false),
        entry("./schemas/north/a.schema", true),
        entry("./schemas/south/b.schema", true),
    ];
    let inputs = discover(&matcher, &items).unwrap();
    assert_eq!(
        inputs,
        vec!["schemas/north/a.schema".to_string(), "schemas/south/b.schema".to_string()]
    );

    assert!(check_invocation(&ExitOutcome::Exited { code: 0, message: String::new() }).is_ok());

    let outputs = vec![
        OutputItem::File { path: "scratch/a.generated".to_string(), content: "AAA".to_string() },
        OutputItem::File { path: "scratch/b.generated".to_string(), content: "BBB".to_string() },
    ];
    let blob = aggregate(&outputs).unwrap();
    assert_eq!(blob, "mod a {\nAAA\n}\nmod b {\nBBB\n}\n");
}

#[test]
fn scenario_zero_matches_still_runs_and_yields_empty_output() {
    let patterns = vec!["schemas/*.schema".to_string()];
    let matcher = compile_patterns(&patterns).unwrap();
    let items = vec![entry(".", false), entry("./README.md", true)];
    let inputs = discover(&matcher, &items).unwrap();
    assert!(inputs.is_empty());

    // The invocation is not skipped: the command exists, with no inputs, and
    // its outcome is still consulted.
    let cmd = build_command("/usr/bin/capnp", "scratch", inputs);
    assert!(cmd.inputs.is_empty());
    assert!(check_invocation(&ExitOutcome::Exited { code: 0, message: String::new() }).is_ok());

    let outputs: Vec<OutputItem> = Vec::new();
    assert_eq!(aggregate(&outputs).unwrap(), "");
}
