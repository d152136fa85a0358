use capnp_import::aggregate::aggregate;
use capnp_import::aggregate::OutputItem;
use capnp_import::discover::discover;
use capnp_import::discover::WalkItem;
use capnp_import::glob::compile_patterns;
use capnp_import::invoke::check_invocation;
use capnp_import::invoke::ExitOutcome;

fn entry(path: &str, is_file: bool) -> WalkItem {
    WalkItem::Entry { path: path.to_string(), is_file }
}

#[test]
fn basic_file_test() {
    let patterns = vec!["tests/example.capnp".to_string()];
    let matcher = compile_patterns(&patterns).unwrap();
    let items = vec![
        entry(".", false),
        entry("./tests", false),
        entry("./tests/example.capnp", true),
    ];
    let inputs = discover(&matcher, &items).unwrap();
    assert_eq!(inputs, vec!["tests/example.capnp".to_string()]);

    let outcome = ExitOutcome::Exited { code: 0, message: String::new() };
    assert!(check_invocation(&outcome).is_ok());

    let outputs = vec![OutputItem::File {
        path: "scratch/example_capnp.rs".to_string(),
        content: "pub struct Person;".to_string(),
    }];
    let blob = aggregate(&outputs).unwrap();
    assert_eq!(blob, "mod example_capnp {\npub struct Person;\n}\n");
}

#[test]
fn folder_test() {
    // A pattern without `**` names one path; a directory is never an input
    // and a file below the named directory is not matched.
    let patterns = vec!["tests/folder-test".to_string()];
    let matcher = compile_patterns(&patterns).unwrap();
    let items = vec![
        entry(".", false),
        entry("./tests", false),
        entry("./tests/folder-test", false),
        entry("./tests/folder-test/example.capnp", true),
    ];
    let inputs = discover(&matcher, &items).unwrap();
    assert!(inputs.is_empty());

    let outcome = ExitOutcome::Exited { code: 0, message: String::new() };
    assert!(check_invocation(&outcome).is_ok());

    let outputs: Vec<OutputItem> = Vec::new();
    assert_eq!(aggregate(&outputs).unwrap(), "");
}
