use rnf::project::{init_gitignore, init_main_source, init_project_name, init_readme, release_target};

#[test]
fn project_name_defaults() {
    assert_eq!(init_project_name(None, Some("workdir")), "workdir");
    assert_eq!(init_project_name(None, None), "rnf_project");
    assert_eq!(init_project_name(Some("myproject"), Some("workdir")), "myproject");
}

#[test]
fn main_source_of_a_new_project() {
    let expected = "// demo — RNF Project\n// Run:   rnf --run src/main.rnf\n// Build: rnf --release src/main.rnf\n\nfn main() -> int {\n    name = \"demo\"\n    print(\"Hello from \" + name + \"!\")\n\n    // System automation\n    exec \"echo 'RNF is running!'\"\n\n    return 0\n}\n";
    assert_eq!(init_main_source("demo"), expected);
}

#[test]
fn main_source_of_a_new_project_parses() {
    let src = init_main_source("demo");
    let prog = rnf::source::parse_source(&src).expect("the template is a program");
    assert_eq!(prog.items.len(), 1);
}

#[test]
fn readme_and_gitignore_of_a_new_project() {
    let expected = "# demo\n\nAn RNF project.\n\n## Run\n```sh\nrnf --run src/main.rnf\n```\n\n## Build\n```sh\nrnf --release src/main.rnf\n```\n\n## Custom output path\n```sh\nrnf --release --path /custom/path src/main.rnf\n```\n";
    assert_eq!(init_readme("demo"), expected);
    assert_eq!(init_gitignore(), "release/\n*.ll\n*.o\n");
}

#[test]
fn release_binary_locations() {
    assert_eq!(release_target(None, "main"), ("release/binary".to_string(), "main".to_string()));
    assert_eq!(release_target(Some("/usr/local/bin"), "main"), ("/usr/local/bin".to_string(), "main".to_string()));
    assert_eq!(release_target(Some("out/app.bin"), "main"), ("out".to_string(), "app.bin".to_string()));
    assert_eq!(release_target(Some("app.bin"), "main"), ("".to_string(), "app.bin".to_string()));
    assert_eq!(release_target(Some(".hidden"), "main"), (".hidden".to_string(), "main".to_string()));
}
