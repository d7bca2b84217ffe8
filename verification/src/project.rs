//! What the command line writes and where: the files of a new project and
//! the place of a release binary.
use vstd::prelude::*;
use crate::source::{bare_name, last_dot};
use crate::text::{push_text, string_of};

verus! {

/// The project name that `init` uses: the one given, else the name of the
/// current directory, else (where the directory has no name, as `/`)
/// `rnf_project`.
pub open spec fn project_name(name: Option<Seq<char>>, current_dir: Option<Seq<char>>) -> Seq<char> {
    match name {
        Some(n) => n,
        None => match current_dir {
            Some(d) => d,
            None => "rnf_project"@,
        },
    }
}

/// The project name that `init` uses, given the name of the current
/// directory where it has one.
pub fn init_project_name(name: Option<&str>, current_dir: Option<&str>) -> (r: String)
    ensures
        r@ == project_name(
            match name { Some(n) => Some(n@), None => None },
            match current_dir { Some(d) => Some(d@), None => None },
        ),
{
    match name {
        Some(n) => string_of(n),
        None => match current_dir {
            Some(d) => string_of(d),
            None => string_of("rnf_project"),
        },
    }
}

/// The text of `src/main.rnf` in a new project.
pub open spec fn main_template(project: Seq<char>) -> Seq<char> {
    "// "@ + project
        + " — RNF Project\n// Run:   rnf --run src/main.rnf\n// Build: rnf --release src/main.rnf\n\nfn main() -> int {\n    name = \""@
        + project
        + "\"\n    print(\"Hello from \" + name + \"!\")\n\n    // System automation\n    exec \"echo 'RNF is running!'\"\n\n    return 0\n}\n"@
}

/// The text of `src/main.rnf` in a new project named `project`.
pub fn init_main_source(project: &str) -> (r: String)
    ensures
        r@ == main_template(project@),
{
    let mut s = String::new();
    push_text(&mut s, "// ");
    push_text(&mut s, project);
    push_text(
        &mut s,
        " — RNF Project\n// Run:   rnf --run src/main.rnf\n// Build: rnf --release src/main.rnf\n\nfn main() -> int {\n    name = \"",
    );
    push_text(&mut s, project);
    push_text(
        &mut s,
        "\"\n    print(\"Hello from \" + name + \"!\")\n\n    // System automation\n    exec \"echo 'RNF is running!'\"\n\n    return 0\n}\n",
    );
    s
}

/// The text of `README.md` in a new project.
pub open spec fn readme_template(project: Seq<char>) -> Seq<char> {
    "# "@ + project
        + "\n\nAn RNF project.\n\n## Run\n```sh\nrnf --run src/main.rnf\n```\n\n## Build\n```sh\nrnf --release src/main.rnf\n```\n\n## Custom output path\n```sh\nrnf --release --path /custom/path src/main.rnf\n```\n"@
}

/// The text of `README.md` in a new project named `project`.
pub fn init_readme(project: &str) -> (r: String)
    ensures
        r@ == readme_template(project@),
{
    let mut s = String::new();
    push_text(&mut s, "# ");
    push_text(&mut s, project);
    push_text(
        &mut s,
        "\n\nAn RNF project.\n\n## Run\n```sh\nrnf --run src/main.rnf\n```\n\n## Build\n```sh\nrnf --release src/main.rnf\n```\n\n## Custom output path\n```sh\nrnf --release --path /custom/path src/main.rnf\n```\n",
    );
    s
}

/// The text of `.gitignore` in a new project: build outputs.
pub fn init_gitignore() -> (r: String)
    ensures
        r@ == "release/\n*.ll\n*.o\n"@,
{
    string_of("release/\n*.ll\n*.o\n")
}

// ── Where a release binary goes ──────────────────────────────────────────────

/// Whether `Path::extension` finds an extension in the path.
pub uninterp spec fn path_extension_present(path: Seq<char>) -> bool;

/// The text of `Path::parent` of the path: `None` where it has none.
pub uninterp spec fn path_parent(path: Seq<char>) -> Option<Seq<char>>;

/// The text of `Path::file_name` of the path: `None` where it has none.
pub uninterp spec fn path_file_name(path: Seq<char>) -> Option<Seq<char>>;

/// A bare file name that names a file (not `.` or `..`) and has an
/// extension: a `.` after its first character.
pub open spec fn name_has_extension(name: Seq<char>) -> bool {
    &&& name != seq!['.']
    &&& name != seq!['.', '.']
    &&& match last_dot(name) {
        Some(i) => i > 0,
        None => false,
    }
}

/// Calls `Path::extension` and tells whether it found one. The answer is
/// named `path_extension_present(path)`; for a bare file name the
/// documentation of `extension` gives it, which is stated.
#[verifier::external_body]
fn has_extension(path: &str) -> (r: bool)
    ensures
        r == path_extension_present(path@),
        bare_name(path@) ==> (r == name_has_extension(path@)),
{
    std::path::Path::new(path).extension().is_some()
}

/// Calls `Path::parent` and converts the parent to text. The result is
/// named `path_parent(path)`; for a bare file name with an extension the
/// parent is the empty path, which is stated.
#[verifier::external_body]
fn parent_text(path: &str) -> (r: Option<String>)
    ensures
        match r {
            Some(s) => path_parent(path@) == Some(s@),
            None => path_parent(path@) is None,
        },
        bare_name(path@) && name_has_extension(path@) ==> (r is Some && r.unwrap()@ == Seq::<char>::empty()),
{
    std::path::Path::new(path).parent().map(|p| p.to_string_lossy().into_owned())
}

/// Calls `Path::file_name` and converts it to text. The result is named
/// `path_file_name(path)`; a path with an extension has a file name (the
/// extension is read from it), and for a bare file name with an extension
/// it is the name itself.
#[verifier::external_body]
fn file_name_text(path: &str) -> (r: Option<String>)
    ensures
        match r {
            Some(s) => path_file_name(path@) == Some(s@),
            None => path_file_name(path@) is None,
        },
        path_extension_present(path@) ==> r is Some,
        bare_name(path@) && name_has_extension(path@) ==> (r is Some && r.unwrap()@ == path@),
{
    std::path::Path::new(path).file_name().map(|n| n.to_string_lossy().into_owned())
}

/// Where `--release` puts the binary, as (directory, file name): a given
/// path with an extension names the file itself, in its parent directory
/// (`.` where it has no parent); another given path is the directory, the
/// binary named by the stem; without a path, `release/binary`.
pub open spec fn release_target_spec(out: Option<Seq<char>>, stem: Seq<char>) -> (Seq<char>, Seq<char>) {
    match out {
        Some(p) => if path_extension_present(p) {
            (
                match path_parent(p) {
                    Some(d) => d,
                    None => "."@,
                },
                path_file_name(p)->0,
            )
        } else {
            (p, stem)
        },
        None => ("release/binary"@, stem),
    }
}

/// Where `--release` puts the binary built from a source with stem `stem`.
pub fn release_target(out: Option<&str>, stem: &str) -> (r: (String, String))
    ensures
        (r.0@, r.1@) == release_target_spec(match out { Some(p) => Some(p@), None => None }, stem@),
{
    match out {
        Some(p) => {
            if has_extension(p) {
                let dir = match parent_text(p) {
                    Some(d) => d,
                    None => string_of("."),
                };
                let name = match file_name_text(p) {
                    Some(n) => n,
                    None => String::new(),
                };
                (dir, name)
            } else {
                (string_of(p), string_of(stem))
            }
        },
        None => (string_of("release/binary"), string_of(stem)),
    }
}

} // verus!
