//! Input files.

use supervisor_tools::inputs::{collect_inputs, module_files, Entry, ModuleWalk, PathKind, Walk};

fn entry(dir: &str, name: &str, is_dir: bool) -> Entry {
    Entry {
        path: format!("{dir}/{name}"),
        name: name.to_string(),
        dir: is_dir,
        link: false,
    }
}

fn walked(mut walk: Walk, read: impl Fn(&str) -> Vec<Entry>) -> Vec<String> {
    while let Some(dir) = walk.step() {
        walk.enter(&read(&dir));
    }
    walk.found
}

#[test]
fn module_walk_follows_file_modules() {
    let sources = [
        ("src/main.rs", "mod a;\nmod deep;\nmod inline { }\n"),
        ("src/a.rs", "pub fn a() {}\n"),
        ("src/deep/mod.rs", "mod b;\n"),
        ("src/deep/b.rs", "pub fn b() {}\n"),
    ];
    let text = |file: &str| sources.iter().find(|(name, _)| *name == file).map(|(_, text)| *text);
    let modules = |file: &str| -> Vec<Vec<String>> {
        let (dir, _) = file.rsplit_once('/').unwrap();
        module_files(text(file).unwrap(), file)
            .iter()
            .map(|places| places.iter().map(|names| format!("{dir}/{}", names.join("/"))).collect())
            .collect()
    };
    let mut walk = ModuleWalk::default();
    walk.add_root("src/main.rs");
    walk.enter(&modules("src/main.rs"));
    while let Some(places) = walk.step() {
        let is_file: Vec<bool> = places.iter().map(|place| text(place).is_some()).collect();
        if let Some(file) = walk.settle(&places, &is_file) {
            walk.enter(&modules(&file));
        }
    }
    let out = walk.found;
    let names: Vec<&str> = out.iter().map(|p| p.strip_prefix("src/").unwrap()).collect();
    assert_eq!(names, ["main.rs", "a.rs", "deep/mod.rs", "deep/b.rs"]);
}

#[test]
fn directory_inputs_walk_and_skip() {
    let read = |dir: &str| match dir {
        "dir" => vec![
            entry("dir", "x.rs", false),
            entry("dir", "sub", true),
            entry("dir", "target", true),
            entry("dir", ".git", true),
            entry("dir", "notes.txt", false),
        ],
        "dir/sub" => vec![entry("dir/sub", "y.rs", false)],
        "dir/target" => vec![entry("dir/target", "z.rs", false)],
        "dir/.git" => vec![entry("dir/.git", "g.rs", false)],
        _ => panic!("no directory {dir}"),
    };
    let walk = collect_inputs(&vec!["dir".to_string()], &vec![PathKind::Dir]).unwrap();
    let mut names: Vec<String> = walked(walk, read)
        .iter()
        .map(|p| p.rsplit('/').next().unwrap().to_string())
        .collect();
    names.sort();
    assert_eq!(names, ["x.rs", "y.rs"]);
    assert!(collect_inputs(&vec!["nope-does-not-exist".into()], &vec![PathKind::Missing]).is_err());
}

#[test]
fn a_walk_skips_symbolic_links_of_both_kinds() {
    let link = |name: &str, dir: bool| Entry { link: true, ..entry("dir", name, dir) };
    let read = |dir: &str| match dir {
        "dir" => vec![entry("dir", "a.rs", false), link("l.rs", false), link("s", true)],
        _ => panic!("went into {dir}"),
    };
    let walk = collect_inputs(&vec!["dir".to_string()], &vec![PathKind::Dir]).unwrap();
    assert_eq!(walked(walk, read), ["dir/a.rs"]);
}
