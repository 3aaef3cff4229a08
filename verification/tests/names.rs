use img2svg::defs::{SVGDef, SVGDefs};
use img2svg::files::{is_supported_name, output_name, supported_files};

#[test]
fn suffix_recognition() {
    assert!(is_supported_name("a.png"));
    assert!(is_supported_name("photo.jpeg"));
    assert!(is_supported_name("photo.jpg"));
    assert!(is_supported_name("dir.with.dots/x.png"));
    assert!(!is_supported_name("a.txt"));
    assert!(!is_supported_name("a.PNG"));
    assert!(!is_supported_name("apng"));
    assert!(!is_supported_name("png"));
    assert!(!is_supported_name(""));
}

#[test]
fn unsupported_suffix_is_excluded() {
    let args = vec![
        String::from("tool"),
        String::from("a.png"),
        String::from("b.gif"),
        String::from("c.jpeg"),
        String::from("d.jpg.txt"),
        String::from("e.jpg"),
    ];
    let files = supported_files(&args);
    assert_eq!(files, vec!["a.png", "c.jpeg", "e.jpg"]);
}

#[test]
fn no_matching_files_is_empty_not_error() {
    let args = vec![String::from("tool"), String::from("readme.md")];
    assert_eq!(supported_files(&args).len(), 0);
}

#[test]
fn output_name_replaces_suffix() {
    assert_eq!(output_name("a.png"), "a.svg");
    assert_eq!(output_name("photo.jpeg"), "photo.svg");
    assert_eq!(output_name("photo.jpg"), "photo.svg");
    assert_eq!(output_name("x.png.png"), "x.png.svg");
}

#[test]
fn def_strings_exact() {
    let def = SVGDef {
        i: 3,
        contents: String::from("<rect width='1.2' height='1.2' fill='#010203'></rect>"),
    };
    assert_eq!(
        def.to_string(),
        "<g id='3'><rect width='1.2' height='1.2' fill='#010203'></rect></g>"
    );
    assert_eq!(def.to_use_string(12, 34), "<use x='12' y='34' href='#3'></use>");
}

#[test]
fn contains_finds_first_matching_definition() {
    let mut defs = SVGDefs::new();
    let a = String::from("alpha");
    let b = String::from("beta");
    assert!(defs.contains(&a).is_none());
    defs.add(&a);
    defs.add(&b);
    let found = defs.contains(&b).expect("beta was added");
    assert_eq!(found.i, 1);
    assert_eq!(found.contents, "beta");
    assert!(defs.contains(&String::from("gamma")).is_none());
}
