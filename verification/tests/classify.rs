use sitegen::classify::{is_readme, is_text_file, output_name};

#[test]
fn text_files_end_in_txt_or_md() {
    assert!(is_text_file("notes.md"));
    assert!(is_text_file("log.txt"));
    assert!(is_text_file("README.md"));
    assert!(is_text_file(".md"));
    assert!(is_text_file("a.b.txt"));
}

#[test]
fn other_files_are_not_text_files() {
    assert!(!is_text_file("image.png"));
    assert!(!is_text_file("notes.MD"));
    assert!(!is_text_file("notes.md.html"));
    assert!(!is_text_file("md"));
    assert!(!is_text_file("txt"));
    assert!(!is_text_file(""));
    assert!(!is_text_file("notes.markdown"));
}

#[test]
fn readme_names_are_exact() {
    assert!(is_readme("README.md"));
    assert!(is_readme("README.txt"));
    assert!(!is_readme("readme.md"));
    assert!(!is_readme("README"));
    assert!(!is_readme("README.html"));
    assert!(!is_readme("XREADME.md"));
    assert!(!is_readme("README.md "));
}

#[test]
fn readme_is_published_as_index() {
    assert_eq!(output_name("README.md"), "index.html");
    assert_eq!(output_name("README.txt"), "index.html");
}

#[test]
fn text_files_keep_their_extension_inside_the_name() {
    assert_eq!(output_name("notes.md"), "notes.md.html");
    assert_eq!(output_name("log.txt"), "log.txt.html");
    assert_eq!(output_name("a.b.md"), "a.b.md.html");
    assert_eq!(output_name(".md"), ".md.html");
    assert_eq!(output_name("READMEX.md"), "READMEX.md.html");
}

#[test]
fn other_files_keep_their_name() {
    assert_eq!(output_name("image.png"), "image.png");
    assert_eq!(output_name("notes.html"), "notes.html");
    assert_eq!(output_name("README"), "README");
    assert_eq!(output_name(""), "");
}

#[test]
fn same_stem_markdown_and_text_do_not_collide() {
    let md = output_name("x.md");
    let txt = output_name("x.txt");
    assert_eq!(md, "x.md.html");
    assert_eq!(txt, "x.txt.html");
    assert_ne!(md, txt);
}

#[test]
fn page_does_not_take_the_name_of_a_plain_html_sibling() {
    assert_ne!(output_name("notes.md"), output_name("notes.html"));
}
