use sitegen::error::SiteError;
use sitegen::page::Templates;
use sitegen::site::{build_html, copy_names, names_with, render_site, Artifact, SitePlan};
use sitegen::tree::{Entry, Node};

fn file(name: &str, content: &[u8]) -> Entry {
    Entry { name: name.to_string(), node: Node::File { content: content.to_vec() } }
}

fn dir(name: &str, children: Vec<Entry>) -> Entry {
    Entry { name: name.to_string(), node: Node::Directory { children } }
}

fn path(names: &[&str]) -> Vec<String> {
    names.iter().map(|n| n.to_string()).collect()
}

fn templates() -> Templates {
    Templates {
        page: "<html>{{breadcrumbs}}|{{content}}</html>".to_string(),
        listing: "<h1>{{name}}</h1><ul>{{content}}</ul>".to_string(),
    }
}

fn sample() -> Node {
    Node::Directory {
        children: vec![
            file("README.md", b"# Hi"),
            dir("a", vec![file("x.txt", b"hello"), file("bin.dat", &[0, 159, 146, 150])]),
        ],
    }
}

fn sample_plan() -> SitePlan {
    SitePlan {
        artifacts: vec![
            Artifact::Directory { path: path(&[]) },
            Artifact::Page {
                path: path(&["index.html"]),
                html: "<html>|<h1>Home</h1><ul>\
                       <li class=\"directory-listing\"><a href=\"/a\">a</a></li>\
                       <li class=\"text-file-listing\"><a href=\"/index.html\">README.md</a></li>\
                       </ul></html>"
                    .to_string(),
            },
            Artifact::Page {
                path: path(&["index.html"]),
                html: "<html><a href=\"/\">root</a> / <span>README.md</span>|<h1>Hi</h1></html>"
                    .to_string(),
            },
            Artifact::Directory { path: path(&["a"]) },
            Artifact::Page {
                path: path(&["a", "index.html"]),
                html: "<html><a href=\"/\">root</a> / <span>a</span>|<h1>a</h1><ul>\
                       <li class=\"file-listing\"><a href=\"/a/bin.dat\">bin.dat</a></li>\
                       <li class=\"text-file-listing\"><a href=\"/a/x.txt.html\">x.txt</a></li>\
                       </ul></html>"
                    .to_string(),
            },
            Artifact::Page {
                path: path(&["a", "x.txt.html"]),
                html: "<html><a href=\"/\">root</a> / <a href=\"/a\">a</a> / <span>x.txt</span>|\
                       <pre class=\"text-file\">hello</pre></html>"
                    .to_string(),
            },
            Artifact::Copy { path: path(&["a", "bin.dat"]), content: vec![0, 159, 146, 150] },
        ],
        failure: None,
    }
}

#[test]
fn whole_site_in_order() {
    assert_eq!(render_site("Home", &sample(), &templates()), sample_plan());
}

#[test]
fn rendering_twice_gives_the_same_plan() {
    let first = render_site("Home", &sample(), &templates());
    let second = render_site("Home", &sample(), &templates());
    assert_eq!(first, second);
}

#[test]
fn children_are_visited_in_tree_order_not_listing_order() {
    let root = Node::Directory { children: vec![file("b.bin", b"b"), file("a.bin", b"a")] };
    let plan = render_site("r", &root, &templates());
    assert_eq!(plan.failure, None);
    assert_eq!(plan.artifacts.len(), 4);
    assert_eq!(plan.artifacts[2], Artifact::Copy { path: path(&["b.bin"]), content: vec![98] });
    assert_eq!(plan.artifacts[3], Artifact::Copy { path: path(&["a.bin"]), content: vec![97] });
}

#[test]
fn index_page_comes_before_any_child() {
    let plan = render_site("Home", &sample(), &templates());
    assert_eq!(plan.artifacts[0], Artifact::Directory { path: path(&[]) });
    assert!(matches!(&plan.artifacts[1], Artifact::Page { path: p, .. } if *p == path(&["index.html"])));
    assert_eq!(plan.artifacts[3], Artifact::Directory { path: path(&["a"]) });
    assert!(matches!(&plan.artifacts[4], Artifact::Page { path: p, .. } if *p == path(&["a", "index.html"])));
}

#[test]
fn readme_page_replaces_the_directory_index() {
    let root = Node::Directory {
        children: vec![dir("d", vec![file("README.txt", b"read me")])],
    };
    let plan = render_site("r", &root, &templates());
    assert_eq!(plan.failure, None);
    assert_eq!(plan.artifacts.len(), 5);
    assert!(matches!(&plan.artifacts[3], Artifact::Page { path: p, .. } if *p == path(&["d", "index.html"])));
    assert_eq!(
        plan.artifacts[4],
        Artifact::Page {
            path: path(&["d", "index.html"]),
            html: "<html><a href=\"/\">root</a> / <span>d</span>|\
                   <pre class=\"text-file\">read me</pre></html>"
                .to_string(),
        }
    );
}

#[test]
fn same_stem_markdown_and_text_are_both_published() {
    let root = Node::Directory { children: vec![file("x.md", b"m"), file("x.txt", b"t")] };
    let plan = render_site("r", &root, &templates());
    assert_eq!(plan.failure, None);
    assert_eq!(
        plan.artifacts[2],
        Artifact::Page { path: path(&["x.md.html"]), html: "<html><a href=\"/\">root</a> / <span>x.md</span>|<p>m</p></html>".to_string() }
    );
    assert_eq!(
        plan.artifacts[3],
        Artifact::Page {
            path: path(&["x.txt.html"]),
            html: "<html><a href=\"/\">root</a> / <span>x.txt</span>|<pre class=\"text-file\">t</pre></html>".to_string()
        }
    );
}

#[test]
fn failure_ends_the_plan_and_keeps_what_was_made() {
    let root = Node::Directory {
        children: vec![file("ok.txt", b"fine"), file("bad.md", &[0xff]), file("later.txt", b"x")],
    };
    let plan = render_site("r", &root, &templates());
    assert_eq!(plan.failure, Some(SiteError::InvalidEncoding { file: "bad.md".to_string() }));
    assert_eq!(plan.artifacts.len(), 3);
    assert_eq!(plan.artifacts[0], Artifact::Directory { path: path(&[]) });
    assert!(matches!(&plan.artifacts[1], Artifact::Page { path: p, .. } if *p == path(&["index.html"])));
    assert_eq!(
        plan.artifacts[2],
        Artifact::Page {
            path: path(&["ok.txt.html"]),
            html: "<html><a href=\"/\">root</a> / <span>ok.txt</span>|<pre class=\"text-file\">fine</pre></html>".to_string()
        }
    );
}

#[test]
fn failure_below_a_directory_stops_its_later_siblings() {
    let root = Node::Directory {
        children: vec![dir("d", vec![file("bad.txt", &[0x80])]), file("after.bin", b"")],
    };
    let plan = render_site("r", &root, &templates());
    assert_eq!(plan.failure, Some(SiteError::InvalidEncoding { file: "bad.txt".to_string() }));
    assert_eq!(plan.artifacts.len(), 4);
    assert_eq!(plan.artifacts[2], Artifact::Directory { path: path(&["d"]) });
}

#[test]
fn bytes_that_are_not_text_are_copied_whatever_they_hold() {
    let root = Node::Directory { children: vec![file("raw.bin", &[0xff, 0x00])] };
    let plan = render_site("r", &root, &templates());
    assert_eq!(plan.failure, None);
    assert_eq!(
        plan.artifacts[2],
        Artifact::Copy { path: path(&["raw.bin"]), content: vec![0xff, 0x00] }
    );
}

#[test]
fn node_below_a_parent_stands_under_its_name() {
    let node = Node::File { content: b"n".to_vec() };
    let plan = build_html("notes.md", &node, &path(&["a"]), &path(&["root", "a"]), &templates());
    assert_eq!(
        plan,
        SitePlan {
            artifacts: vec![Artifact::Page {
                path: path(&["a", "notes.md.html"]),
                html: "<html><a href=\"/\">root</a> / <a href=\"/a\">a</a> / <span>notes.md</span>|<p>n</p></html>".to_string(),
            }],
            failure: None,
        }
    );
}

#[test]
fn root_stands_at_the_path_it_is_given() {
    let node = Node::Directory { children: vec![] };
    let plan = build_html("Home", &node, &path(&[]), &path(&[]), &templates());
    assert_eq!(
        plan,
        SitePlan {
            artifacts: vec![
                Artifact::Directory { path: path(&[]) },
                Artifact::Page {
                    path: path(&["index.html"]),
                    html: "<html>|<h1>Home</h1><ul></ul></html>".to_string(),
                },
            ],
            failure: None,
        }
    );
}

#[test]
fn names_are_copied_and_extended() {
    let names = path(&["a", "b"]);
    assert_eq!(copy_names(&names), names);
    assert_eq!(names_with(&names, "c"), path(&["a", "b", "c"]));
    assert_eq!(names_with(&Vec::new(), "c"), path(&["c"]));
}

fn path_of(artifact: &Artifact) -> &Vec<String> {
    match artifact {
        Artifact::Directory { path } => path,
        Artifact::Page { path, .. } => path,
        Artifact::Copy { path, .. } => path,
    }
}

fn html_at<'a>(plan: &'a SitePlan, at: &[&str]) -> Vec<&'a String> {
    let mut found = Vec::new();
    for artifact in &plan.artifacts {
        if let Artifact::Page { path: p, html } = artifact {
            if *p == path(at) {
                found.push(html);
            }
        }
    }
    found
}

#[test]
fn every_output_stands_below_the_given_path() {
    let node = Node::Directory {
        children: vec![file("n.md", b"n"), dir("d", vec![file("raw", b"r"), dir("e", vec![])])],
    };
    let plan = build_html("x", &node, &path(&["out"]), &path(&["root"]), &templates());
    assert_eq!(plan.failure, None);
    assert_eq!(plan.artifacts.len(), 8);
    for artifact in &plan.artifacts {
        assert!(path_of(artifact).starts_with(&path(&["out"])));
    }
    assert_eq!(plan.artifacts[0], Artifact::Directory { path: path(&["out", "x"]) });
    assert_eq!(path_of(&plan.artifacts[5]), &path(&["out", "x", "d", "raw"]));
    assert_eq!(path_of(&plan.artifacts[7]), &path(&["out", "x", "d", "e", "index.html"]));
}

#[test]
fn listing_links_lead_to_what_is_made() {
    let plan = render_site("Home", &sample(), &templates());
    let made: Vec<String> =
        plan.artifacts.iter().map(|a| format!("/{}", path_of(a).join("/"))).collect();
    let root_index = html_at(&plan, &["index.html"])[0];
    let a_index = html_at(&plan, &["a", "index.html"])[0];
    for link in ["/a", "/index.html"] {
        assert!(root_index.contains(&format!("href=\"{link}\"")));
        assert!(made.contains(&link.to_string()));
    }
    for link in ["/a/bin.dat", "/a/x.txt.html"] {
        assert!(a_index.contains(&format!("href=\"{link}\"")));
        assert!(made.contains(&link.to_string()));
    }
}

#[test]
fn readme_page_is_the_last_written_at_the_index_path() {
    let plan = render_site("Home", &sample(), &templates());
    let pages = html_at(&plan, &["index.html"]);
    assert_eq!(pages.len(), 2);
    assert!(pages[0].contains("<ul>"));
    assert!(pages[1].contains("<h1>Hi</h1>"));
}
