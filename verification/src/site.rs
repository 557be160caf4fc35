//! The site as a plan: the directories to create, the pages to write and the
//! files to copy, in the order in which they are made.

use vstd::prelude::*;
use vstd::string::*;
use crate::breadcrumbs::{breadcrumbs, breadcrumbs_html};
use crate::classify::{is_text_file, output_name, published_name, readme, text_file};
use crate::error::{Failure, SiteError};
use crate::listing::{child_keys, directory_page, listing_href, render_dir_index, ListingKey};
use crate::page::{render_text_file, text_file_page, TemplateTexts, Templates};
use crate::text::{lemma_texts_push, rooted_path, texts};
use crate::tree::{entries_view, lemma_directory_view, Node, Tree};

verus! {

/// One thing to make under the output root. A path is the list of names that
/// lead to it from the output root; the empty path is the output root itself.
#[derive(Debug, PartialEq, Eq)]
pub enum Artifact {
    /// A directory to create.
    Directory { path: Vec<String> },
    /// A page to write.
    Page { path: Vec<String>, html: String },
    /// A file to write with the bytes it had.
    Copy { path: Vec<String>, content: Vec<u8> },
}

/// An `Artifact` with the texts of its strings.
pub enum Output {
    Directory { path: Seq<Seq<char>> },
    Page { path: Seq<Seq<char>>, html: Seq<char> },
    Copy { path: Seq<Seq<char>>, content: Seq<u8> },
}

impl View for Artifact {
    type V = Output;

    open spec fn view(&self) -> Output {
        match self {
            Artifact::Directory { path } => Output::Directory { path: texts(path@) },
            Artifact::Page { path, html } => Output::Page { path: texts(path@), html: html@ },
            Artifact::Copy { path, content } => Output::Copy {
                path: texts(path@),
                content: content@,
            },
        }
    }
}

impl Output {
    /// The path at which the output is made.
    pub open spec fn path(self) -> Seq<Seq<char>> {
        match self {
            Output::Directory { path } => path,
            Output::Page { path, .. } => path,
            Output::Copy { path, .. } => path,
        }
    }
}

/// What a run makes, in order, and the failure that ended it, if one did:
/// the artifacts are those made before the failure.
#[derive(Debug, PartialEq, Eq)]
pub struct SitePlan {
    pub artifacts: Vec<Artifact>,
    pub failure: Option<SiteError>,
}

/// A `SitePlan` as mathematics.
pub struct Plan {
    pub outputs: Seq<Output>,
    pub failure: Option<Failure>,
}

/// The outputs that a vector of artifacts stands for.
pub open spec fn outputs(artifacts: Seq<Artifact>) -> Seq<Output> {
    Seq::new(artifacts.len(), |i: int| artifacts[i]@)
}

/// The failure that an optional error stands for.
pub open spec fn failure_of(failure: Option<SiteError>) -> Option<Failure> {
    match failure {
        Some(e) => Some(e@),
        None => None,
    }
}

impl View for SitePlan {
    type V = Plan;

    open spec fn view(&self) -> Plan {
        Plan { outputs: outputs(self.artifacts@), failure: failure_of(self.failure) }
    }
}

impl Plan {
    /// A plan that makes nothing and does not fail.
    pub open spec fn nothing() -> Plan {
        Plan { outputs: Seq::empty(), failure: None }
    }

    /// A plan that makes these outputs and does not fail.
    pub open spec fn making(outputs: Seq<Output>) -> Plan {
        Plan { outputs, failure: None }
    }

    /// This plan and, unless it failed, `next` after it.
    pub open spec fn followed_by(self, next: Plan) -> Plan {
        if self.failure is Some {
            self
        } else {
            Plan { outputs: self.outputs + next.outputs, failure: next.failure }
        }
    }
}

/// The number of children of a directory; none for a file.
pub open spec fn width(tree: Tree) -> nat {
    match tree {
        Tree::Directory { children } => children.len(),
        Tree::File { .. } => 0,
    }
}

/// The trail of a node: that of its parent, then its own name.
pub open spec fn trail_here(name: Seq<char>, trail: Seq<Seq<char>>) -> Seq<Seq<char>> {
    trail.push(name)
}

/// The path of a directory: the root stands at the path it is given, any
/// other directory under its name below its parent's path.
pub open spec fn path_here(name: Seq<char>, path: Seq<Seq<char>>, trail: Seq<Seq<char>>) -> Seq<
    Seq<char>,
> {
    if trail.len() > 0 {
        path.push(name)
    } else {
        path
    }
}

/// The path at which a file is published: under its published name below its
/// parent's path; a file at the root stands at the path it is given.
pub open spec fn file_target(name: Seq<char>, path: Seq<Seq<char>>, trail: Seq<Seq<char>>) -> Seq<
    Seq<char>,
> {
    if trail.len() > 0 {
        path.push(published_name(name))
    } else {
        path
    }
}

/// What a file becomes: the page of a text file, or the failure that its
/// rendering meets; a copy of any other file.
pub open spec fn file_plan(
    name: Seq<char>,
    content: Seq<u8>,
    path: Seq<Seq<char>>,
    trail: Seq<Seq<char>>,
    templates: TemplateTexts,
) -> Plan {
    let target = file_target(name, path, trail);
    if text_file(name) {
        match text_file_page(name, content, breadcrumbs(trail_here(name, trail)), templates.page) {
            Ok(html) => Plan::making(seq![Output::Page { path: target, html }]),
            Err(e) => Plan { outputs: Seq::empty(), failure: Some(e) },
        }
    } else {
        Plan::making(seq![Output::Copy { path: target, content }])
    }
}

/// What a directory becomes before its children are visited: the directory
/// itself, then its index page.
pub open spec fn directory_head(
    name: Seq<char>,
    children: Seq<(Seq<char>, Tree)>,
    path: Seq<Seq<char>>,
    trail: Seq<Seq<char>>,
    templates: TemplateTexts,
) -> Plan {
    let here = path_here(name, path, trail);
    Plan::making(
        seq![
            Output::Directory { path: here },
            Output::Page {
                path: here.push("index.html"@),
                html: directory_page(name, trail_here(name, trail), child_keys(children), templates),
            },
        ],
    )
}

/// What a node becomes, given the path and the trail of its parent (both
/// empty for the root): a file becomes its page or copy; a directory becomes
/// itself, its index page, and then its children one after another in the
/// order in which the tree holds them. The first failure ends the plan.
pub open spec fn node_plan(
    name: Seq<char>,
    tree: Tree,
    path: Seq<Seq<char>>,
    trail: Seq<Seq<char>>,
    templates: TemplateTexts,
) -> Plan
    decreases tree, width(tree) + 1,
{
    match tree {
        Tree::Directory { children } => directory_head(
            name,
            children,
            path,
            trail,
            templates,
        ).followed_by(
            children_plan(
                tree,
                0,
                path_here(name, path, trail),
                trail_here(name, trail),
                templates,
            ),
        ),
        Tree::File { content } => file_plan(name, content, path, trail, templates),
    }
}

/// What the children of `tree` from position `from` on become, below the
/// directory's own path and trail.
pub open spec fn children_plan(
    tree: Tree,
    from: nat,
    path: Seq<Seq<char>>,
    trail: Seq<Seq<char>>,
    templates: TemplateTexts,
) -> Plan
    decreases tree, width(tree) - from,
{
    match tree {
        Tree::Directory { children } => if from < children.len() {
            node_plan(
                children[from as int].0,
                children[from as int].1,
                path,
                trail,
                templates,
            ).followed_by(children_plan(tree, from + 1, path, trail, templates))
        } else {
            Plan::nothing()
        },
        Tree::File { .. } => Plan::nothing(),
    }
}

/// What a whole content tree becomes under the name shown for its root.
pub open spec fn site_plan(root_name: Seq<char>, tree: Tree, templates: TemplateTexts) -> Plan {
    node_plan(root_name, tree, Seq::empty(), Seq::empty(), templates)
}

/// Adding an artifact to a vector adds its output to the vector's outputs.
pub proof fn lemma_outputs_push(artifacts: Seq<Artifact>, last: Artifact)
    ensures
        outputs(artifacts.push(last)) == outputs(artifacts).push(last@),
{
    assert(outputs(artifacts.push(last)) =~= outputs(artifacts).push(last@));
}

/// A copy of a list of names.
pub fn copy_names(names: &Vec<String>) -> (copy: Vec<String>)
    ensures
        texts(copy@) == texts(names@),
{
    let mut copy: Vec<String> = Vec::new();
    let mut i: usize = 0;
    while i < names.len()
        invariant
            i <= names.len(),
            copy.len() == i,
            forall|k: int| 0 <= k < i ==> (#[trigger] copy@[k])@ == names@[k]@,
        decreases names.len() - i,
    {
        copy.push(names[i].clone());
        i = i + 1;
    }
    assert(texts(copy@) =~= texts(names@));
    copy
}

/// A list of names with one more name at its end.
pub fn names_with(names: &Vec<String>, last: &str) -> (longer: Vec<String>)
    ensures
        texts(longer@) == texts(names@).push(last@),
{
    let mut longer = copy_names(names);
    let owned = last.to_owned();
    proof {
        lemma_texts_push(longer@, owned);
    }
    longer.push(owned);
    longer
}

fn build_into(
    name: &str,
    node: &Node,
    path: &Vec<String>,
    breadcrumbs: &Vec<String>,
    templates: &Templates,
    artifacts: &mut Vec<Artifact>,
) -> (failure: Option<SiteError>)
    ensures
        outputs(final(artifacts)@) == outputs(old(artifacts)@) + node_plan(
            name@,
            node@,
            texts(path@),
            texts(breadcrumbs@),
            templates@,
        ).outputs,
        failure_of(failure) == node_plan(
            name@,
            node@,
            texts(path@),
            texts(breadcrumbs@),
            templates@,
        ).failure,
    decreases node,
{
    let ghost before = outputs(artifacts@);
    let ghost whole = node_plan(name@, node@, texts(path@), texts(breadcrumbs@), templates@);
    let here_trail = names_with(breadcrumbs, name);
    match node {
        Node::Directory { children } => {
            let here = if breadcrumbs.len() > 0 {
                names_with(path, name)
            } else {
                copy_names(path)
            };
            let html = render_dir_index(name, &here_trail, children, templates);
            let directory = Artifact::Directory { path: copy_names(&here) };
            let index = Artifact::Page { path: names_with(&here, "index.html"), html };
            let ghost tree = node@;
            let ghost head = directory_head(
                name@,
                entries_view(children@),
                texts(path@),
                texts(breadcrumbs@),
                templates@,
            );
            proof {
                lemma_directory_view(*children);
                lemma_outputs_push(artifacts@, directory);
                lemma_outputs_push(artifacts@.push(directory), index);
                assert(seq![directory@, index@] =~= head.outputs);
                assert(before.push(directory@).push(index@) =~= before + head.outputs);
            }
            artifacts.push(directory);
            artifacts.push(index);
            let ghost mut done = head.outputs;
            let mut i: usize = 0;
            while i < children.len()
                invariant
                    i <= children.len(),
                    tree == node@,
                    tree == (Tree::Directory { children: entries_view(children@) }),
                    *node == (Node::Directory { children: *children }),
                    texts(here@) == path_here(name@, texts(path@), texts(breadcrumbs@)),
                    texts(here_trail@) == trail_here(name@, texts(breadcrumbs@)),
                    before == outputs(old(artifacts)@),
                    outputs(artifacts@) == before + done,
                    whole == node_plan(name@, tree, texts(path@), texts(breadcrumbs@), templates@),
                    whole == Plan::making(done).followed_by(
                        children_plan(tree, i as nat, texts(here@), texts(here_trail@), templates@),
                    ),
                decreases children.len() - i,
            {
                let child = &children[i];
                let ghost below = node_plan(
                    child.name@,
                    child.node@,
                    texts(here@),
                    texts(here_trail@),
                    templates@,
                );
                let ghost rest = children_plan(
                    tree,
                    (i + 1) as nat,
                    texts(here@),
                    texts(here_trail@),
                    templates@,
                );
                assert(children_plan(tree, i as nat, texts(here@), texts(here_trail@), templates@)
                    == below.followed_by(rest));
                let failure = build_into(
                    child.name.as_str(),
                    &child.node,
                    &here,
                    &here_trail,
                    templates,
                    artifacts,
                );
                assert(before + done + below.outputs =~= before + (done + below.outputs));
                if failure.is_some() {
                    return failure;
                }
                proof {
                    assert(done + (below.outputs + rest.outputs) =~= (done + below.outputs)
                        + rest.outputs);
                    done = done + below.outputs;
                }
                i = i + 1;
            }
            assert(before + done =~= before + whole.outputs);
            None
        },
        Node::File { content } => {
            let target = if breadcrumbs.len() > 0 {
                let published = output_name(name);
                names_with(path, published.as_str())
            } else {
                copy_names(path)
            };
            if is_text_file(name) {
                let trail = breadcrumbs_html(&here_trail);
                match render_text_file(
                    name,
                    content.as_slice(),
                    trail.as_str(),
                    templates.page.as_str(),
                ) {
                    Ok(html) => {
                        let page = Artifact::Page { path: target, html };
                        proof {
                            lemma_outputs_push(artifacts@, page);
                            assert(before.push(page@) =~= before + seq![page@]);
                        }
                        artifacts.push(page);
                        None
                    },
                    Err(e) => {
                        assert(before =~= before + Seq::<Output>::empty());
                        Some(e)
                    },
                }
            } else {
                let copy = Artifact::Copy { path: target, content: content.clone() };
                proof {
                    lemma_outputs_push(artifacts@, copy);
                    assert(before.push(copy@) =~= before + seq![copy@]);
                }
                artifacts.push(copy);
                None
            }
        },
    }
}

/// Plans what one node becomes, given the path and the trail of its parent;
/// both are empty for the root, which stands at the output root itself.
pub fn build_html(
    name: &str,
    node: &Node,
    path: &Vec<String>,
    breadcrumbs: &Vec<String>,
    templates: &Templates,
) -> (plan: SitePlan)
    ensures
        plan@ == node_plan(name@, node@, texts(path@), texts(breadcrumbs@), templates@),
{
    let mut artifacts: Vec<Artifact> = Vec::new();
    let failure = build_into(name, node, path, breadcrumbs, templates, &mut artifacts);
    assert(outputs(Seq::<Artifact>::empty()) =~= Seq::<Output>::empty());
    assert(outputs(artifacts@) =~= node_plan(
        name@,
        node@,
        texts(path@),
        texts(breadcrumbs@),
        templates@,
    ).outputs);
    SitePlan { artifacts, failure }
}

/// Plans the whole site of a content tree whose root is shown as
/// `root_name`.
pub fn render_site(root_name: &str, root: &Node, templates: &Templates) -> (plan: SitePlan)
    ensures
        plan@ == site_plan(root_name@, root@, templates@),
{
    let nowhere: Vec<String> = Vec::new();
    assert(texts(nowhere@) =~= Seq::<Seq<char>>::empty());
    build_html(root_name, root, &nowhere, &nowhere, templates)
}

/// The plan of a site is a function of the tree's names and bytes, the root's
/// name and the templates: two trees that hold the same give the same outputs
/// in the same order, with paths that do not depend on where the site is
/// written.
pub proof fn lemma_same_tree_same_site(
    a: Node,
    b: Node,
    root_name: Seq<char>,
    templates: TemplateTexts,
)
    requires
        a@ == b@,
    ensures
        site_plan(root_name, a@, templates) == site_plan(root_name, b@, templates),
{
}

/// A readme below a directory is published at the path of the directory's
/// own index page, and the listing links to it there, not under its name.
pub proof fn lemma_readme_takes_index(
    name: Seq<char>,
    dir_name: Seq<char>,
    children: Seq<(Seq<char>, Tree)>,
    path: Seq<Seq<char>>,
    trail: Seq<Seq<char>>,
    templates: TemplateTexts,
)
    requires
        readme(name),
    ensures
        file_target(name, path_here(dir_name, path, trail), trail_here(dir_name, trail))
            == directory_head(dir_name, children, path, trail, templates).outputs[1].path(),
        listing_href(trail_here(dir_name, trail), ListingKey { is_dir: false, name })
            == rooted_path(trail_here(dir_name, trail).skip(1).push("index.html"@)),
        listing_href(trail_here(dir_name, trail), ListingKey { is_dir: false, name })
            != rooted_path(trail_here(dir_name, trail).skip(1).push(name)),
{
    reveal_strlit("index.html");
    reveal_strlit("README.md");
    reveal_strlit("README.txt");
    let base = trail_here(dir_name, trail).skip(1);
    let index = "index.html"@;
    crate::text::lemma_rooted_path_push(base, index);
    crate::text::lemma_rooted_path_push(base, name);
    let front = rooted_path(base) + "/"@;
    if front + index == front + name {
        assert((front + index)[front.len() as int] == index[0]);
        assert((front + name)[front.len() as int] == name[0]);
    }
}

/// The link that a listing gives to a child leads to the path at which the
/// child is made, in every directory whose path holds the names of its trail
/// below the root.
pub proof fn lemma_link_matches_placement(
    name: Seq<char>,
    is_dir: bool,
    path: Seq<Seq<char>>,
    trail: Seq<Seq<char>>,
)
    requires
        trail.len() >= 1,
        path == trail.skip(1),
    ensures
        listing_href(trail, ListingKey { is_dir, name }) == rooted_path(
            if is_dir {
                path_here(name, path, trail)
            } else {
                file_target(name, path, trail)
            },
        ),
        trail_here(name, trail).skip(1) == path_here(name, path, trail),
{
    assert(trail_here(name, trail).skip(1) =~= path_here(name, path, trail));
}

/// In a directory whose children have different names, two text files that
/// are not readmes are published at different paths.
pub proof fn lemma_sibling_pages_keep_apart(
    tree: Tree,
    i: int,
    j: int,
    path: Seq<Seq<char>>,
    trail: Seq<Seq<char>>,
)
    requires
        tree is Directory,
        tree.names_unique(),
        0 <= i < j < tree->children.len(),
        text_file(tree->children[i].0),
        text_file(tree->children[j].0),
        !readme(tree->children[i].0),
        !readme(tree->children[j].0),
        trail.len() >= 1,
    ensures
        file_target(tree->children[i].0, path, trail) != file_target(
            tree->children[j].0,
            path,
            trail,
        ),
{
    let a = tree->children[i].0;
    let b = tree->children[j].0;
    crate::classify::lemma_pages_keep_apart(a, b);
    assert(path.push(published_name(a)).last() == published_name(a));
    assert(path.push(published_name(b)).last() == published_name(b));
}

/// A directory's plan opens with the directory itself and its index page:
/// both are made before anything of its children.
pub proof fn lemma_directory_opens_its_plan(
    name: Seq<char>,
    tree: Tree,
    path: Seq<Seq<char>>,
    trail: Seq<Seq<char>>,
    templates: TemplateTexts,
)
    requires
        tree is Directory,
    ensures
        node_plan(name, tree, path, trail, templates).outputs.len() >= 2,
        node_plan(name, tree, path, trail, templates).outputs[0] == (Output::Directory {
            path: path_here(name, path, trail),
        }),
        node_plan(name, tree, path, trail, templates).outputs[1] == (Output::Page {
            path: path_here(name, path, trail).push("index.html"@),
            html: directory_page(
                name,
                trail_here(name, trail),
                child_keys(tree->children),
                templates,
            ),
        }),
{
}

/// Whether every output of the plan stands at `path` or below it.
pub open spec fn stays_below(plan: Plan, path: Seq<Seq<char>>) -> bool {
    forall|k: int| 0 <= k < plan.outputs.len() ==> path.is_prefix_of(#[trigger] plan.outputs[k].path())
}

/// Whatever a node becomes stands at the path it was given or below it.
pub proof fn lemma_node_stays_below(
    name: Seq<char>,
    tree: Tree,
    path: Seq<Seq<char>>,
    trail: Seq<Seq<char>>,
    templates: TemplateTexts,
)
    ensures
        stays_below(node_plan(name, tree, path, trail, templates), path),
    decreases tree, width(tree) + 1,
{
    let here = path_here(name, path, trail);
    assert(path.is_prefix_of(here));
    assert(path.is_prefix_of(here.push("index.html"@)));
    assert(path.is_prefix_of(file_target(name, path, trail)));
    match tree {
        Tree::Directory { children } => {
            let head = directory_head(name, children, path, trail, templates);
            let rest = children_plan(tree, 0, here, trail_here(name, trail), templates);
            lemma_children_stay_below(tree, 0, here, trail_here(name, trail), templates);
            let whole = head.followed_by(rest);
            assert forall|k: int| 0 <= k < whole.outputs.len() implies path.is_prefix_of(
                #[trigger] whole.outputs[k].path(),
            ) by {
                if k >= 2 {
                    let below = rest.outputs[k - 2];
                    assert(whole.outputs[k] == below);
                    assert(here.is_prefix_of(below.path()));
                    assert(path.is_prefix_of(below.path()));
                }
            }
        },
        Tree::File { .. } => {},
    }
}

/// Whatever the children of a directory become stands at the directory's
/// path or below it.
pub proof fn lemma_children_stay_below(
    tree: Tree,
    from: nat,
    path: Seq<Seq<char>>,
    trail: Seq<Seq<char>>,
    templates: TemplateTexts,
)
    ensures
        stays_below(children_plan(tree, from, path, trail, templates), path),
    decreases tree, width(tree) - from,
{
    match tree {
        Tree::Directory { children } => {
            if from < children.len() {
                let first = node_plan(
                    children[from as int].0,
                    children[from as int].1,
                    path,
                    trail,
                    templates,
                );
                let rest = children_plan(tree, from + 1, path, trail, templates);
                lemma_node_stays_below(
                    children[from as int].0,
                    children[from as int].1,
                    path,
                    trail,
                    templates,
                );
                lemma_children_stay_below(tree, from + 1, path, trail, templates);
                let whole = first.followed_by(rest);
                assert forall|k: int| 0 <= k < whole.outputs.len() implies path.is_prefix_of(
                    #[trigger] whole.outputs[k].path(),
                ) by {
                    if first.failure is None && k >= first.outputs.len() {
                        assert(whole.outputs[k] == rest.outputs[k - first.outputs.len()]);
                    }
                }
            }
        },
        Tree::File { .. } => {},
    }
}

} // verus!
