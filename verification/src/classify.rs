//! Decides from a file's name whether it is rendered as a page, and under
//! which name it is published.

use vstd::prelude::*;
use vstd::string::*;
use crate::text::{ends_with, same_text};

verus! {

/// A name that ends in `.txt` or `.md`: such a file is rendered as a page.
pub open spec fn text_file(name: Seq<char>) -> bool {
    ".txt"@.is_suffix_of(name) || ".md"@.is_suffix_of(name)
}

/// The two names whose page takes the place of the directory's index.
pub open spec fn readme(name: Seq<char>) -> bool {
    name == "README.md"@ || name == "README.txt"@
}

/// The name under which a file is published: `index.html` for a readme, the
/// whole name followed by `.html` for any other text file, and the name itself
/// for a file that is copied.
pub open spec fn published_name(name: Seq<char>) -> Seq<char> {
    if readme(name) {
        "index.html"@
    } else if text_file(name) {
        name + ".html"@
    } else {
        name
    }
}

/// A readme is a text file, and it is published as `index.html`.
pub proof fn lemma_readme_is_index(name: Seq<char>)
    requires
        readme(name),
    ensures
        text_file(name),
        published_name(name) == "index.html"@,
{
    reveal_strlit("README.md");
    reveal_strlit("README.txt");
    reveal_strlit(".md");
    reveal_strlit(".txt");
    if name == "README.md"@ {
        assert(".md"@ =~= name.subrange(name.len() - 3, name.len() as int));
    } else {
        assert(".txt"@ =~= name.subrange(name.len() - 4, name.len() as int));
    }
}

/// Two different text files, neither of them a readme, are published under
/// different names.
pub proof fn lemma_pages_keep_apart(a: Seq<char>, b: Seq<char>)
    requires
        a != b,
        text_file(a),
        text_file(b),
        !readme(a),
        !readme(b),
    ensures
        published_name(a) != published_name(b),
{
    let tail = ".html"@;
    if a + tail == b + tail {
        assert((a + tail).subrange(0, a.len() as int) =~= a);
        assert((b + tail).subrange(0, b.len() as int) =~= b);
        assert(a.len() + tail.len() == b.len() + tail.len());
        assert(a =~= b);
    }
}

/// A markdown file and a plain text file of one stem are published as
/// `stem.md.html` and `stem.txt.html`, which differ.
pub proof fn lemma_same_stem_pages_differ(stem: Seq<char>)
    requires
        stem != "README"@,
    ensures
        published_name(stem + ".md"@) == stem + ".md.html"@,
        published_name(stem + ".txt"@) == stem + ".txt.html"@,
        published_name(stem + ".md"@) != published_name(stem + ".txt"@),
{
    reveal_strlit("README");
    reveal_strlit("README.md");
    reveal_strlit("README.txt");
    reveal_strlit(".md");
    reveal_strlit(".txt");
    reveal_strlit(".html");
    reveal_strlit(".md.html");
    reveal_strlit(".txt.html");
    let md = stem + ".md"@;
    let txt = stem + ".txt"@;
    assert(".md"@ =~= md.subrange(md.len() - 3, md.len() as int));
    assert(".txt"@ =~= txt.subrange(txt.len() - 4, txt.len() as int));
    assert(md[md.len() - 1] == 'd');
    assert(txt[txt.len() - 1] == 't');
    if md == "README.md"@ {
        assert(stem =~= md.subrange(0, 6));
        assert("README"@ =~= "README.md"@.subrange(0, 6));
    }
    if txt == "README.txt"@ {
        assert(stem =~= txt.subrange(0, 6));
        assert("README"@ =~= "README.txt"@.subrange(0, 6));
    }
    assert(md + ".html"@ =~= stem + ".md.html"@);
    assert(txt + ".html"@ =~= stem + ".txt.html"@);
    assert((stem + ".md.html"@)[stem.len() as int + 1] == 'm');
    assert((stem + ".txt.html"@)[stem.len() as int + 1] == 't');
}

/// Whether a file of this name is rendered as a page.
pub fn is_text_file(name: &str) -> (r: bool)
    ensures
        r == text_file(name@),
{
    ends_with(name, ".txt") || ends_with(name, ".md")
}

/// Whether a file of this name takes the place of its directory's index.
pub fn is_readme(name: &str) -> (r: bool)
    ensures
        r == readme(name@),
{
    same_text(name, "README.md") || same_text(name, "README.txt")
}

/// The name under which a file is published.
pub fn output_name(name: &str) -> (out: String)
    ensures
        out@ == published_name(name@),
{
    if is_readme(name) {
        "index.html".to_owned()
    } else if is_text_file(name) {
        let mut out = name.to_owned();
        out.append(".html");
        out
    } else {
        name.to_owned()
    }
}

} // verus!
