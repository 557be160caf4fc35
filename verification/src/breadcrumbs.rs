//! The navigation trail shown at the top of a page.

use vstd::prelude::*;
use vstd::string::*;
use crate::text::{rooted_path, starts_with, texts};

verus! {

/// The link to the site's root, which opens every trail.
pub open spec fn root_crumb() -> Seq<char> {
    "<a href=\"/\">root</a>"@
}

/// A linked segment of the trail.
pub open spec fn linked_crumb(href: Seq<char>, label: Seq<char>) -> Seq<char> {
    "<a href=\""@ + href + "\">"@ + label + "</a>"@
}

/// The segment that stands for the page itself: text without a link.
pub open spec fn current_crumb(label: Seq<char>) -> Seq<char> {
    "<span>"@ + label + "</span>"@
}

/// Whether the trail ends in a readme page that is shown as its directory:
/// the directory is not the root, and the last name begins with `README`.
pub open spec fn ends_in_readme(trail: Seq<Seq<char>>) -> bool {
    trail.len() >= 3 && "README"@.is_prefix_of(trail.last())
}

/// The position in the trail of the segment shown as the current page.
pub open spec fn current_position(trail: Seq<Seq<char>>) -> int {
    if ends_in_readme(trail) {
        trail.len() - 2
    } else {
        trail.len() - 1
    }
}

/// The root link followed by the links for positions 1 to `upto` of the trail,
/// each linking to the path of the names from position 1 up to its own.
pub open spec fn linked_crumbs(trail: Seq<Seq<char>>, upto: int) -> Seq<char>
    decreases upto,
{
    if upto <= 0 {
        root_crumb()
    } else {
        linked_crumbs(trail, upto - 1) + " / "@ + linked_crumb(
            rooted_path(trail.subrange(1, upto + 1)),
            trail[upto],
        )
    }
}

/// The trail as HTML: nothing for the root alone; otherwise the root link, a
/// link for each name between the root and the current page, and the current
/// page as plain text, with ` / ` between them.
pub open spec fn breadcrumbs(trail: Seq<Seq<char>>) -> Seq<char> {
    if trail.len() <= 1 {
        Seq::empty()
    } else {
        linked_crumbs(trail, current_position(trail) - 1) + " / "@ + current_crumb(
            trail[current_position(trail)],
        )
    }
}

/// The links of a trail depend only on the names up to the last one linked.
pub proof fn lemma_linked_crumbs_prefix(a: Seq<Seq<char>>, b: Seq<Seq<char>>, upto: int)
    requires
        upto < a.len(),
        upto < b.len(),
        forall|i: int| 0 <= i <= upto ==> a[i] == b[i],
    ensures
        linked_crumbs(a, upto) == linked_crumbs(b, upto),
    decreases upto,
{
    if upto > 0 {
        lemma_linked_crumbs_prefix(a, b, upto - 1);
        assert(a.subrange(1, upto + 1) =~= b.subrange(1, upto + 1));
    }
}

/// In a directory below the root, the page of a file whose name begins with
/// `README` carries the trail of the directory itself.
pub proof fn lemma_readme_trail_is_directory_trail(trail: Seq<Seq<char>>)
    requires
        ends_in_readme(trail),
        !ends_in_readme(trail.drop_last()),
    ensures
        breadcrumbs(trail) == breadcrumbs(trail.drop_last()),
{
    let dir = trail.drop_last();
    lemma_linked_crumbs_prefix(trail, dir, trail.len() - 3);
}

/// Renders the trail of names from the root to the current page.
pub fn breadcrumbs_html(breadcrumbs: &Vec<String>) -> (html: String)
    requires
        breadcrumbs.len() >= 1,
    ensures
        html@ == self::breadcrumbs(texts(breadcrumbs@)),
{
    let ghost trail = texts(breadcrumbs@);
    let n = breadcrumbs.len();
    if n == 1 {
        return String::new();
    }
    let current = if n >= 3 && starts_with(breadcrumbs[n - 1].as_str(), "README") {
        n - 2
    } else {
        n - 1
    };
    assert(current == current_position(trail));
    let mut html = "<a href=\"/\">root</a>".to_owned();
    let mut path = String::new();
    let mut i: usize = 1;
    assert(trail.subrange(1, 1) =~= Seq::<Seq<char>>::empty());
    while i < current
        invariant
            trail == texts(breadcrumbs@),
            1 <= i <= current < breadcrumbs.len(),
            html@ == linked_crumbs(trail, i - 1),
            path@ == rooted_path(trail.subrange(1, i as int)),
        decreases current - i,
    {
        let name = breadcrumbs[i].as_str();
        let ghost old_path = path@;
        let ghost old_html = html@;
        path.append("/");
        path.append(name);
        proof {
            let upto = trail.subrange(1, i + 1);
            assert(upto.drop_last() =~= trail.subrange(1, i as int));
            assert(upto.last() == trail[i as int]);
            assert(path@ == rooted_path(upto));
        }
        html.append(" / ");
        html.append("<a href=\"");
        html.append(path.as_str());
        html.append("\">");
        html.append(name);
        html.append("</a>");
        assert(html@ =~= old_html + " / "@ + linked_crumb(path@, name@));
        i = i + 1;
    }
    let name = breadcrumbs[current].as_str();
    let ghost links = html@;
    html.append(" / ");
    html.append("<span>");
    html.append(name);
    html.append("</span>");
    assert(html@ =~= links + " / "@ + current_crumb(name@));
    html
}

} // verus!
