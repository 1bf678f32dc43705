//! How many links the text of an index page opens.
//!
//! Every configured value is escaped before it enters the page, so no title,
//! path or label can open a tag of its own. The anchors of the page are
//! therefore exactly those of its list items: one for each link.

use crate::markup::{escaped, lemma_escaped_is_inert};
use crate::occurrences::{
    holds_no_tag, lemma_empty_text_tallies_zero, lemma_no_occurrence_below,
    lemma_one_occurrence_below, lemma_tallies_concat, lemma_text_without_tag_tallies_zero,
    occurrences, occurs_at, tallies,
};
use crate::page::{
    index_page, link_item, link_items, link_list, page_head, static_section, LinkView,
};
use vstd::prelude::*;

verus! {

/// The markup that opens an anchor.
pub open spec fn anchor_opening() -> Seq<char> {
    "<a "@
}

proof fn lemma_anchor_opening()
    ensures
        anchor_opening().len() == 3,
        anchor_opening()[0] == '<',
        anchor_opening()[1] == 'a',
        anchor_opening()[2] == ' ',
{
    reveal_strlit("<a ");
}

/// A text in which no `<` is followed by an `a`, and which does not end
/// with a `<` among its last two characters, opens no anchor.
proof fn lemma_markup_without_anchor(text: Seq<char>)
    requires
        forall|i: int| 0 <= i < text.len() - 1 && #[trigger] text[i] == '<' ==> text[i + 1] != 'a',
        forall|i: int| 0 <= i < text.len() && text.len() - 2 <= i ==> #[trigger] text[i] != '<',
    ensures
        tallies(text, anchor_opening(), 0),
{
    lemma_anchor_opening();
    let pattern = anchor_opening();
    assert forall|i: int| 0 <= i < text.len() implies !occurs_at(text, pattern, i) by {
        if occurs_at(text, pattern, i) {
            assert(text[i + 0] == pattern[0]);
            assert(text[i + 1] == pattern[1]);
        }
    }
    lemma_no_occurrence_below(text, pattern, text.len() as int);
}

/// Escaped text opens no anchor.
proof fn lemma_escaped_text_opens_no_anchor(text: Seq<char>)
    ensures
        tallies(escaped(text), anchor_opening(), 0),
{
    lemma_anchor_opening();
    lemma_escaped_is_inert(text);
    assert(holds_no_tag(escaped(text)));
    lemma_text_without_tag_tallies_zero(escaped(text), anchor_opening());
}

/// The opening of a document holds no anchor.
proof fn lemma_page_head_opens_no_anchor(title: Seq<char>)
    ensures
        tallies(page_head(title), anchor_opening(), 0),
{
    lemma_anchor_opening();
    let pattern = anchor_opening();
    let before = "<!DOCTYPE html><html><head><title>"@;
    let after =
        "</title><meta name=\"viewport\" content=\"width=device, initial-scale=1\"><link rel=\"stylesheet\" type=\"text/css\" href=\"style.css\"></head><body>"@;
    assert(tallies(before, pattern, 0)) by {
        reveal_strlit("<!DOCTYPE html><html><head><title>");
        lemma_markup_without_anchor(before);
    }
    assert(tallies(after, pattern, 0)) by {
        reveal_strlit(
            "</title><meta name=\"viewport\" content=\"width=device, initial-scale=1\"><link rel=\"stylesheet\" type=\"text/css\" href=\"style.css\"></head><body>",
        );
        lemma_markup_without_anchor(after);
    }
    lemma_escaped_text_opens_no_anchor(title);
    lemma_tallies_concat(before, escaped(title), pattern, 0, 0);
    lemma_tallies_concat(before + escaped(title), after, pattern, 0, 0);
}

/// A list item opens exactly one anchor.
proof fn lemma_link_item_opens_one_anchor(link: LinkView)
    ensures
        tallies(link_item(link), anchor_opening(), 1),
{
    lemma_anchor_opening();
    let pattern = anchor_opening();
    let open = "<li><a href=\""@;
    let middle = "\">"@;
    let close = "</a></li>"@;
    assert(tallies(open, pattern, 1)) by {
        reveal_strlit("<li><a href=\"");
        assert forall|i: int| 0 <= i < open.len() implies (occurs_at(open, pattern, i) <==> i
            == 4) by {
            if occurs_at(open, pattern, i) {
                assert(open[i + 0] == pattern[0]);
                assert(open[i + 1] == pattern[1]);
            }
            if i == 4 {
                assert forall|j: int| 0 <= j < pattern.len() implies open[4 + j]
                    == #[trigger] pattern[j] by {
                    assert(j == 0 || j == 1 || j == 2);
                }
            }
        }
        lemma_one_occurrence_below(open, pattern, 4, open.len() as int);
    }
    assert(tallies(middle, pattern, 0)) by {
        reveal_strlit("\">");
        lemma_markup_without_anchor(middle);
    }
    assert(tallies(close, pattern, 0)) by {
        reveal_strlit("</a></li>");
        lemma_markup_without_anchor(close);
    }
    lemma_escaped_text_opens_no_anchor(link.href);
    lemma_escaped_text_opens_no_anchor(link.label);
    lemma_tallies_concat(open, escaped(link.href), pattern, 1, 0);
    lemma_tallies_concat(open + escaped(link.href), middle, pattern, 1, 0);
    lemma_tallies_concat(open + escaped(link.href) + middle, escaped(link.label), pattern, 1, 0);
    lemma_tallies_concat(
        open + escaped(link.href) + middle + escaped(link.label),
        close,
        pattern,
        1,
        0,
    );
}

/// The items of a list open one anchor for each link.
proof fn lemma_link_items_open_one_anchor_each(links: Seq<LinkView>)
    ensures
        tallies(link_items(links), anchor_opening(), links.len()),
    decreases links.len(),
{
    lemma_anchor_opening();
    if links.len() == 0 {
        lemma_empty_text_tallies_zero(anchor_opening());
    } else {
        lemma_link_items_open_one_anchor_each(links.drop_last());
        lemma_link_item_opens_one_anchor(links.last());
        lemma_tallies_concat(
            link_items(links.drop_last()),
            link_item(links.last()),
            anchor_opening(),
            (links.len() - 1) as nat,
            1,
        );
    }
}

/// A list opens one anchor for each link.
proof fn lemma_link_list_opens_one_anchor_each(links: Seq<LinkView>)
    ensures
        tallies(link_list(links), anchor_opening(), links.len()),
{
    lemma_anchor_opening();
    let pattern = anchor_opening();
    assert(tallies("<ul>"@, pattern, 0)) by {
        reveal_strlit("<ul>");
        lemma_markup_without_anchor("<ul>"@);
    }
    assert(tallies("</ul>"@, pattern, 0)) by {
        reveal_strlit("</ul>");
        lemma_markup_without_anchor("</ul>"@);
    }
    lemma_link_items_open_one_anchor_each(links);
    lemma_tallies_concat("<ul>"@, link_items(links), pattern, 0, links.len());
    lemma_tallies_concat("<ul>"@ + link_items(links), "</ul>"@, pattern, links.len(), 0);
}

/// The section of static paths opens one anchor for each entry.
proof fn lemma_static_section_opens_one_anchor_each(links: Seq<LinkView>)
    ensures
        tallies(static_section(links), anchor_opening(), links.len()),
{
    lemma_anchor_opening();
    let pattern = anchor_opening();
    if links.len() == 0 {
        lemma_empty_text_tallies_zero(pattern);
    } else {
        assert(tallies("<h3>Static Paths:</h3>"@, pattern, 0)) by {
            reveal_strlit("<h3>Static Paths:</h3>");
            lemma_markup_without_anchor("<h3>Static Paths:</h3>"@);
        }
        lemma_link_list_opens_one_anchor_each(links);
        lemma_tallies_concat("<h3>Static Paths:</h3>"@, link_list(links), pattern, 0, links.len());
    }
}

/// The text of an index page opens exactly one anchor for each command link
/// and one for each static entry, whatever the title, the paths and the
/// labels hold.
pub proof fn lemma_index_page_anchor_count(
    title: Seq<char>,
    commands: Seq<LinkView>,
    static_entries: Seq<LinkView>,
)
    ensures
        occurrences(index_page(title, commands, static_entries), "<a "@) == commands.len()
            + static_entries.len(),
{
    lemma_anchor_opening();
    let pattern = anchor_opening();
    let n = commands.len();
    let k = static_entries.len();
    assert(tallies("<h2>"@, pattern, 0)) by {
        reveal_strlit("<h2>");
        lemma_markup_without_anchor("<h2>"@);
    }
    assert(tallies("</h2><h3>Commands:</h3>"@, pattern, 0)) by {
        reveal_strlit("</h2><h3>Commands:</h3>");
        lemma_markup_without_anchor("</h2><h3>Commands:</h3>"@);
    }
    assert(tallies("</body></html>"@, pattern, 0)) by {
        reveal_strlit("</body></html>");
        lemma_markup_without_anchor("</body></html>"@);
    }
    lemma_page_head_opens_no_anchor(title);
    lemma_escaped_text_opens_no_anchor(title);
    lemma_link_list_opens_one_anchor_each(commands);
    lemma_static_section_opens_one_anchor_each(static_entries);
    let a = page_head(title) + "<h2>"@;
    lemma_tallies_concat(page_head(title), "<h2>"@, pattern, 0, 0);
    let b = a + escaped(title);
    lemma_tallies_concat(a, escaped(title), pattern, 0, 0);
    let c = b + "</h2><h3>Commands:</h3>"@;
    lemma_tallies_concat(b, "</h2><h3>Commands:</h3>"@, pattern, 0, 0);
    let d = c + link_list(commands);
    lemma_tallies_concat(c, link_list(commands), pattern, 0, n);
    let e = d + static_section(static_entries);
    lemma_tallies_concat(d, static_section(static_entries), pattern, n, k);
    lemma_tallies_concat(e, "</body></html>"@, pattern, n + k, 0);
}

} // verus!
