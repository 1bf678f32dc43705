//! The two pages of the dashboard, as pure string composition.
//!
//! Every value that comes from the configuration is escaped before it is
//! placed in markup. The preformatted block of a result page is the one
//! exception: it is inserted as it is.

use crate::config::texts;
use crate::markup::{escape, escaped, lemma_escaped_plain, RenderError};
use vstd::prelude::*;

verus! {

/// A link of the index page.
#[derive(Debug)]
pub struct Link {
    pub href: String,
    pub label: String,
}

/// What a [`Link`] says, as plain sequences.
pub struct LinkView {
    pub href: Seq<char>,
    pub label: Seq<char>,
}

impl View for Link {
    type V = LinkView;

    open spec fn view(&self) -> LinkView {
        LinkView { href: self.href@, label: self.label@ }
    }
}

/// The views of a sequence of links, in order.
pub open spec fn link_views(links: Seq<Link>) -> Seq<LinkView> {
    links.map_values(|l: Link| l@)
}

/// The document's opening, up to and including `<body>`, with `title` as
/// the document title.
pub open spec fn page_head(title: Seq<char>) -> Seq<char> {
    "<!DOCTYPE html><html><head><title>"@ + escaped(title)
        + "</title><meta name=\"viewport\" content=\"width=device, initial-scale=1\"><link rel=\"stylesheet\" type=\"text/css\" href=\"style.css\"></head><body>"@
}

/// One list item that links to `link.href` and shows `link.label`.
pub open spec fn link_item(link: LinkView) -> Seq<char> {
    "<li><a href=\""@ + escaped(link.href) + "\">"@ + escaped(link.label) + "</a></li>"@
}

/// The list items of `links`, one after the other, in order.
pub open spec fn link_items(links: Seq<LinkView>) -> Seq<char>
    decreases links.len(),
{
    if links.len() == 0 {
        Seq::empty()
    } else {
        link_items(links.drop_last()) + link_item(links.last())
    }
}

/// An unordered list of `links`.
pub open spec fn link_list(links: Seq<LinkView>) -> Seq<char> {
    "<ul>"@ + link_items(links) + "</ul>"@
}

/// The section of static paths: nothing at all where there is no entry to
/// show, else a heading and the list.
pub open spec fn static_section(links: Seq<LinkView>) -> Seq<char> {
    if links.len() == 0 {
        Seq::empty()
    } else {
        "<h3>Static Paths:</h3>"@ + link_list(links)
    }
}

/// The index page: the title as heading, the commands, then the static
/// paths that are to be shown.
pub open spec fn index_page(
    title: Seq<char>,
    commands: Seq<LinkView>,
    static_entries: Seq<LinkView>,
) -> Seq<char> {
    page_head(title) + "<h2>"@ + escaped(title) + "</h2><h3>Commands:</h3>"@ + link_list(commands)
        + static_section(static_entries) + "</body></html>"@
}

/// The arguments of a command, separated by single spaces.
pub open spec fn space_joined(args: Seq<Seq<char>>) -> Seq<char>
    decreases args.len(),
{
    if args.len() == 0 {
        Seq::empty()
    } else if args.len() == 1 {
        args[0]
    } else {
        space_joined(args.drop_last()) + " "@ + args.last()
    }
}

/// The echoed invocation: a prompt, the command, a space and the argument
/// line. The space stands there also where the argument line is empty.
pub open spec fn invocation_line(command: Seq<char>, args_line: Seq<char>) -> Seq<char> {
    "$ "@ + command + " "@ + args_line
}

/// The preformatted block of a result page: the time, a blank line, the
/// invocation, a blank line, and the output as it is.
pub open spec fn pre_text(
    now: Seq<char>,
    command: Seq<char>,
    args_line: Seq<char>,
    output: Seq<char>,
) -> Seq<char> {
    "Now: "@ + now + "\n\n"@ + invocation_line(command, args_line) + "\n\n"@ + output
}

/// A result page: `description` as title, `pre` as the preformatted block.
pub open spec fn result_page(description: Seq<char>, pre: Seq<char>) -> Seq<char> {
    page_head(description) + "<pre>"@ + pre + "</pre></body></html>"@
}

/// The result page of one run of a command.
pub open spec fn command_result_page(
    description: Seq<char>,
    command: Seq<char>,
    args: Seq<Seq<char>>,
    now: Seq<char>,
    output: Seq<char>,
) -> Seq<char> {
    result_page(description, pre_text(now, command, space_joined(args), output))
}

/// Appends the document's opening to `page`.
fn push_page_head(page: &mut String, title: &str) -> (r: Result<(), RenderError>)
    ensures
        r is Ok,
        final(page)@ == old(page)@ + page_head(title@),
{
    let title_text = match escape(title) {
        Ok(s) => s,
        Err(e) => { return Err(e); },
    };
    let mut head = String::new();
    head.append("<!DOCTYPE html><html><head><title>");
    head.append(title_text.as_str());
    head.append(
        "</title><meta name=\"viewport\" content=\"width=device, initial-scale=1\"><link rel=\"stylesheet\" type=\"text/css\" href=\"style.css\"></head><body>",
    );
    assert(head@ =~= page_head(title@));
    page.append(head.as_str());
    Ok(())
}

/// Renders one list item.
fn render_link_item(link: &Link) -> (r: Result<String, RenderError>)
    ensures
        r is Ok,
        r matches Ok(s) ==> s@ == link_item(link@),
{
    let href = match escape(link.href.as_str()) {
        Ok(s) => s,
        Err(e) => { return Err(e); },
    };
    let label = match escape(link.label.as_str()) {
        Ok(s) => s,
        Err(e) => { return Err(e); },
    };
    let mut item = String::new();
    item.append("<li><a href=\"");
    item.append(href.as_str());
    item.append("\">");
    item.append(label.as_str());
    item.append("</a></li>");
    assert(item@ =~= link_item(link@));
    Ok(item)
}

/// Renders an unordered list of `links`, in order.
fn render_link_list(links: &Vec<Link>) -> (r: Result<String, RenderError>)
    ensures
        r is Ok,
        r matches Ok(s) ==> s@ == link_list(link_views(links@)),
{
    let ghost views = link_views(links@);
    let mut list = String::new();
    list.append("<ul>");
    let mut i: usize = 0;
    while i < links.len()
        invariant
            i <= links.len(),
            views == link_views(links@),
            list@ == "<ul>"@ + link_items(views.take(i as int)),
        decreases links.len() - i,
    {
        let item = match render_link_item(&links[i]) {
            Ok(s) => s,
            Err(e) => { return Err(e); },
        };
        list.append(item.as_str());
        proof {
            let next = views.take(i + 1);
            assert(next.drop_last() =~= views.take(i as int));
            assert(next.last() == links@[i as int]@);
            assert(list@ =~= "<ul>"@ + link_items(next));
        }
        i += 1;
    }
    assert(views.take(i as int) =~= views);
    list.append("</ul>");
    Ok(list)
}

/// Renders the index page: a heading equal to `title`, a section that links
/// to each of `commands`, and, unless `static_entries` is empty, a section
/// that links to each of them. Both lists keep the order they are given in.
pub fn render_index(title: &str, commands: &Vec<Link>, static_entries: &Vec<Link>) -> (r: Result<
    String,
    RenderError,
>)
    ensures
        r is Ok,
        r matches Ok(s) ==> s@ == index_page(
            title@,
            link_views(commands@),
            link_views(static_entries@),
        ),
{
    let title_text = match escape(title) {
        Ok(s) => s,
        Err(e) => { return Err(e); },
    };
    let command_list = match render_link_list(commands) {
        Ok(s) => s,
        Err(e) => { return Err(e); },
    };
    let mut page = String::new();
    match push_page_head(&mut page, title) {
        Ok(()) => {},
        Err(e) => { return Err(e); },
    }
    page.append("<h2>");
    page.append(title_text.as_str());
    page.append("</h2><h3>Commands:</h3>");
    page.append(command_list.as_str());
    if static_entries.len() > 0 {
        let static_list = match render_link_list(static_entries) {
            Ok(s) => s,
            Err(e) => { return Err(e); },
        };
        page.append("<h3>Static Paths:</h3>");
        page.append(static_list.as_str());
    }
    page.append("</body></html>");
    assert(page@ =~= index_page(title@, link_views(commands@), link_views(static_entries@)));
    Ok(page)
}

/// Joins `args` with single spaces.
pub fn join_args(args: &Vec<String>) -> (line: String)
    ensures
        line@ == space_joined(texts(args@)),
{
    let ghost all = texts(args@);
    let mut line = String::new();
    let mut i: usize = 0;
    while i < args.len()
        invariant
            i <= args.len(),
            all == texts(args@),
            line@ == space_joined(all.take(i as int)),
        decreases args.len() - i,
    {
        if i > 0 {
            line.append(" ");
        }
        line.append(args[i].as_str());
        proof {
            let next = all.take(i + 1);
            assert(next.drop_last() =~= all.take(i as int));
            assert(next.last() == args@[i as int]@);
            if i == 0 {
                assert(line@ =~= next[0]);
            }
        }
        i += 1;
    }
    assert(all.take(i as int) =~= all);
    line
}

/// Composes the preformatted block of a result page.
pub fn render_pre_text(now: &str, command: &str, args_line: &str, output: &str) -> (pre: String)
    ensures
        pre@ == pre_text(now@, command@, args_line@, output@),
{
    let mut pre = String::new();
    pre.append("Now: ");
    pre.append(now);
    pre.append("\n\n");
    pre.append("$ ");
    pre.append(command);
    pre.append(" ");
    pre.append(args_line);
    pre.append("\n\n");
    pre.append(output);
    assert(pre@ =~= pre_text(now@, command@, args_line@, output@));
    pre
}

/// Wraps a preformatted block in a document titled `description`.
pub fn render_result_page(description: &str, pre: &str) -> (r: Result<String, RenderError>)
    ensures
        r is Ok,
        r matches Ok(s) ==> s@ == result_page(description@, pre@),
{
    let mut page = String::new();
    match push_page_head(&mut page, description) {
        Ok(()) => {},
        Err(e) => { return Err(e); },
    }
    page.append("<pre>");
    page.append(pre);
    page.append("</pre></body></html>");
    assert(page@ =~= result_page(description@, pre@));
    Ok(page)
}

/// Renders the result page of one run: `description` as title; in the
/// preformatted block the time `now`, the invocation of `command` with
/// `args`, and `output`.
pub fn render_command_result(
    description: &str,
    command: &str,
    args: &Vec<String>,
    now: &str,
    output: &str,
) -> (r: Result<String, RenderError>)
    ensures
        r is Ok,
        r matches Ok(s) ==> s@ == command_result_page(
            description@,
            command@,
            texts(args@),
            now@,
            output@,
        ),
{
    let args_line = join_args(args);
    let pre = render_pre_text(now, command, args_line.as_str(), output);
    render_result_page(description, pre.as_str())
}

/// What a result page holds before the time of the request.
pub open spec fn result_page_before_time(description: Seq<char>) -> Seq<char> {
    page_head(description) + "<pre>"@ + "Now: "@
}

/// What a result page holds after the time of the request.
pub open spec fn result_page_after_time(
    command: Seq<char>,
    args: Seq<Seq<char>>,
    output: Seq<char>,
) -> Seq<char> {
    "\n\n"@ + invocation_line(command, space_joined(args)) + "\n\n"@ + output
        + "</pre></body></html>"@
}

/// A result page is the time of the request between two parts that do not
/// depend on it. So two pages of one command with one output are alike but
/// for the time, and they are the same page only if the times are the same.
pub proof fn lemma_result_pages_differ_only_in_time(
    description: Seq<char>,
    command: Seq<char>,
    args: Seq<Seq<char>>,
    output: Seq<char>,
    first: Seq<char>,
    second: Seq<char>,
)
    ensures
        command_result_page(description, command, args, first, output) == result_page_before_time(
            description,
        ) + first + result_page_after_time(command, args, output),
        command_result_page(description, command, args, second, output)
            == result_page_before_time(description) + second + result_page_after_time(
            command,
            args,
            output,
        ),
        command_result_page(description, command, args, first, output) == command_result_page(
            description,
            command,
            args,
            second,
            output,
        ) <==> first == second,
{
    let before = result_page_before_time(description);
    let after = result_page_after_time(command, args, output);
    let page1 = command_result_page(description, command, args, first, output);
    let page2 = command_result_page(description, command, args, second, output);
    assert(page1 =~= before + first + after);
    assert(page2 =~= before + second + after);
    if page1 == page2 {
        assert(first.len() == second.len());
        assert forall|i: int| 0 <= i < first.len() implies first[i] == second[i] by {
            assert(first[i] == page1[before.len() + i]);
            assert(second[i] == page2[before.len() + i]);
        }
        assert(first =~= second);
    }
}

/// An index link whose path and label hold none of `&`, `"`, `<`, `>` is
/// rendered with exactly that path and that label.
pub proof fn lemma_plain_link_item(link: LinkView)
    requires
        forall|i: int|
            0 <= i < link.href.len() ==> {
                let c = #[trigger] link.href[i];
                c != '&' && c != '"' && c != '<' && c != '>'
            },
        forall|i: int|
            0 <= i < link.label.len() ==> {
                let c = #[trigger] link.label[i];
                c != '&' && c != '"' && c != '<' && c != '>'
            },
    ensures
        link_item(link) == "<li><a href=\""@ + link.href + "\">"@ + link.label + "</a></li>"@,
{
    lemma_escaped_plain(link.href);
    lemma_escaped_plain(link.label);
}

/// Without static entries to show, the index page ends right after the list
/// of commands: it holds no heading and no list for static paths.
pub proof fn lemma_index_page_without_static_entries(title: Seq<char>, commands: Seq<LinkView>)
    ensures
        index_page(title, commands, Seq::empty()) == page_head(title) + "<h2>"@ + escaped(title)
            + "</h2><h3>Commands:</h3>"@ + link_list(commands) + "</body></html>"@,
{
    assert(static_section(Seq::empty()) =~= Seq::<char>::empty());
    assert(index_page(title, commands, Seq::empty()) =~= page_head(title) + "<h2>"@ + escaped(
        title,
    ) + "</h2><h3>Commands:</h3>"@ + link_list(commands) + "</body></html>"@);
}

/// The items of a list follow each other in the order of the links: the
/// items of `links` with one more link are the items of `links`, then the
/// item of that link. The empty list has no item.
pub proof fn lemma_link_items_in_order(links: Seq<LinkView>, link: LinkView)
    ensures
        link_items(Seq::empty()) == Seq::<char>::empty(),
        link_items(links.push(link)) == link_items(links) + link_item(link),
{
    assert(links.push(link).drop_last() =~= links);
}

} // verus!
