//! The handlers behind the index route and the command routes.
//!
//! A handler decides what a request is answered with. It performs no I/O:
//! the program around the library runs the command and passes the outcome in.

use crate::anchors::lemma_index_page_anchor_count;
use crate::clock::current_time_string;
use crate::config::{
    CommandInfo, CommandInfoView, Configuration, ConfigurationView, StaticPathInfo,
    StaticPathInfoView,
};
use crate::markup::RenderError;
use crate::occurrences::occurrences;
use crate::page::{
    command_result_page, index_page, join_args, link_views, pre_text, render_index,
    render_pre_text, render_result_page, result_page, space_joined, Link, LinkView,
};
use crate::process::{outcome_text, output_text, ProcessOutcome};
use vstd::prelude::*;

verus! {

/// What a handler answers a request with.
#[derive(Debug)]
pub struct PageResponse {
    pub status: u16,
    pub content_type: String,
    pub body: String,
}

/// A [`PageResponse`] as plain values.
pub struct PageResponseView {
    pub status: u16,
    pub content_type: Seq<char>,
    pub body: Seq<char>,
}

impl View for PageResponse {
    type V = PageResponseView;

    open spec fn view(&self) -> PageResponseView {
        PageResponseView {
            status: self.status,
            content_type: self.content_type@,
            body: self.body@,
        }
    }
}

/// The answer that carries `body` as an HTML page: status 200 and content
/// type `text/html`.
pub open spec fn html_response(body: Seq<char>) -> PageResponseView {
    PageResponseView { status: 200, content_type: "text/html"@, body: body }
}

/// Wraps a page in a successful HTML answer.
pub fn respond_with_html(body: String) -> (response: PageResponse)
    ensures
        response@ == html_response(body@),
{
    let mut content_type = String::new();
    content_type.append("text/html");
    assert(content_type@ =~= "text/html"@);
    PageResponse { status: 200, content_type: content_type, body: body }
}

/// The index link of a command: its path, labelled with its description.
pub open spec fn command_link(command: CommandInfoView) -> LinkView {
    LinkView { href: command.http_path, label: command.description }
}

/// The index link of a static mount: its path, labelled with its directory.
pub open spec fn static_link(entry: StaticPathInfoView) -> LinkView {
    LinkView { href: entry.http_path, label: entry.fs_path }
}

/// The links of all commands, in configuration order.
pub open spec fn command_links(commands: Seq<CommandInfoView>) -> Seq<LinkView> {
    commands.map_values(|c: CommandInfoView| command_link(c))
}

/// The static mounts that ask to be shown on the index page, in
/// configuration order.
pub open spec fn shown_static_paths(entries: Seq<StaticPathInfoView>) -> Seq<StaticPathInfoView> {
    entries.filter(|s: StaticPathInfoView| s.include_in_main_page)
}

/// The links of the static mounts that are shown, in configuration order.
pub open spec fn static_links(entries: Seq<StaticPathInfoView>) -> Seq<LinkView> {
    shown_static_paths(entries).map_values(|s: StaticPathInfoView| static_link(s))
}

/// The index page of a configuration.
pub open spec fn index_page_of(config: ConfigurationView) -> Seq<char> {
    index_page(
        config.main_page_title,
        command_links(config.commands),
        static_links(config.static_paths),
    )
}

/// Collects the index links of the commands.
fn collect_command_links(commands: &Vec<CommandInfo>) -> (links: Vec<Link>)
    ensures
        link_views(links@) == command_links(commands@.map_values(|c: CommandInfo| c@)),
{
    let ghost views = commands@.map_values(|c: CommandInfo| c@);
    let mut links: Vec<Link> = Vec::new();
    let mut i: usize = 0;
    while i < commands.len()
        invariant
            i <= commands.len(),
            views == commands@.map_values(|c: CommandInfo| c@),
            link_views(links@) == command_links(views.take(i as int)),
        decreases commands.len() - i,
    {
        let command = &commands[i];
        let ghost before = links@;
        links.push(Link { href: command.http_path.clone(), label: command.description.clone() });
        proof {
            assert(views[i as int] == command@);
            assert(links@.last()@ == command_link(command@));
            assert(link_views(links@) =~= link_views(before).push(command_link(command@)));
            assert(command_links(views.take(i + 1)) =~= command_links(views.take(i as int)).push(
                command_link(command@),
            ));
        }
        i += 1;
    }
    assert(views.take(i as int) =~= views);
    links
}

/// Collects the index links of the static mounts that are to be shown.
fn collect_static_links(entries: &Vec<StaticPathInfo>) -> (links: Vec<Link>)
    ensures
        link_views(links@) == static_links(entries@.map_values(|s: StaticPathInfo| s@)),
{
    let ghost views = entries@.map_values(|s: StaticPathInfo| s@);
    let mut links: Vec<Link> = Vec::new();
    let mut i: usize = 0;
    assert(static_links(views.take(0)) =~= Seq::<LinkView>::empty()) by {
        reveal(Seq::filter);
    }
    while i < entries.len()
        invariant
            i <= entries.len(),
            views == entries@.map_values(|s: StaticPathInfo| s@),
            link_views(links@) == static_links(views.take(i as int)),
        decreases entries.len() - i,
    {
        let entry = &entries[i];
        let ghost before = links@;
        if entry.include_in_main_page {
            links.push(Link { href: entry.http_path.clone(), label: entry.fs_path.clone() });
        }
        proof {
            reveal(Seq::filter);
            let next = views.take(i + 1);
            assert(next.drop_last() =~= views.take(i as int));
            assert(next.last() == entry@);
            if entry.include_in_main_page {
                assert(shown_static_paths(next) == shown_static_paths(views.take(i as int)).push(
                    entry@,
                ));
                assert(links@.last()@ == static_link(entry@));
                assert(link_views(links@) =~= link_views(before).push(static_link(entry@)));
                assert(static_links(next) =~= static_links(views.take(i as int)).push(
                    static_link(entry@),
                ));
            } else {
                assert(shown_static_paths(next) == shown_static_paths(views.take(i as int)));
            }
        }
        i += 1;
    }
    assert(views.take(i as int) =~= views);
    links
}

/// Answers requests for the index page. The page is rendered once, when the
/// handler is made, and served unchanged from then on.
#[derive(Debug)]
pub struct IndexHandler {
    index_string: String,
}

impl View for IndexHandler {
    type V = Seq<char>;

    /// The page that the handler serves.
    closed spec fn view(&self) -> Seq<char> {
        self.index_string@
    }
}

impl IndexHandler {
    /// Renders the index page of `config`: its title, a link to every
    /// command, and a link to every static mount that asks for one.
    pub fn new(config: &Configuration) -> (r: Result<IndexHandler, RenderError>)
        ensures
            r is Ok,
            r matches Ok(handler) ==> handler@ == index_page_of(config@),
    {
        let commands = collect_command_links(&config.commands);
        let static_paths_to_include = collect_static_links(&config.static_paths);
        match render_index(config.main_page_title.as_str(), &commands, &static_paths_to_include) {
            Ok(s) => Ok(IndexHandler { index_string: s }),
            Err(e) => Err(e),
        }
    }

    /// The page that the handler serves.
    pub fn index_string(&self) -> (page: &String)
        ensures
            page@ == self@,
    {
        &self.index_string
    }

    /// Answers a request: always the page rendered at construction, as a
    /// successful HTML answer.
    pub fn handle(&self) -> (response: PageResponse)
        ensures
            response@ == html_response(self@),
    {
        respond_with_html(self.index_string.clone())
    }
}

/// Answers requests for one command route.
#[derive(Debug)]
pub struct CommandHandler {
    command_info: CommandInfo,
    args_string: String,
}

impl View for CommandHandler {
    type V = CommandInfoView;

    /// The command that the handler was made for.
    closed spec fn view(&self) -> CommandInfoView {
        self.command_info@
    }
}

impl CommandHandler {
    #[verifier::type_invariant]
    spec fn args_are_joined(&self) -> bool {
        self.args_string@ == space_joined(self.command_info@.args)
    }

    /// Makes the handler of `command_info`, joining its arguments once.
    pub fn new(command_info: CommandInfo) -> (handler: CommandHandler)
        ensures
            handler@ == command_info@,
    {
        let args_string = join_args(&command_info.args);
        CommandHandler { command_info: command_info, args_string: args_string }
    }

    /// The command to run for a request.
    pub fn command_info(&self) -> (info: &CommandInfo)
        ensures
            info@ == self@,
    {
        &self.command_info
    }

    /// The arguments of the command, separated by single spaces.
    pub fn args_string(&self) -> (line: &String)
        ensures
            line@ == space_joined(self@.args),
    {
        proof {
            use_type_invariant(self);
        }
        &self.args_string
    }

    /// The preformatted block for `command_output`, stamped with `now`.
    pub fn build_pre_string_at(&self, now: &str, command_output: String) -> (pre: String)
        ensures
            pre@ == pre_text(now@, self@.command, space_joined(self@.args), command_output@),
    {
        proof {
            use_type_invariant(self);
        }
        render_pre_text(
            now,
            self.command_info.command.as_str(),
            self.args_string.as_str(),
            command_output.as_str(),
        )
    }

    /// The preformatted block for `command_output`, stamped with the current
    /// local time.
    pub fn build_pre_string(&self, command_output: String) -> (pre: String)
        ensures
            exists|now: Seq<char>|
                pre@ == #[trigger] pre_text(
                    now,
                    self@.command,
                    space_joined(self@.args),
                    command_output@,
                ),
    {
        let now = current_time_string();
        self.build_pre_string_at(now.as_str(), command_output)
    }

    /// The result page around `pre_string`, titled with the command's
    /// description. Should rendering fail, the page is an apology.
    pub fn build_html_string(&self, pre_string: String) -> (page: String)
        ensures
            page@ == result_page(self@.description, pre_string@),
    {
        match render_result_page(self.command_info.description.as_str(), pre_string.as_str()) {
            Ok(page) => page,
            Err(e) => {
                let mut apology = String::new();
                apology.append("error executing template: ");
                apology.append(e.message.as_str());
                apology
            },
        }
    }

    /// Answers a request made at `now`, given how the run of the command
    /// ended. The answer is a successful HTML page whether or not the command
    /// could be started.
    pub fn handle_at(&self, now: &str, outcome: &ProcessOutcome) -> (response: PageResponse)
        ensures
            response@ == html_response(
                command_result_page(
                    self@.description,
                    self@.command,
                    self@.args,
                    now@,
                    outcome_text(outcome@),
                ),
            ),
    {
        let command_output = output_text(outcome);
        let pre_string = self.build_pre_string_at(now, command_output);
        let html_string = self.build_html_string(pre_string);
        respond_with_html(html_string)
    }

    /// Answers a request, given how the run of the command ended, stamping
    /// the page with the current local time.
    pub fn handle(&self, outcome: &ProcessOutcome) -> (response: PageResponse)
        ensures
            exists|now: Seq<char>|
                response@ == html_response(
                    #[trigger] command_result_page(
                        self@.description,
                        self@.command,
                        self@.args,
                        now,
                        outcome_text(outcome@),
                    ),
                ),
    {
        let now = current_time_string();
        self.handle_at(now.as_str(), outcome)
    }
}

/// The index page links to every command and to exactly those static mounts
/// that ask to be shown. With N commands there are N command links, the
/// i-th with the path and the description of the i-th command. With K
/// static mounts that ask to be shown there are K static links, the k-th
/// with the path and the directory of the k-th such mount.
pub proof fn lemma_index_links(config: ConfigurationView)
    ensures
        command_links(config.commands).len() == config.commands.len(),
        forall|i: int|
            0 <= i < config.commands.len() ==> #[trigger] command_links(config.commands)[i] == (
            LinkView {
                href: config.commands[i].http_path,
                label: config.commands[i].description,
            }),
        static_links(config.static_paths).len() == shown_static_paths(config.static_paths).len(),
        forall|k: int|
            0 <= k < shown_static_paths(config.static_paths).len() ==> #[trigger] static_links(
                config.static_paths,
            )[k] == (LinkView {
                href: shown_static_paths(config.static_paths)[k].http_path,
                label: shown_static_paths(config.static_paths)[k].fs_path,
            }),
{
}

/// A static mount is among those shown on the index page if and only if it
/// is configured and asks to be shown.
pub proof fn lemma_static_mount_shown_iff_included(
    entries: Seq<StaticPathInfoView>,
    entry: StaticPathInfoView,
)
    ensures
        shown_static_paths(entries).contains(entry) <==> (entries.contains(entry)
            && entry.include_in_main_page),
{
    let shown = |s: StaticPathInfoView| s.include_in_main_page;
    if shown_static_paths(entries).contains(entry) {
        entries.lemma_filter_contains_rev(shown, entry);
    }
    if entries.contains(entry) && entry.include_in_main_page {
        let i = choose|i: int| 0 <= i < entries.len() && entries[i] == entry;
        entries.lemma_filter_contains(shown, i);
    }
}

/// Where no static mount asks to be shown, the index page has no section
/// for static paths.
pub proof fn lemma_index_page_without_shown_static_paths(config: ConfigurationView)
    requires
        forall|i: int|
            0 <= i < config.static_paths.len() ==> !(
            #[trigger] config.static_paths[i]).include_in_main_page,
    ensures
        index_page_of(config) == index_page(
            config.main_page_title,
            command_links(config.commands),
            Seq::empty(),
        ),
{
    let shown = |s: StaticPathInfoView| s.include_in_main_page;
    config.static_paths.lemma_all_neg_filter_empty(shown);
    assert(static_links(config.static_paths) =~= Seq::<LinkView>::empty());
}

/// The answer of an index handler depends on nothing but the page that was
/// rendered when the handler was made: any two answers of one handler are
/// the same, and their body is that page.
pub proof fn lemma_index_answer_is_stable(
    handler: IndexHandler,
    first: PageResponse,
    second: PageResponse,
)
    requires
        first@ == html_response(handler@),
        second@ == html_response(handler@),
    ensures
        first@ == second@,
        first@.status == 200,
        first@.body == handler@,
{
}

/// The text of the index page of a configuration opens exactly as many
/// anchors as there are commands and static mounts that ask to be shown.
pub proof fn lemma_index_page_link_count(config: ConfigurationView)
    ensures
        occurrences(index_page_of(config), "<a "@) == config.commands.len() + shown_static_paths(
            config.static_paths,
        ).len(),
{
    lemma_index_page_anchor_count(
        config.main_page_title,
        command_links(config.commands),
        static_links(config.static_paths),
    );
}

} // verus!
