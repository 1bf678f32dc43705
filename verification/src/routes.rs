//! The route table: which handler answers which path.
//!
//! Routes are registered in a fixed order: the index page at `/`, then the
//! commands, then the static mounts, each group in configuration order.
//! Nothing is rejected: where two registrations name one path, the later one
//! answers it and the earlier one is never reached.

use crate::config::{CommandInfoView, Configuration, ConfigurationView, StaticPathInfoView};
use crate::handler::{index_page_of, CommandHandler, IndexHandler};
use crate::markup::RenderError;
use vstd::prelude::*;

verus! {

/// A directory handed to the file server.
#[derive(Debug)]
pub struct StaticMount {
    pub fs_path: String,
}

/// What answers a path.
#[derive(Debug)]
pub enum Route {
    /// The index page.
    Index(IndexHandler),
    /// The result page of a command.
    Command(CommandHandler),
    /// Files below a directory, served by the file server.
    StaticMount(StaticMount),
}

/// A [`Route`] as plain values: the page of an index route, the command of
/// a command route, the directory of a static mount.
pub enum RouteView {
    Index(Seq<char>),
    Command(CommandInfoView),
    StaticMount(Seq<char>),
}

impl View for Route {
    type V = RouteView;

    open spec fn view(&self) -> RouteView {
        match self {
            Route::Index(handler) => RouteView::Index(handler@),
            Route::Command(handler) => RouteView::Command(handler@),
            Route::StaticMount(mount) => RouteView::StaticMount(mount.fs_path@),
        }
    }
}

/// One entry of the route table.
#[derive(Debug)]
pub struct Registration {
    pub http_path: String,
    pub route: Route,
}

/// A [`Registration`] as plain values.
pub struct RegistrationView {
    pub http_path: Seq<char>,
    pub route: RouteView,
}

impl View for Registration {
    type V = RegistrationView;

    open spec fn view(&self) -> RegistrationView {
        RegistrationView { http_path: self.http_path@, route: self.route@ }
    }
}

/// The registration that answers `path`: the last one that names it.
pub open spec fn resolved(registrations: Seq<RegistrationView>, path: Seq<char>) -> Option<int>
    decreases registrations.len(),
{
    if registrations.len() == 0 {
        None
    } else if registrations.last().http_path == path {
        Some(registrations.len() - 1)
    } else {
        resolved(registrations.drop_last(), path)
    }
}

/// The registration of the index page.
pub open spec fn index_registration(config: ConfigurationView) -> RegistrationView {
    RegistrationView { http_path: "/"@, route: RouteView::Index(index_page_of(config)) }
}

/// The registration of a command.
pub open spec fn command_registration(command: CommandInfoView) -> RegistrationView {
    RegistrationView { http_path: command.http_path, route: RouteView::Command(command) }
}

/// The registration of a static mount.
pub open spec fn mount_registration(entry: StaticPathInfoView) -> RegistrationView {
    RegistrationView { http_path: entry.http_path, route: RouteView::StaticMount(entry.fs_path) }
}

/// The routes that render pages: the index, then every command in order.
pub open spec fn router_registrations(config: ConfigurationView) -> Seq<RegistrationView> {
    seq![index_registration(config)] + config.commands.map_values(
        |c: CommandInfoView| command_registration(c),
    )
}

/// The static mounts, in order.
pub open spec fn mount_registrations(config: ConfigurationView) -> Seq<RegistrationView> {
    config.static_paths.map_values(|s: StaticPathInfoView| mount_registration(s))
}

/// Every registration of a configuration, in registration order.
pub open spec fn registrations_of(config: ConfigurationView) -> Seq<RegistrationView> {
    router_registrations(config) + mount_registrations(config)
}

/// The registration returned for a path is the last that names it, and a
/// path resolves to nothing only where no registration names it. So every
/// registered path has exactly one registration that answers it.
pub proof fn lemma_last_registration_wins(registrations: Seq<RegistrationView>, path: Seq<char>)
    ensures
        match resolved(registrations, path) {
            Some(i) => {
                &&& 0 <= i < registrations.len()
                &&& registrations[i].http_path == path
                &&& forall|j: int|
                    i < j < registrations.len() ==> (#[trigger] registrations[j]).http_path != path
            },
            None => forall|j: int|
                0 <= j < registrations.len() ==> (#[trigger] registrations[j]).http_path != path,
        },
    decreases registrations.len(),
{
    if registrations.len() > 0 && registrations.last().http_path != path {
        let rest = registrations.drop_last();
        lemma_last_registration_wins(rest, path);
        match resolved(rest, path) {
            Some(i) => {
                assert forall|j: int| i < j < registrations.len() implies (
                #[trigger] registrations[j]).http_path != path by {
                    if j < rest.len() {
                        assert(rest[j].http_path != path);
                    }
                }
            },
            None => {
                assert forall|j: int| 0 <= j < registrations.len() implies (
                #[trigger] registrations[j]).http_path != path by {
                    if j < rest.len() {
                        assert(rest[j].http_path != path);
                    }
                }
            },
        }
    }
}

/// A registration that no later one overrides answers its path.
pub proof fn lemma_unshadowed_registration_answers(
    registrations: Seq<RegistrationView>,
    i: int,
)
    requires
        0 <= i < registrations.len(),
        forall|j: int|
            i < j < registrations.len() ==> (#[trigger] registrations[j]).http_path
                != registrations[i].http_path,
    ensures
        resolved(registrations, registrations[i].http_path) == Some(i),
{
    lemma_last_registration_wins(registrations, registrations[i].http_path);
}

/// Of two registrations with one path, the earlier is shadowed: the path is
/// answered by neither it nor anything before it.
pub proof fn lemma_later_duplicate_shadows(registrations: Seq<RegistrationView>, i: int, j: int)
    requires
        0 <= i < j < registrations.len(),
        registrations[i].http_path == registrations[j].http_path,
    ensures
        resolved(registrations, registrations[i].http_path) matches Some(k) && k >= j,
{
    lemma_last_registration_wins(registrations, registrations[i].http_path);
}

/// A configuration with N commands and M static mounts registers 1 + N + M
/// routes: the index page at `/` first, then the commands, then the mounts,
/// each under its own path and each group in configuration order.
pub proof fn lemma_registration_order(config: ConfigurationView)
    ensures
        registrations_of(config).len() == 1 + config.commands.len() + config.static_paths.len(),
        registrations_of(config)[0] == index_registration(config),
        forall|i: int|
            0 <= i < config.commands.len() ==> #[trigger] registrations_of(config)[1 + i]
                == command_registration(config.commands[i]),
        forall|i: int|
            0 <= i < config.static_paths.len() ==> #[trigger] registrations_of(config)[1
                + config.commands.len() + i] == mount_registration(config.static_paths[i]),
{
}

/// Every configured path is answered. The root, the path of each command
/// and the path of each static mount resolve to a registration under that
/// very path: their own, or a later one that overrides it.
pub proof fn lemma_configured_paths_are_answered(config: ConfigurationView)
    ensures
        resolved(registrations_of(config), "/"@) is Some,
        forall|i: int|
            0 <= i < config.commands.len() ==> (resolved(
                registrations_of(config),
                (#[trigger] config.commands[i]).http_path,
            ) matches Some(k) && k >= 1 + i),
        forall|i: int|
            0 <= i < config.static_paths.len() ==> (resolved(
                registrations_of(config),
                (#[trigger] config.static_paths[i]).http_path,
            ) matches Some(k) && k >= 1 + config.commands.len() + i),
{
    let all = registrations_of(config);
    lemma_registration_order(config);
    lemma_last_registration_wins(all, "/"@);
    assert(all[0].http_path == "/"@);
    assert forall|i: int| 0 <= i < config.commands.len() implies (resolved(
        all,
        (#[trigger] config.commands[i]).http_path,
    ) matches Some(k) && k >= 1 + i) by {
        lemma_last_registration_wins(all, config.commands[i].http_path);
        assert(all[1 + i].http_path == config.commands[i].http_path);
    }
    assert forall|i: int| 0 <= i < config.static_paths.len() implies (resolved(
        all,
        (#[trigger] config.static_paths[i]).http_path,
    ) matches Some(k) && k >= 1 + config.commands.len() + i) by {
        lemma_last_registration_wins(all, config.static_paths[i].http_path);
        assert(all[1 + config.commands.len() + i].http_path == config.static_paths[i].http_path);
    }
}

/// Whether no two registrations name the same path.
pub open spec fn paths_are_unique(registrations: Seq<RegistrationView>) -> bool {
    forall|i: int, j: int|
        0 <= i < j < registrations.len() ==> (#[trigger] registrations[i]).http_path != (
        #[trigger] registrations[j]).http_path
}

/// Where no two registrations name the same path, each registration answers
/// its own path.
pub proof fn lemma_unique_paths_answer_themselves(registrations: Seq<RegistrationView>, i: int)
    requires
        paths_are_unique(registrations),
        0 <= i < registrations.len(),
    ensures
        resolved(registrations, registrations[i].http_path) == Some(i),
{
    lemma_unshadowed_registration_answers(registrations, i);
}

/// The routes of a dashboard, in registration order.
#[derive(Debug)]
pub struct RouteTable {
    registrations: Vec<Registration>,
}

impl View for RouteTable {
    type V = Seq<RegistrationView>;

    closed spec fn view(&self) -> Seq<RegistrationView> {
        self.registrations@.map_values(|r: Registration| r@)
    }
}

impl RouteTable {
    /// A table without routes.
    pub fn new() -> (table: RouteTable)
        ensures
            table@ == Seq::<RegistrationView>::empty(),
    {
        let table = RouteTable { registrations: Vec::new() };
        assert(table@ =~= Seq::<RegistrationView>::empty());
        table
    }

    /// Registers `route` under `http_path`, after all earlier registrations.
    pub fn register(&mut self, http_path: String, route: Route)
        ensures
            final(self)@ == old(self)@.push(
                RegistrationView { http_path: http_path@, route: route@ },
            ),
    {
        self.registrations.push(Registration { http_path: http_path, route: route });
        assert(self@ =~= old(self)@.push(
            RegistrationView { http_path: http_path@, route: route@ },
        ));
    }

    /// The routes of `config`: the index page, the commands, the static
    /// mounts.
    pub fn build(config: &Configuration) -> (r: Result<RouteTable, RenderError>)
        ensures
            r is Ok,
            r matches Ok(table) ==> table@ == registrations_of(config@),
    {
        let mut table = RouteTable::new();
        match setup_router(&mut table, config) {
            Ok(()) => {},
            Err(e) => { return Err(e); },
        }
        setup_mount(&mut table, config);
        assert(table@ =~= registrations_of(config@));
        Ok(table)
    }

    /// The number of registrations.
    pub fn len(&self) -> (n: usize)
        ensures
            n == self@.len(),
    {
        self.registrations.len()
    }

    /// The registration at `index`, counted in registration order.
    pub fn registration(&self, index: usize) -> (entry: &Registration)
        requires
            index < self@.len(),
        ensures
            entry@ == self@[index as int],
    {
        &self.registrations[index]
    }

    /// Finds the registration that answers `path`: the last one registered
    /// under exactly this path, if there is one.
    pub fn resolve(&self, path: &String) -> (found: Option<usize>)
        ensures
            match found {
                Some(i) => resolved(self@, path@) == Some(i as int),
                None => resolved(self@, path@) is None,
            },
    {
        let mut i: usize = self.registrations.len();
        assert(self@.take(i as int) =~= self@);
        while i > 0
            invariant
                i <= self.registrations.len(),
                resolved(self@, path@) == resolved(self@.take(i as int), path@),
            decreases i,
        {
            i -= 1;
            proof {
                let upto = self@.take(i + 1);
                assert(upto.drop_last() =~= self@.take(i as int));
                assert(upto.last() == self.registrations@[i as int]@);
            }
            if self.registrations[i].http_path == *path {
                return Some(i);
            }
        }
        None
    }

    /// The route that answers `path`, if there is one.
    pub fn route(&self, path: &String) -> (found: Option<&Route>)
        ensures
            match found {
                Some(route) => resolved(self@, path@) matches Some(i) && route@ == self@[i].route,
                None => resolved(self@, path@) is None,
            },
    {
        proof {
            lemma_last_registration_wins(self@, path@);
        }
        match self.resolve(path) {
            Some(i) => Some(&self.registrations[i].route),
            None => None,
        }
    }

    /// Whether the registration at `index` answers its own path, that is,
    /// whether no later registration names the same path.
    pub fn is_active(&self, index: usize) -> (active: bool)
        requires
            index < self@.len(),
        ensures
            active == (resolved(self@, self@[index as int].http_path) == Some(index as int)),
    {
        match self.resolve(&self.registrations[index].http_path) {
            Some(i) => i == index,
            None => false,
        }
    }
}

/// Registers the routes that render pages: the index page of `config` at
/// `/`, then one command route for each command, in configuration order.
pub fn setup_router(table: &mut RouteTable, config: &Configuration) -> (r: Result<(), RenderError>)
    ensures
        r is Ok,
        final(table)@ == old(table)@ + router_registrations(config@),
{
    let index_handler = match IndexHandler::new(config) {
        Ok(handler) => handler,
        Err(e) => { return Err(e); },
    };
    let mut root = String::new();
    root.append("/");
    assert(root@ =~= "/"@);
    table.register(root, Route::Index(index_handler));
    let ghost commands = config@.commands;
    let ghost start = old(table)@.push(index_registration(config@));
    let mut i: usize = 0;
    while i < config.commands.len()
        invariant
            i <= config.commands.len(),
            commands == config@.commands,
            table@ == start + commands.take(i as int).map_values(
                |c: CommandInfoView| command_registration(c),
            ),
        decreases config.commands.len() - i,
    {
        let command_info = &config.commands[i];
        let handler = CommandHandler::new(command_info.clone());
        table.register(command_info.http_path.clone(), Route::Command(handler));
        proof {
            assert(commands[i as int] == command_info@);
            assert(table@ =~= start + commands.take(i + 1).map_values(
                |c: CommandInfoView| command_registration(c),
            ));
        }
        i += 1;
    }
    proof {
        assert(commands.take(i as int) =~= commands);
        assert(table@ =~= old(table)@ + router_registrations(config@));
    }
    Ok(())
}

/// Registers one static mount for each static path of `config`, in
/// configuration order.
pub fn setup_mount(table: &mut RouteTable, config: &Configuration)
    ensures
        final(table)@ == old(table)@ + mount_registrations(config@),
{
    let ghost entries = config@.static_paths;
    let mut i: usize = 0;
    while i < config.static_paths.len()
        invariant
            i <= config.static_paths.len(),
            entries == config@.static_paths,
            table@ == old(table)@ + entries.take(i as int).map_values(
                |s: StaticPathInfoView| mount_registration(s),
            ),
        decreases config.static_paths.len() - i,
    {
        let static_path_info = &config.static_paths[i];
        table.register(
            static_path_info.http_path.clone(),
            Route::StaticMount(StaticMount { fs_path: static_path_info.fs_path.clone() }),
        );
        proof {
            assert(entries[i as int] == static_path_info@);
            assert(table@ =~= old(table)@ + entries.take(i + 1).map_values(
                |s: StaticPathInfoView| mount_registration(s),
            ));
        }
        i += 1;
    }
    proof {
        assert(entries.take(i as int) =~= entries);
    }
}

} // verus!
