use cmd_dashboard::config::{CommandInfo, Configuration, StaticPathInfo};
use cmd_dashboard::handler::{CommandHandler, IndexHandler};
use cmd_dashboard::routes::{setup_mount, setup_router, Route, RouteTable, StaticMount};

fn command(path: &str, description: &str, command: &str, args: &[&str]) -> CommandInfo {
    CommandInfo {
        http_path: path.to_string(),
        description: description.to_string(),
        command: command.to_string(),
        args: args.iter().map(|a| a.to_string()).collect(),
    }
}

fn static_path(path: &str, dir: &str, shown: bool) -> StaticPathInfo {
    StaticPathInfo {
        http_path: path.to_string(),
        fs_path: dir.to_string(),
        include_in_main_page: shown,
    }
}

fn configuration(commands: Vec<CommandInfo>, static_paths: Vec<StaticPathInfo>) -> Configuration {
    Configuration {
        listen_address: "127.0.0.1:8080".to_string(),
        main_page_title: "Dash".to_string(),
        commands,
        static_paths,
    }
}

fn kind(route: &Route) -> String {
    match route {
        Route::Index(_) => "index".to_string(),
        Route::Command(handler) => format!("command {}", handler.command_info().command),
        Route::StaticMount(mount) => format!("static {}", mount.fs_path),
    }
}

fn listing(table: &RouteTable) -> Vec<(String, String)> {
    (0..table.len())
        .map(|i| {
            let entry = table.registration(i);
            (entry.http_path.clone(), kind(&entry.route))
        })
        .collect()
}

fn pair(path: &str, kind: &str) -> (String, String) {
    (path.to_string(), kind.to_string())
}

#[test]
fn build_registers_index_then_commands_then_static_mounts() {
    let config = configuration(
        vec![command("/uptime", "Uptime", "uptime", &[]), command("/df", "Disk", "df", &["-h"])],
        vec![static_path("/files", "./public", true), static_path("/logs", "/var/log", false)],
    );
    let table = RouteTable::build(&config).unwrap();
    assert_eq!(table.len(), 5);
    assert_eq!(
        listing(&table),
        vec![
            pair("/", "index"),
            pair("/uptime", "command uptime"),
            pair("/df", "command df"),
            pair("/files", "static ./public"),
            pair("/logs", "static /var/log"),
        ]
    );
}

#[test]
fn build_of_empty_configuration_has_only_the_index() {
    let table = RouteTable::build(&configuration(vec![], vec![])).unwrap();
    assert_eq!(listing(&table), vec![pair("/", "index")]);
    assert_eq!(table.resolve(&"/".to_string()), Some(0));
}

#[test]
fn index_route_serves_the_index_page_of_the_configuration() {
    let config = configuration(
        vec![command("/uptime", "Uptime", "uptime", &[])],
        vec![static_path("/files", "./public", true)],
    );
    let table = RouteTable::build(&config).unwrap();
    let expected = IndexHandler::new(&config).unwrap();
    match table.route(&"/".to_string()) {
        Some(Route::Index(handler)) => {
            assert_eq!(handler.index_string(), expected.index_string());
            assert_eq!(handler.handle().body, handler.handle().body);
        }
        other => panic!("unexpected route: {:?}", other),
    }
}

#[test]
fn command_route_carries_its_command() {
    let config = configuration(vec![command("/df", "Disk", "df", &["-h", "/"])], vec![]);
    let table = RouteTable::build(&config).unwrap();
    match table.route(&"/df".to_string()) {
        Some(Route::Command(handler)) => {
            assert_eq!(handler.command_info().command, "df");
            assert_eq!(handler.command_info().description, "Disk");
            assert_eq!(handler.args_string(), "-h /");
        }
        other => panic!("unexpected route: {:?}", other),
    }
}

#[test]
fn static_mount_is_registered_whether_or_not_it_is_listed() {
    let config = configuration(
        vec![],
        vec![static_path("/files", "./public", true), static_path("/hidden", "./private", false)],
    );
    let table = RouteTable::build(&config).unwrap();
    match table.route(&"/files".to_string()) {
        Some(Route::StaticMount(mount)) => assert_eq!(mount.fs_path, "./public"),
        other => panic!("unexpected route: {:?}", other),
    }
    match table.route(&"/hidden".to_string()) {
        Some(Route::StaticMount(mount)) => assert_eq!(mount.fs_path, "./private"),
        other => panic!("unexpected route: {:?}", other),
    }
}

#[test]
fn unknown_path_resolves_to_nothing() {
    let config = configuration(vec![command("/df", "Disk", "df", &[])], vec![]);
    let table = RouteTable::build(&config).unwrap();
    assert_eq!(table.resolve(&"/nope".to_string()), None);
    assert_eq!(table.resolve(&"/df/".to_string()), None);
    assert_eq!(table.resolve(&"".to_string()), None);
    assert!(table.route(&"/nope".to_string()).is_none());
    assert!(RouteTable::new().resolve(&"/".to_string()).is_none());
}

#[test]
fn duplicate_command_path_resolves_to_the_later_command() {
    let config = configuration(
        vec![
            command("/run", "First", "first", &[]),
            command("/other", "Other", "other", &[]),
            command("/run", "Second", "second", &[]),
        ],
        vec![],
    );
    let table = RouteTable::build(&config).unwrap();
    assert_eq!(table.len(), 4);
    assert_eq!(table.resolve(&"/run".to_string()), Some(3));
    match table.route(&"/run".to_string()) {
        Some(Route::Command(handler)) => assert_eq!(handler.command_info().command, "second"),
        other => panic!("unexpected route: {:?}", other),
    }
    assert!(table.is_active(0));
    assert!(!table.is_active(1));
    assert!(table.is_active(2));
    assert!(table.is_active(3));
}

#[test]
fn static_mount_overrides_a_command_with_the_same_path() {
    let config = configuration(
        vec![command("/files", "Files", "ls", &[])],
        vec![static_path("/files", "./public", true)],
    );
    let table = RouteTable::build(&config).unwrap();
    assert_eq!(table.resolve(&"/files".to_string()), Some(2));
    match table.route(&"/files".to_string()) {
        Some(Route::StaticMount(mount)) => assert_eq!(mount.fs_path, "./public"),
        other => panic!("unexpected route: {:?}", other),
    }
    assert!(!table.is_active(1));
    assert!(table.is_active(2));
}

#[test]
fn command_at_root_overrides_the_index() {
    let config = configuration(vec![command("/", "Root", "root", &[])], vec![]);
    let table = RouteTable::build(&config).unwrap();
    assert_eq!(table.resolve(&"/".to_string()), Some(1));
    assert!(!table.is_active(0));
    assert!(table.is_active(1));
}

#[test]
fn exactly_one_registration_is_active_for_each_registered_path() {
    let config = configuration(
        vec![
            command("/a", "A1", "a1", &[]),
            command("/b", "B", "b", &[]),
            command("/a", "A2", "a2", &[]),
        ],
        vec![static_path("/a", "./a", false), static_path("/c", "./c", true)],
    );
    let table = RouteTable::build(&config).unwrap();
    for path in ["/", "/a", "/b", "/c"] {
        let active: Vec<usize> = (0..table.len())
            .filter(|&i| table.registration(i).http_path == path && table.is_active(i))
            .collect();
        assert_eq!(active.len(), 1, "path {}", path);
        assert_eq!(table.resolve(&path.to_string()), Some(active[0]));
    }
    assert_eq!(table.resolve(&"/a".to_string()), Some(4));
}

#[test]
fn setup_router_and_setup_mount_append_in_order() {
    let config = configuration(
        vec![command("/df", "Disk", "df", &[])],
        vec![static_path("/files", "./public", true)],
    );
    let mut table = RouteTable::new();
    setup_mount(&mut table, &config);
    assert_eq!(listing(&table), vec![pair("/files", "static ./public")]);
    setup_router(&mut table, &config).unwrap();
    assert_eq!(
        listing(&table),
        vec![pair("/files", "static ./public"), pair("/", "index"), pair("/df", "command df")]
    );
}

#[test]
fn register_appends_one_route() {
    let mut table = RouteTable::new();
    assert_eq!(table.len(), 0);
    table.register(
        "/x".to_string(),
        Route::Command(CommandHandler::new(command("/x", "X", "x", &[]))),
    );
    table.register("/x".to_string(), Route::StaticMount(StaticMount { fs_path: "./x".to_string() }));
    assert_eq!(listing(&table), vec![pair("/x", "command x"), pair("/x", "static ./x")]);
    assert_eq!(table.resolve(&"/x".to_string()), Some(1));
}
