//! The declarative route table: commands, static mounts and server metadata.

use vstd::prelude::*;

verus! {

/// The texts held by a sequence of strings, in order.
pub open spec fn texts(strings: Seq<String>) -> Seq<Seq<char>> {
    strings.map_values(|s: String| s@)
}

/// A command route: the path it answers, its label, and the program to run.
#[derive(Debug)]
pub struct CommandInfo {
    pub http_path: String,
    pub description: String,
    pub command: String,
    pub args: Vec<String>,
}

/// What a [`CommandInfo`] says, as plain sequences.
pub struct CommandInfoView {
    pub http_path: Seq<char>,
    pub description: Seq<char>,
    pub command: Seq<char>,
    pub args: Seq<Seq<char>>,
}

impl View for CommandInfo {
    type V = CommandInfoView;

    open spec fn view(&self) -> CommandInfoView {
        CommandInfoView {
            http_path: self.http_path@,
            description: self.description@,
            command: self.command@,
            args: texts(self.args@),
        }
    }
}

/// Copies a list of strings.
pub fn clone_strings(strings: &Vec<String>) -> (copy: Vec<String>)
    ensures
        copy@ == strings@,
{
    let mut copy: Vec<String> = Vec::new();
    let mut i: usize = 0;
    while i < strings.len()
        invariant
            i <= strings.len(),
            copy@ == strings@.take(i as int),
        decreases strings.len() - i,
    {
        copy.push(strings[i].clone());
        assert(copy@ =~= strings@.take(i + 1));
        i += 1;
    }
    assert(strings@.take(i as int) =~= strings@);
    copy
}

impl Clone for CommandInfo {
    fn clone(&self) -> (copy: Self)
        ensures
            copy@ == self@,
    {
        CommandInfo {
            http_path: self.http_path.clone(),
            description: self.description.clone(),
            command: self.command.clone(),
            args: clone_strings(&self.args),
        }
    }
}

/// A static mount: a path prefix served from a directory.
#[derive(Debug)]
pub struct StaticPathInfo {
    pub http_path: String,
    pub fs_path: String,
    pub include_in_main_page: bool,
}

/// What a [`StaticPathInfo`] says, as plain values.
pub struct StaticPathInfoView {
    pub http_path: Seq<char>,
    pub fs_path: Seq<char>,
    pub include_in_main_page: bool,
}

impl View for StaticPathInfo {
    type V = StaticPathInfoView;

    open spec fn view(&self) -> StaticPathInfoView {
        StaticPathInfoView {
            http_path: self.http_path@,
            fs_path: self.fs_path@,
            include_in_main_page: self.include_in_main_page,
        }
    }
}

/// The whole configuration. The order of `commands` and of `static_paths` is
/// the order in which they are listed and registered.
#[derive(Debug)]
pub struct Configuration {
    pub listen_address: String,
    pub main_page_title: String,
    pub commands: Vec<CommandInfo>,
    pub static_paths: Vec<StaticPathInfo>,
}

/// What a [`Configuration`] says, as plain values.
pub struct ConfigurationView {
    pub listen_address: Seq<char>,
    pub main_page_title: Seq<char>,
    pub commands: Seq<CommandInfoView>,
    pub static_paths: Seq<StaticPathInfoView>,
}

impl View for Configuration {
    type V = ConfigurationView;

    open spec fn view(&self) -> ConfigurationView {
        ConfigurationView {
            listen_address: self.listen_address@,
            main_page_title: self.main_page_title@,
            commands: self.commands@.map_values(|c: CommandInfo| c@),
            static_paths: self.static_paths@.map_values(|s: StaticPathInfo| s@),
        }
    }
}

} // verus!
