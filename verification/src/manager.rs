//! The configuration: for each package manager, the commands that install,
//! upgrade and remove a package.
use vstd::prelude::*;
use crate::command::{formatted, Command, CommandText, TemplateCommand};
use crate::document::{lookup, parse_document, toml_document, value_under, Entry, Node};
use crate::error::{ActionSlot, ConfigError};
use crate::text::same_text;

verus! {

/// The commands of one package manager.
#[derive(Debug, PartialEq, Eq)]
pub struct SingleManagerConfig {
    install: Command,
    upgrade: Command,
    remove: Command,
}

/// What a [`SingleManagerConfig`] stands for.
pub struct ManagerCommands {
    pub install: CommandText,
    pub upgrade: CommandText,
    pub remove: CommandText,
}

impl View for SingleManagerConfig {
    type V = ManagerCommands;

    closed spec fn view(&self) -> ManagerCommands {
        ManagerCommands { install: self.install@, upgrade: self.upgrade@, remove: self.remove@ }
    }
}

impl ManagerCommands {
    /// The command in a slot.
    pub open spec fn command(self, slot: ActionSlot) -> CommandText {
        match slot {
            ActionSlot::Install => self.install,
            ActionSlot::Upgrade => self.upgrade,
            ActionSlot::Remove => self.remove,
        }
    }
}

/// The key under which a slot stands in a manager's table.
pub open spec fn slot_key(slot: ActionSlot) -> Seq<char> {
    match slot {
        ActionSlot::Install => seq!['i', 'n', 's', 't', 'a', 'l', 'l'],
        ActionSlot::Upgrade => seq!['u', 'p', 'g', 'r', 'a', 'd', 'e'],
        ActionSlot::Remove => seq!['r', 'e', 'm', 'o', 'v', 'e'],
    }
}

/// The key of a pattern in a command's table.
pub open spec fn template_key() -> Seq<char> {
    seq!['t', 'e', 'm', 'p', 'l', 'a', 't', 'e']
}

/// The key of the managers in a document.
pub open spec fn manager_key() -> Seq<char> {
    seq!['m', 'a', 'n', 'a', 'g', 'e', 'r']
}

/// The command that a value holds. A table is a pattern, and must hold a
/// string under `template`; a string is a bare verb. The table is tried
/// first, and a table that is no pattern is no command at all.
pub open spec fn command_in(node: Node) -> Option<CommandText> {
    match node {
        Node::Table(entries) => match value_under(entries@, template_key()) {
            Some(Node::Text(pattern)) => Some(CommandText::Template(pattern@)),
            _ => None,
        },
        Node::Text(verb) => Some(CommandText::Simple(verb@)),
        Node::Other => None,
    }
}

/// The command in a slot of the manager at position `at`, or what is wrong
/// with it.
pub open spec fn slot_in(entries: Seq<Entry>, at: int, slot: ActionSlot) -> Result<
    CommandText,
    ConfigError,
> {
    match value_under(entries, slot_key(slot)) {
        None => Err(ConfigError::MissingAction(at as usize, slot)),
        Some(node) => match command_in(node) {
            None => Err(ConfigError::MalformedAction(at as usize, slot)),
            Some(command) => Ok(command),
        },
    }
}

/// The commands of the manager at position `at`, or the first thing that is
/// wrong with it: `install` is looked at first, then `upgrade`, then
/// `remove`.
pub open spec fn manager_in(node: Node, at: int) -> Result<ManagerCommands, ConfigError> {
    match node {
        Node::Table(entries) => match slot_in(entries@, at, ActionSlot::Install) {
            Err(e) => Err(e),
            Ok(install) => match slot_in(entries@, at, ActionSlot::Upgrade) {
                Err(e) => Err(e),
                Ok(upgrade) => match slot_in(entries@, at, ActionSlot::Remove) {
                    Err(e) => Err(e),
                    Ok(remove) => Ok(ManagerCommands { install, upgrade, remove }),
                },
            },
        },
        _ => Err(ConfigError::ManagerNotTable(at as usize)),
    }
}

/// The first `n` managers of a table with their names, or what is wrong with
/// the first of them that is wrong.
pub open spec fn managers_in(entries: Seq<Entry>, n: int) -> Result<
    Seq<(Seq<char>, ManagerCommands)>,
    ConfigError,
>
    decreases n,
{
    if n <= 0 {
        Ok(Seq::empty())
    } else {
        match managers_in(entries, n - 1) {
            Err(e) => Err(e),
            Ok(before) => match manager_in(entries[n - 1].value, n - 1) {
                Err(e) => Err(e),
                Ok(commands) => Ok(before.push((entries[n - 1].key@, commands))),
            },
        }
    }
}

/// The configuration that a document holds: the managers of its `manager`
/// table, or why the document is no configuration.
pub open spec fn configuration_in(document: Node) -> Result<
    Seq<(Seq<char>, ManagerCommands)>,
    ConfigError,
> {
    match document {
        Node::Table(top) => match value_under(top@, manager_key()) {
            Some(Node::Table(managers)) => managers_in(managers@, managers@.len() as int),
            _ => Err(ConfigError::MissingManagers),
        },
        _ => Err(ConfigError::MissingManagers),
    }
}

/// The configuration that a text holds.
pub open spec fn configuration_of(document: Option<Node>) -> Result<
    Seq<(Seq<char>, ManagerCommands)>,
    ConfigError,
> {
    match document {
        None => Err(ConfigError::Syntax),
        Some(tree) => configuration_in(tree),
    }
}

/// The command that a value holds, if it holds one.
pub fn read_command(node: &Node) -> (out: Option<Command>)
    ensures
        match command_in(*node) {
            Some(text) => out is Some && out->0@ == text,
            None => out is None,
        },
{
    proof {
        reveal_strlit("template");
        assert("template"@ =~= template_key());
    }
    match node {
        Node::Table(entries) => match lookup(entries, "template") {
            Some(Node::Text(pattern)) => Some(
                Command::Template(TemplateCommand { template: pattern.clone() }),
            ),
            _ => None,
        },
        Node::Text(verb) => Some(Command::Simple(verb.clone())),
        Node::Other => None,
    }
}

/// The command in a slot of the manager at position `at`.
fn read_slot(entries: &Vec<Entry>, at: usize, slot: ActionSlot) -> (out: Result<
    Command,
    ConfigError,
>)
    ensures
        match slot_in(entries@, at as int, slot) {
            Ok(text) => out is Ok && out->Ok_0@ == text,
            Err(e) => out == Err::<Command, ConfigError>(e),
        },
{
    proof {
        reveal_strlit("install");
        reveal_strlit("upgrade");
        reveal_strlit("remove");
        assert("install"@ =~= slot_key(ActionSlot::Install));
        assert("upgrade"@ =~= slot_key(ActionSlot::Upgrade));
        assert("remove"@ =~= slot_key(ActionSlot::Remove));
    }
    let key = match slot {
        ActionSlot::Install => "install",
        ActionSlot::Upgrade => "upgrade",
        ActionSlot::Remove => "remove",
    };
    match lookup(entries, key) {
        None => Err(ConfigError::MissingAction(at, slot)),
        Some(node) => match read_command(node) {
            None => Err(ConfigError::MalformedAction(at, slot)),
            Some(command) => Ok(command),
        },
    }
}

impl SingleManagerConfig {
    /// The manager with these three commands.
    pub fn new(install: Command, upgrade: Command, remove: Command) -> (out: SingleManagerConfig)
        ensures
            out@ == (ManagerCommands { install: install@, upgrade: upgrade@, remove: remove@ }),
    {
        SingleManagerConfig { install, upgrade, remove }
    }

    /// The command in a slot.
    pub fn command(&self, slot: ActionSlot) -> (out: &Command)
        ensures
            out@ == self@.command(slot),
    {
        match slot {
            ActionSlot::Install => &self.install,
            ActionSlot::Upgrade => &self.upgrade,
            ActionSlot::Remove => &self.remove,
        }
    }

    /// The commands of the manager at position `at` of the managers' table.
    pub fn from_node(node: &Node, at: usize) -> (out: Result<SingleManagerConfig, ConfigError>)
        ensures
            match manager_in(*node, at as int) {
                Ok(commands) => out is Ok && out->Ok_0@ == commands,
                Err(e) => out == Err::<SingleManagerConfig, ConfigError>(e),
            },
    {
        match node {
            Node::Table(entries) => {
                let install = match read_slot(entries, at, ActionSlot::Install) {
                    Ok(c) => c,
                    Err(e) => {
                        return Err(e);
                    },
                };
                let upgrade = match read_slot(entries, at, ActionSlot::Upgrade) {
                    Ok(c) => c,
                    Err(e) => {
                        return Err(e);
                    },
                };
                let remove = match read_slot(entries, at, ActionSlot::Remove) {
                    Ok(c) => c,
                    Err(e) => {
                        return Err(e);
                    },
                };
                Ok(SingleManagerConfig { install, upgrade, remove })
            },
            _ => Err(ConfigError::ManagerNotTable(at)),
        }
    }
}

/// A package manager's name and its commands.
#[derive(Debug, PartialEq, Eq)]
pub struct NamedManager {
    pub name: String,
    pub config: SingleManagerConfig,
}

/// Another name for the commands of one package manager.
pub type PMConfig = SingleManagerConfig;

/// Another name for the configuration.
pub type Config = ManagerConfigs;

/// The commands of every package manager that the configuration knows.
#[derive(Debug, PartialEq, Eq)]
pub struct ManagerConfigs {
    manager: Vec<NamedManager>,
}

impl View for ManagerConfigs {
    type V = Seq<(Seq<char>, ManagerCommands)>;

    closed spec fn view(&self) -> Seq<(Seq<char>, ManagerCommands)> {
        Seq::new(self.manager@.len(), |i: int| (self.manager@[i].name@, self.manager@[i].config@))
    }
}

/// Where the first manager with this name stands among the first `n`.
pub open spec fn manager_position(
    managers: Seq<(Seq<char>, ManagerCommands)>,
    name: Seq<char>,
    n: int,
) -> Option<int>
    decreases n,
{
    if n <= 0 {
        None
    } else {
        match manager_position(managers, name, n - 1) {
            Some(i) => Some(i),
            None => if managers[n - 1].0 == name {
                Some(n - 1)
            } else {
                None
            },
        }
    }
}

/// The commands of the manager with this name: those of the first one that
/// has it.
pub open spec fn commands_of(managers: Seq<(Seq<char>, ManagerCommands)>, name: Seq<char>) -> Option<
    ManagerCommands,
> {
    match manager_position(managers, name, managers.len() as int) {
        Some(i) => Some(managers[i].1),
        None => None,
    }
}

/// A position that was found among the first `n` managers is the one found
/// among more.
pub proof fn lemma_manager_stays(
    managers: Seq<(Seq<char>, ManagerCommands)>,
    name: Seq<char>,
    n: int,
    m: int,
)
    requires
        n <= m,
        manager_position(managers, name, n) is Some,
    ensures
        manager_position(managers, name, m) == manager_position(managers, name, n),
    decreases m - n,
{
    if n < m {
        lemma_manager_stays(managers, name, n, m - 1);
    }
}

/// The command line that a configuration gives for an action of a manager
/// on a package; nothing where the manager is unknown.
pub open spec fn resolved(
    managers: Seq<(Seq<char>, ManagerCommands)>,
    manager: Seq<char>,
    slot: ActionSlot,
    package_name: Seq<char>,
) -> Option<Seq<char>> {
    match commands_of(managers, manager) {
        Some(commands) => Some(formatted(commands.command(slot), package_name)),
        None => None,
    }
}

impl ManagerConfigs {
    /// The package managers, each with its name, in the order of the
    /// document.
    pub fn manager(&self) -> (out: &Vec<NamedManager>)
        ensures
            out@.len() == self@.len(),
            forall|i: int|
                0 <= i < out@.len() ==> (#[trigger] out@[i]).name@ == self@[i].0
                    && out@[i].config@ == self@[i].1,
    {
        &self.manager
    }

    /// The commands of a package manager, if the configuration knows it.
    pub fn config_of(&self, package_manager_name: &str) -> (out: Option<&SingleManagerConfig>)
        ensures
            match commands_of(self@, package_manager_name@) {
                Some(commands) => out is Some && out->0@ == commands,
                None => out is None,
            },
    {
        let mut i: usize = 0;
        while i < self.manager.len()
            invariant
                i <= self.manager.len(),
                manager_position(self@, package_manager_name@, i as int) is None,
            decreases self.manager.len() - i,
        {
            if same_text(self.manager[i].name.as_str(), package_manager_name) {
                proof {
                    lemma_manager_stays(
                        self@,
                        package_manager_name@,
                        i + 1,
                        self.manager.len() as int,
                    );
                }
                return Some(&self.manager[i].config);
            }
            i += 1;
        }
        None
    }

    /// The command line for an action of a manager on a package; nothing
    /// where the configuration does not know the manager.
    pub fn resolve(&self, manager: &str, slot: ActionSlot, package_name: &str) -> (out: Option<
        String,
    >)
        ensures
            match resolved(self@, manager@, slot, package_name@) {
                Some(line) => out is Some && out->0@ == line,
                None => out is None,
            },
    {
        match self.config_of(manager) {
            Some(config) => Some(config.command(slot).format(package_name)),
            None => None,
        }
    }

    /// The configuration that a document holds. Every manager must be a table
    /// with its three commands, each a string or a table with a string
    /// `template`; the first manager that is not decides the error.
    pub fn from_document(document: &Node) -> (out: Result<ManagerConfigs, ConfigError>)
        ensures
            match configuration_in(*document) {
                Ok(managers) => out is Ok && out->Ok_0@ == managers,
                Err(e) => out == Err::<ManagerConfigs, ConfigError>(e),
            },
    {
        proof {
            reveal_strlit("manager");
            assert("manager"@ =~= manager_key());
        }
        let entries = match document {
            Node::Table(top) => match lookup(top, "manager") {
                Some(Node::Table(managers)) => managers,
                _ => {
                    return Err(ConfigError::MissingManagers);
                },
            },
            _ => {
                return Err(ConfigError::MissingManagers);
            },
        };
        let mut out = ManagerConfigs { manager: Vec::new() };
        let mut i: usize = 0;
        proof {
            assert(out@ =~= Seq::empty());
        }
        while i < entries.len()
            invariant
                i <= entries.len(),
                configuration_in(*document) == managers_in(entries@, entries@.len() as int),
                managers_in(entries@, i as int) == Ok::<
                    Seq<(Seq<char>, ManagerCommands)>,
                    ConfigError,
                >(out@),
            decreases entries.len() - i,
        {
            let ghost before = out@;
            match SingleManagerConfig::from_node(&entries[i].value, i) {
                Err(e) => {
                    proof {
                        assert(managers_in(entries@, i + 1) == Err::<
                            Seq<(Seq<char>, ManagerCommands)>,
                            ConfigError,
                        >(e));
                        lemma_managers_fail(entries@, i + 1, entries.len() as int);
                    }
                    return Err(e);
                },
                Ok(config) => {
                    out.manager.push(NamedManager { name: entries[i].key.clone(), config });
                    proof {
                        assert(out@ =~= before.push((entries@[i as int].key@, config@)));
                    }
                },
            }
            i += 1;
        }
        Ok(out)
    }

    /// The configuration that a text holds. The text must be a TOML document:
    /// a `manager` table, and under it one table for each package manager.
    pub fn from_text(text: &str) -> (out: Result<ManagerConfigs, ConfigError>)
        ensures
            match configuration_of(toml_document(text@)) {
                Ok(managers) => out is Ok && out->Ok_0@ == managers,
                Err(e) => out == Err::<ManagerConfigs, ConfigError>(e),
            },
    {
        match parse_document(text) {
            None => Err(ConfigError::Syntax),
            Some(document) => ManagerConfigs::from_document(&document),
        }
    }
}

/// An error among the first `n` managers is the error of the whole table.
pub proof fn lemma_managers_fail(entries: Seq<Entry>, n: int, m: int)
    requires
        n <= m,
        managers_in(entries, n) is Err,
    ensures
        managers_in(entries, m) == managers_in(entries, n),
    decreases m - n,
{
    if n < m {
        lemma_managers_fail(entries, n, m - 1);
    }
}

/// The configuration that is used where none is written: `brew` alone.
pub open spec fn default_managers() -> Seq<(Seq<char>, ManagerCommands)> {
    seq![
        (
            "brew"@,
            ManagerCommands {
                install: CommandText::Template("install {package_name}"@),
                upgrade: CommandText::Template("upgrade {package_name}"@),
                remove: CommandText::Template("remove {package_name}"@),
            },
        ),
    ]
}

impl Default for ManagerConfigs {
    fn default() -> (out: ManagerConfigs)
        ensures
            out@ == default_managers(),
    {
        let brew = SingleManagerConfig {
            install: Command::Template(
                TemplateCommand { template: "install {package_name}".to_owned() },
            ),
            upgrade: Command::Template(
                TemplateCommand { template: "upgrade {package_name}".to_owned() },
            ),
            remove: Command::Template(
                TemplateCommand { template: "remove {package_name}".to_owned() },
            ),
        };
        let mut manager: Vec<NamedManager> = Vec::new();
        manager.push(NamedManager { name: "brew".to_owned(), config: brew });
        let out = ManagerConfigs { manager };
        proof {
            assert(out@ =~= default_managers());
        }
        out
    }
}

impl std::str::FromStr for ManagerConfigs {
    type Err = ConfigError;

    /// The configuration that a text holds, as `ManagerConfigs::from_text`
    /// gives it: the managers of the document's `manager` table, or why the
    /// text is no configuration.
    fn from_str(s: &str) -> (out: Result<ManagerConfigs, ConfigError>)
        ensures
            match configuration_of(toml_document(s@)) {
                Ok(managers) => out is Ok && out->Ok_0@ == managers,
                Err(e) => out == Err::<ManagerConfigs, ConfigError>(e),
            },
    {
        ManagerConfigs::from_text(s)
    }
}

} // verus!
