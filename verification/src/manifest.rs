//! The plugin's description of itself, which it prints when it is asked to.

use crate::config::{ENV_AUTO_MIGRATE, ENV_DB_PATH, ENV_KINDS};
use crate::text::{same_text, texts};
use vstd::prelude::*;

verus! {

/// What sort of plugin this is.
pub const PLUGIN_KIND: &'static str = "subject_backend";

/// An environment variable that the plugin reads.
#[derive(Debug, PartialEq, Eq)]
pub struct EnvVariable {
    pub name: String,
    pub description: String,
    pub required: bool,
}

/// What an [`EnvVariable`] stands for.
pub struct EnvVariableView {
    pub name: Seq<char>,
    pub description: Seq<char>,
    pub required: bool,
}

impl View for EnvVariable {
    type V = EnvVariableView;

    open spec fn view(&self) -> EnvVariableView {
        EnvVariableView {
            name: self.name@,
            description: self.description@,
            required: self.required,
        }
    }
}

/// The plugin's description of itself.
#[derive(Debug, PartialEq, Eq)]
pub struct PluginManifest {
    pub name: String,
    pub version: String,
    pub plugin_kind: String,
    pub description: String,
    pub protocol_version: String,
    pub capabilities: Vec<String>,
    pub env_required: Vec<EnvVariable>,
}

/// What the plugin can be asked for.
pub open spec fn capability_texts() -> Seq<Seq<char>> {
    seq![
        "task/list"@,
        "task/get"@,
        "task/update"@,
        "task/schema"@,
        "task/watch"@,
        "subject/list"@,
        "subject/get"@,
        "subject/update"@,
        "subject/schema"@,
        "subject/watch"@,
        "health/check"@,
        "subject_kind:task"@,
    ]
}

/// Whatever the plugin can be asked for by the kind `task`, it can be asked for
/// by `subject` too; beyond that it tells its health and the kind that it serves.
pub proof fn law_tasks_are_asked_for_as_subjects(i: int)
    requires
        0 <= i < 5,
    ensures
        ({
            let verbs = seq!["list"@, "get"@, "update"@, "schema"@, "watch"@];
            &&& capability_texts().len() == 12
            &&& capability_texts()[i] == "task/"@ + verbs[i]
            &&& capability_texts()[i + 5] == "subject/"@ + verbs[i]
            &&& capability_texts()[10] == "health/check"@
            &&& capability_texts()[11] == "subject_kind:"@ + "task"@
        }),
{
    reveal_strlit("task/");
    reveal_strlit("subject/");
    reveal_strlit("list");
    reveal_strlit("get");
    reveal_strlit("update");
    reveal_strlit("schema");
    reveal_strlit("watch");
    reveal_strlit("task/list");
    reveal_strlit("task/get");
    reveal_strlit("task/update");
    reveal_strlit("task/schema");
    reveal_strlit("task/watch");
    reveal_strlit("subject/list");
    reveal_strlit("subject/get");
    reveal_strlit("subject/update");
    reveal_strlit("subject/schema");
    reveal_strlit("subject/watch");
    reveal_strlit("subject_kind:");
    reveal_strlit("task");
    reveal_strlit("subject_kind:task");
    assert("task/"@ + "list"@ == "task/list"@);
    assert("task/"@ + "get"@ == "task/get"@);
    assert("task/"@ + "update"@ == "task/update"@);
    assert("task/"@ + "schema"@ == "task/schema"@);
    assert("task/"@ + "watch"@ == "task/watch"@);
    assert("subject/"@ + "list"@ == "subject/list"@);
    assert("subject/"@ + "get"@ == "subject/get"@);
    assert("subject/"@ + "update"@ == "subject/update"@);
    assert("subject/"@ + "schema"@ == "subject/schema"@);
    assert("subject/"@ + "watch"@ == "subject/watch"@);
    assert("subject_kind:"@ + "task"@ == "subject_kind:task"@);
}

/// The environment variables that the plugin reads; it needs none of them.
pub open spec fn env_variables() -> Seq<EnvVariableView> {
    seq![
        EnvVariableView {
            name: ENV_DB_PATH@,
            description: "Path to the SQLite database file."@,
            required: false,
        },
        EnvVariableView {
            name: ENV_KINDS@,
            description: "Comma-separated subject kinds served by this backend."@,
            required: false,
        },
        EnvVariableView {
            name: ENV_AUTO_MIGRATE@,
            description: "Run schema migrations on startup."@,
            required: false,
        },
    ]
}

/// What a list of environment variables stands for.
pub open spec fn env_views(list: Seq<EnvVariable>) -> Seq<EnvVariableView> {
    list.map_values(|v: EnvVariable| v@)
}

/// Whether an argument asks for the manifest.
pub open spec fn is_manifest_flag(arg: Seq<char>) -> bool {
    arg == "--manifest"@ || arg == "-m"@
}

/// Two flags ask for the manifest, and no other argument does.
pub proof fn law_two_flags_ask_for_the_manifest(arg: Seq<char>)
    ensures
        is_manifest_flag(arg) <==> seq!["--manifest"@, "-m"@].contains(arg),
{
    let flags = seq!["--manifest"@, "-m"@];
    assert(flags[0] == "--manifest"@ && flags[1] == "-m"@);
}

/// Whether the command line asks for the manifest; its first word is the name of
/// the program.
pub fn manifest_requested(args: &Vec<String>) -> (r: bool)
    ensures
        r == exists|i: int| 1 <= i < args@.len() && is_manifest_flag(#[trigger] texts(args@)[i]),
{
    let mut i: usize = 1;
    while i < args.len()
        invariant
            1 <= i,
            forall|j: int|
                1 <= j < i && j < args@.len() ==> !is_manifest_flag(#[trigger] texts(args@)[j]),
        decreases args@.len() - i,
    {
        if same_text(args[i].as_str(), "--manifest") || same_text(args[i].as_str(), "-m") {
            assert(is_manifest_flag(texts(args@)[i as int]));
            return true;
        }
        i = i + 1;
    }
    false
}

fn variable(name: &str, description: &str) -> (r: EnvVariable)
    ensures
        r@ == (EnvVariableView { name: name@, description: description@, required: false }),
{
    EnvVariable { name: name.to_owned(), description: description.to_owned(), required: false }
}

/// The manifest of the plugin with the given name, version and description, on
/// the given version of the protocol.
pub fn manifest(name: &str, version: &str, description: &str, protocol_version: &str) -> (r:
    PluginManifest)
    ensures
        r.name@ == name@,
        r.version@ == version@,
        r.plugin_kind@ == PLUGIN_KIND@,
        r.description@ == description@,
        r.protocol_version@ == protocol_version@,
        texts(r.capabilities@) == capability_texts(),
        env_views(r.env_required@) == env_variables(),
{
    let capabilities: Vec<String> = vec![
        "task/list".to_owned(),
        "task/get".to_owned(),
        "task/update".to_owned(),
        "task/schema".to_owned(),
        "task/watch".to_owned(),
        "subject/list".to_owned(),
        "subject/get".to_owned(),
        "subject/update".to_owned(),
        "subject/schema".to_owned(),
        "subject/watch".to_owned(),
        "health/check".to_owned(),
        "subject_kind:task".to_owned(),
    ];
    assert(texts(capabilities@) == capability_texts());
    let env_required: Vec<EnvVariable> = vec![
        variable(ENV_DB_PATH, "Path to the SQLite database file."),
        variable(ENV_KINDS, "Comma-separated subject kinds served by this backend."),
        variable(ENV_AUTO_MIGRATE, "Run schema migrations on startup."),
    ];
    assert(env_views(env_required@) == env_variables());
    PluginManifest {
        name: name.to_owned(),
        version: version.to_owned(),
        plugin_kind: PLUGIN_KIND.to_owned(),
        description: description.to_owned(),
        protocol_version: protocol_version.to_owned(),
        capabilities,
        env_required,
    }
}

} // verus!
