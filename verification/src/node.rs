//! The decisions of starting a network node: its configuration, where its
//! stores live, and when the wait for network attachment is over.
use vstd::prelude::*;

use crate::error::ConfigError;
use crate::json::JsonModel;
use crate::json::json_bool;
use crate::json::json_field;
use crate::json::json_from_str;
use crate::json::json_get;
use crate::json::json_has_field;
use crate::json::json_indexable;
use crate::json::json_is_null;
use crate::json::json_is_object;
use crate::json::json_model;
use crate::json::json_parse;
use crate::json::json_set_field;
use crate::json::json_string;
use crate::json::json_text;
use crate::json::json_to_string;
use crate::json::json_with_field;

verus! {

/// The program name the node is configured with.
pub fn program_name() -> (name: &'static str)
    ensures
        name@ == "voidpost"@,
{
    "voidpost"
}

/// Seconds to wait for the node to attach to the network before giving up.
pub const ATTACH_TIMEOUT_SECS: u64 = 60;

/// How well a node is attached to the network, as its update callback reports it.
#[derive(Debug, Clone, Copy, PartialEq, Eq, Structural)]
pub enum AttachmentState {
    Detached,
    Attaching,
    AttachedWeak,
    AttachedGood,
    AttachedStrong,
    FullyAttached,
    OverAttached,
    Detaching,
}

/// The state counts as attached: weak, good, strong, full or over-attached.
pub open spec fn spec_is_attached(state: AttachmentState) -> bool {
    ||| state == AttachmentState::AttachedWeak
    ||| state == AttachmentState::AttachedGood
    ||| state == AttachmentState::AttachedStrong
    ||| state == AttachmentState::FullyAttached
    ||| state == AttachmentState::OverAttached
}

/// Whether the node may be used for DHT operations in this state.
pub fn is_attached(state: AttachmentState) -> (res: bool)
    ensures
        res == spec_is_attached(state),
{
    match state {
        AttachmentState::AttachedWeak | AttachmentState::AttachedGood | AttachmentState::AttachedStrong
        | AttachmentState::FullyAttached | AttachmentState::OverAttached => true,
        _ => false,
    }
}

/// What to do after waiting for the next attachment update.
#[derive(Debug, Clone, Copy, PartialEq, Eq, Structural)]
pub enum AttachWait {
    /// The node is attached; startup is complete.
    Attached,
    /// Not attached yet; wait for the next update.
    KeepWaiting,
    /// The update channel closed; startup fails.
    ChannelClosed,
}

/// Decides on an attachment update: `None` means the update channel closed.
pub fn on_attachment_update(update: Option<AttachmentState>) -> (res: AttachWait)
    ensures
        update is None ==> res == AttachWait::ChannelClosed,
        update matches Some(state) ==> (res == AttachWait::Attached <==> spec_is_attached(state)),
        update matches Some(state) ==> (res == AttachWait::KeepWaiting <==> !spec_is_attached(state)),
{
    match update {
        None => AttachWait::ChannelClosed,
        Some(state) => if is_attached(state) {
            AttachWait::Attached
        } else {
            AttachWait::KeepWaiting
        },
    }
}

/// Where the node keeps each of its stores: directories under the data directory.
pub struct StoreDirectories {
    pub table_store: String,
    pub block_store: String,
    pub protected_store: String,
}

/// `dir` followed by `/` and `name`.
pub open spec fn subdirectory(dir: Seq<char>, name: Seq<char>) -> Seq<char> {
    dir + seq!['/'] + name
}

fn join_dir(dir: &str, name: &str) -> (res: String)
    ensures
        res@ == subdirectory(dir@, name@),
{
    let mut res = dir.to_owned();
    res.append("/");
    res.append(name);
    proof {
        reveal_strlit("/");
    }
    res
}

/// The store directories inside `data_dir`: `table_store`, `block_store` and
/// `protected_store`.
pub fn store_directories(data_dir: &str) -> (res: StoreDirectories)
    ensures
        res.table_store@ == subdirectory(data_dir@, "table_store"@),
        res.block_store@ == subdirectory(data_dir@, "block_store"@),
        res.protected_store@ == subdirectory(data_dir@, "protected_store"@),
{
    StoreDirectories {
        table_store: join_dir(data_dir, "table_store"),
        block_store: join_dir(data_dir, "block_store"),
        protected_store: join_dir(data_dir, "protected_store"),
    }
}

/// The settings this program changes in the node's default configuration.
pub struct NodeConfigEdits {
    pub program_name: String,
    pub namespace: String,
    pub table_store_directory: String,
    pub block_store_directory: String,
    pub protected_store_directory: String,
    pub allow_insecure_fallback: bool,
    pub always_use_insecure_storage: bool,
}

/// The configuration changes for a node whose state lives in `data_dir`: the
/// program name, an empty namespace, the three stores under `data_dir`, and a
/// protected store that may (and always does) fall back to insecure storage.
pub fn node_config_edits(data_dir: &str) -> (e: NodeConfigEdits)
    ensures
        e.program_name@ == "voidpost"@,
        e.namespace@ == Seq::<char>::empty(),
        e.table_store_directory@ == subdirectory(data_dir@, "table_store"@),
        e.block_store_directory@ == subdirectory(data_dir@, "block_store"@),
        e.protected_store_directory@ == subdirectory(data_dir@, "protected_store"@),
        e.allow_insecure_fallback,
        e.always_use_insecure_storage,
{
    let dirs = store_directories(data_dir);
    NodeConfigEdits {
        program_name: program_name().to_owned(),
        namespace: String::new(),
        table_store_directory: dirs.table_store,
        block_store_directory: dirs.block_store,
        protected_store_directory: dirs.protected_store,
        allow_insecure_fallback: true,
        always_use_insecure_storage: true,
    }
}

/// A store section with its directory set, and, for the protected store,
/// insecure storage allowed and always used.
pub open spec fn edited_store(section: JsonModel, directory: Seq<char>, insecure: bool) -> JsonModel {
    let s = json_with_field(section, "directory"@, JsonModel::Str(directory));
    if insecure {
        json_with_field(
            json_with_field(s, "allow_insecure_fallback"@, JsonModel::Bool(true)),
            "always_use_insecure_storage"@,
            JsonModel::Bool(true),
        )
    } else {
        s
    }
}

/// `config` with its store section `name` edited, where it has one; a missing
/// section stays missing.
pub open spec fn with_store_edit(config: JsonModel, name: Seq<char>, directory: Seq<char>, insecure: bool) -> JsonModel {
    if json_has_field(config, name) {
        json_with_field(config, name, edited_store(json_field(config, name), directory, insecure))
    } else {
        config
    }
}

/// The store section `name` of `config`, if there is one, can have its fields set.
pub open spec fn store_editable(config: JsonModel, name: Seq<char>) -> bool {
    json_has_field(config, name) ==> json_indexable(json_field(config, name))
}

/// The default configuration can be edited: it is an object (or null), and
/// so is each store section it has.
pub open spec fn config_editable(config: JsonModel) -> bool {
    &&& json_indexable(config)
    &&& store_editable(config, "table_store"@)
    &&& store_editable(config, "block_store"@)
    &&& store_editable(config, "protected_store"@)
}

/// The default configuration `config` with this program's settings: its
/// program name and an empty namespace, and each store section present
/// pointed at its directory under `data_dir`, the protected store also
/// allowed and told to use insecure storage. Every other field is kept and no
/// section is added.
pub open spec fn with_edits(config: JsonModel, data_dir: Seq<char>) -> JsonModel {
    let named = json_with_field(
        json_with_field(config, "program_name"@, JsonModel::Str("voidpost"@)),
        "namespace"@,
        JsonModel::Str(Seq::<char>::empty()),
    );
    with_store_edit(
        with_store_edit(
            with_store_edit(named, "table_store"@, subdirectory(data_dir, "table_store"@), false),
            "block_store"@,
            subdirectory(data_dir, "block_store"@),
            false,
        ),
        "protected_store"@,
        subdirectory(data_dir, "protected_store"@),
        true,
    )
}

/// Edits the store section `name` of `config` in place, where there is one.
fn edit_store(config: &mut serde_json::Value, name: &str, directory: String, insecure: bool)
    requires
        json_indexable(json_model(*old(config))),
        store_editable(json_model(*old(config)), name@),
    ensures
        json_model(*final(config)) == with_store_edit(json_model(*old(config)), name@, directory@, insecure),
{
    match json_get(config, name) {
        None => {},
        Some(mut section) => {
            json_set_field(&mut section, "directory", json_string(directory));
            if insecure {
                json_set_field(&mut section, "allow_insecure_fallback", json_bool(true));
                json_set_field(&mut section, "always_use_insecure_storage", json_bool(true));
            }
            json_set_field(config, name, section);
        },
    }
}

/// Whether the store section `name` of `config`, if present, can be edited.
fn check_store(config: &serde_json::Value, name: &str) -> (res: bool)
    ensures
        res == store_editable(json_model(*config), name@),
{
    match json_get(config, name) {
        None => true,
        Some(section) => json_is_null(&section) || json_is_object(&section),
    }
}

/// Takes the node's default configuration text and returns it with this
/// program's settings (see `with_edits`), printed as JSON.
pub fn build_config(default_json: &str, data_dir: &str) -> (res: Result<String, ConfigError>)
    ensures
        json_parse(default_json@) is None ==> res == Err::<String, ConfigError>(ConfigError::InvalidJson),
        json_parse(default_json@) matches Some(d) ==> (!config_editable(d) ==> res == Err::<String, ConfigError>(
            ConfigError::NotAnObject,
        )),
        json_parse(default_json@) matches Some(d) ==> (config_editable(d) ==> (res matches Ok(s) ==> s@
            == json_text(with_edits(d, data_dir@)))),
        json_parse(default_json@) matches Some(d) ==> (config_editable(d) ==> (res is Err ==> res == Err::<
            String,
            ConfigError,
        >(ConfigError::SerializeFailed))),
{
    let mut config = match json_from_str(default_json) {
        Ok(v) => v,
        Err(_) => return Err(ConfigError::InvalidJson),
    };
    if !(json_is_null(&config) || json_is_object(&config)) {
        return Err(ConfigError::NotAnObject);
    }
    if !check_store(&config, "table_store") || !check_store(&config, "block_store") || !check_store(
        &config,
        "protected_store",
    ) {
        return Err(ConfigError::NotAnObject);
    }
    let ghost d = json_model(config);
    proof {
        reveal_strlit("program_name");
        reveal_strlit("namespace");
        reveal_strlit("table_store");
        reveal_strlit("block_store");
        reveal_strlit("protected_store");
    }
    let edits = node_config_edits(data_dir);
    json_set_field(&mut config, "program_name", json_string(edits.program_name));
    json_set_field(&mut config, "namespace", json_string(edits.namespace));
    edit_store(&mut config, "table_store", edits.table_store_directory, false);
    edit_store(&mut config, "block_store", edits.block_store_directory, false);
    edit_store(&mut config, "protected_store", edits.protected_store_directory, true);
    match json_to_string(&config) {
        Ok(s) => Ok(s),
        Err(_) => Err(ConfigError::SerializeFailed),
    }
}

/// Editing a store section sets its directory (and, for insecure storage, the
/// two flags) and keeps every other field of the section as it was.
pub proof fn lemma_store_edit_keeps_fields(section: JsonModel, directory: Seq<char>, insecure: bool, k: Seq<char>)
    requires
        json_indexable(section),
    ensures
        edited_store(section, directory, insecure) is Object,
        json_has_field(edited_store(section, directory, insecure), k) <==> (json_has_field(section, k)
            || k == "directory"@ || (insecure && (k == "allow_insecure_fallback"@ || k
            == "always_use_insecure_storage"@))),
        json_has_field(section, k) && k != "directory"@ && k != "allow_insecure_fallback"@ && k
            != "always_use_insecure_storage"@ ==> json_field(edited_store(section, directory, insecure), k)
            == json_field(section, k),
{
}

/// Building the configuration adds no field but the program name and the
/// namespace, keeps every store section it had and adds none, and leaves
/// every other field of the default configuration as it was.
pub proof fn lemma_edits_keep_other_fields(d: JsonModel, data_dir: Seq<char>, k: Seq<char>)
    requires
        config_editable(d),
    ensures
        with_edits(d, data_dir) is Object,
        json_has_field(with_edits(d, data_dir), k) <==> (json_has_field(d, k) || k == "program_name"@ || k
            == "namespace"@),
        json_has_field(d, k) && k != "program_name"@ && k != "namespace"@ && k != "table_store"@ && k
            != "block_store"@ && k != "protected_store"@ ==> json_field(with_edits(d, data_dir), k)
            == json_field(d, k),
{
    reveal_strlit("program_name");
    reveal_strlit("namespace");
    reveal_strlit("table_store");
    reveal_strlit("block_store");
    reveal_strlit("protected_store");
}

/// Where the node keeps its state when none is given: `$XDG_DATA_HOME/voidpost`,
/// else `$HOME/.local/share/voidpost`, else `.voidpost` in the current directory.
pub open spec fn spec_default_data_dir(xdg_data_home: Option<Seq<char>>, home: Option<Seq<char>>) -> Seq<char> {
    match xdg_data_home {
        Some(xdg) => xdg + "/voidpost"@,
        None => match home {
            Some(h) => h + "/.local/share/voidpost"@,
            None => ".voidpost"@,
        },
    }
}

/// Picks the default data directory from the values of `XDG_DATA_HOME` and
/// `HOME` (`None` when a variable is unset or not Unicode).
pub fn default_data_dir(xdg_data_home: Option<&str>, home: Option<&str>) -> (res: String)
    ensures
        res@ == spec_default_data_dir(
            match xdg_data_home {
                Some(x) => Some(x@),
                None => None,
            },
            match home {
                Some(h) => Some(h@),
                None => None,
            },
        ),
{
    match xdg_data_home {
        Some(xdg) => {
            let mut res = xdg.to_owned();
            res.append("/voidpost");
            res
        },
        None => match home {
            Some(h) => {
                let mut res = h.to_owned();
                res.append("/.local/share/voidpost");
                res
            },
            None => ".voidpost".to_owned(),
        },
    }
}

} // verus!
