//! The central configuration document: the typed view that is read from it,
//! and the sparse updates that are written into it.
//!
//! The document stays a loosely typed tree, so that what this library does
//! not know about is written back as it was read. Reading never fails: a
//! missing section is an empty one, and a field of the wrong kind is an
//! absent one.

use crate::codec::{error_text, parsed_json, pretty_text, read_json, write_json};
use crate::json::{
    child, get_in, items_model, keys_in, opt_model, sorted_keys, Json, JsonModel, NumberModel,
};
use crate::order::{lists, texts};
use crate::paths::{keys_of, node_at, set_below, set_path};
use crate::text::opt_text;
use vstd::prelude::*;

verus! {

/// The name of the central configuration file.
pub const OPENCLAW_CONFIG_FILENAME: &'static str = "openclaw.json";

/// The limits on sub-agents.
#[derive(Clone, Debug)]
pub struct SubagentsView {
    pub max_concurrent: Option<u32>,
    pub max_spawn_depth: Option<u32>,
    pub max_children_per_agent: Option<u32>,
}

/// What the user interface needs of the central configuration.
#[derive(Clone, Debug)]
pub struct OpenClawConfigView {
    /// The keys of `models.providers`, in order.
    pub provider_names: Vec<String>,
    /// `agents.defaults.model.primary`
    pub primary_model: Option<String>,
    /// The strings of `agents.defaults.model.fallbacks`, in their order.
    pub fallbacks: Vec<String>,
    /// The keys of `agents.defaults.models`, in order.
    pub models: Vec<String>,
    /// `agents.defaults.maxConcurrent`
    pub max_concurrent: Option<u32>,
    /// `agents.defaults.subagents`
    pub subagents: SubagentsView,
}

/// A sparse update of the central configuration: a field that is `None` is
/// left as the document has it.
#[derive(Clone, Debug)]
pub struct OpenClawConfigUpdates {
    pub primary_model: Option<String>,
    pub fallbacks: Option<Vec<String>>,
    pub max_concurrent: Option<u32>,
    pub subagents_max_concurrent: Option<u32>,
    pub subagents_max_spawn_depth: Option<u32>,
    pub subagents_max_children_per_agent: Option<u32>,
}

/// Why the central configuration could not be updated.
#[derive(Debug)]
pub enum UpdateError {
    /// The existing text is not JSON; the parser's message.
    Parse(String),
    /// The existing text is JSON, but not an object.
    NotAnObject,
    /// The updated document could not be written as text; the serialiser's
    /// message. No document gives this error: it is there for what the
    /// serialiser's signature allows.
    Write(String),
}

/// Where the providers are: `models.providers`.
pub open spec fn providers_path() -> Seq<Seq<char>> {
    seq!["models"@, "providers"@]
}

/// Where the defaults of agents are: `agents.defaults`.
pub open spec fn defaults_path() -> Seq<Seq<char>> {
    seq!["agents"@, "defaults"@]
}

/// Where the model choice is: `agents.defaults.model`.
pub open spec fn model_path() -> Seq<Seq<char>> {
    seq!["agents"@, "defaults"@, "model"@]
}

/// Where the primary model is: `agents.defaults.model.primary`.
pub open spec fn primary_path() -> Seq<Seq<char>> {
    seq!["agents"@, "defaults"@, "model"@, "primary"@]
}

/// Where the fallback models are: `agents.defaults.model.fallbacks`.
pub open spec fn fallbacks_path() -> Seq<Seq<char>> {
    seq!["agents"@, "defaults"@, "model"@, "fallbacks"@]
}

/// Where the known models are: `agents.defaults.models`.
pub open spec fn models_path() -> Seq<Seq<char>> {
    seq!["agents"@, "defaults"@, "models"@]
}

/// Where the limit on concurrent agents is: `agents.defaults.maxConcurrent`.
pub open spec fn max_concurrent_path() -> Seq<Seq<char>> {
    seq!["agents"@, "defaults"@, "maxConcurrent"@]
}

/// Where the limits on sub-agents are: `agents.defaults.subagents`.
pub open spec fn subagents_path() -> Seq<Seq<char>> {
    seq!["agents"@, "defaults"@, "subagents"@]
}

/// Where the limit on concurrent sub-agents is.
pub open spec fn subagents_max_concurrent_path() -> Seq<Seq<char>> {
    seq!["agents"@, "defaults"@, "subagents"@, "maxConcurrent"@]
}

/// Where the limit on the depth of spawning is.
pub open spec fn subagents_max_spawn_depth_path() -> Seq<Seq<char>> {
    seq!["agents"@, "defaults"@, "subagents"@, "maxSpawnDepth"@]
}

/// Where the limit on the children of one agent is.
pub open spec fn subagents_max_children_path() -> Seq<Seq<char>> {
    seq!["agents"@, "defaults"@, "subagents"@, "maxChildrenPerAgent"@]
}

/// The text of a node, where there is one and it is a string.
pub open spec fn text_of(node: Option<JsonModel>) -> Option<Seq<char>> {
    match node {
        Some(n) => n.as_text(),
        None => None,
    }
}

/// The limit that a node holds: a non-negative integer, of which the low 32
/// bits are kept.
pub open spec fn limit_of(node: Option<JsonModel>) -> Option<u32> {
    match node {
        Some(n) => match n.as_u64() {
            Some(v) => Some((v % 0x1_0000_0000) as u32),
            None => None,
        },
        None => None,
    }
}

/// The limit that a node holds, or `fallback` where it holds none.
pub open spec fn limit_or(node: Option<JsonModel>, fallback: u32) -> Option<u32> {
    match limit_of(node) {
        Some(v) => Some(v),
        None => Some(fallback),
    }
}

/// The strings among `items`, in their order.
pub open spec fn strings_in(items: Seq<JsonModel>) -> Seq<Seq<char>>
    decreases items.len(),
{
    if items.len() == 0 {
        Seq::empty()
    } else {
        match items.last() {
            JsonModel::Str(s) => strings_in(items.drop_last()).push(s),
            _ => strings_in(items.drop_last()),
        }
    }
}

/// The strings of the array that a node is; none where there is no node or
/// it is not an array.
pub open spec fn strings_of(node: Option<JsonModel>) -> Seq<Seq<char>> {
    match node {
        Some(JsonModel::Array(items)) => strings_in(items),
        _ => Seq::empty(),
    }
}

/// The sub-agent limits that apply where the document sets none.
pub open spec fn default_subagents() -> SubagentsView {
    SubagentsView {
        max_concurrent: Some(8u32),
        max_spawn_depth: Some(1u32),
        max_children_per_agent: Some(5u32),
    }
}

/// The sub-agent limits that a `subagents` section sets: each is read on its
/// own, and each falls back to its default where the section or the field is
/// missing or the field is not a non-negative integer.
pub open spec fn subagents_in(section: Option<JsonModel>) -> SubagentsView {
    SubagentsView {
        max_concurrent: limit_or(get_in(section, "maxConcurrent"@), 8),
        max_spawn_depth: limit_or(get_in(section, "maxSpawnDepth"@), 1),
        max_children_per_agent: limit_or(get_in(section, "maxChildrenPerAgent"@), 5),
    }
}

/// The sub-agent limits of a document.
pub open spec fn subagents_of(doc: JsonModel) -> SubagentsView {
    subagents_in(doc.at(subagents_path()))
}

/// Whether `view` is the view of the document `doc`.
pub open spec fn describes(view: OpenClawConfigView, doc: JsonModel) -> bool {
    &&& lists(texts(view.provider_names@), keys_in(doc.at(providers_path())))
    &&& opt_text(view.primary_model) == text_of(doc.at(primary_path()))
    &&& texts(view.fallbacks@) == strings_of(doc.at(fallbacks_path()))
    &&& lists(texts(view.models@), keys_in(doc.at(models_path())))
    &&& view.max_concurrent == limit_of(doc.at(max_concurrent_path()))
    &&& view.subagents == subagents_of(doc)
}

/// Whether `view` is the view that stands for a configuration that cannot be
/// read.
pub open spec fn is_default_view(view: OpenClawConfigView) -> bool {
    &&& view.provider_names@.len() == 0
    &&& view.primary_model is None
    &&& view.fallbacks@.len() == 0
    &&& view.models@.len() == 0
    &&& view.max_concurrent is None
    &&& view.subagents == default_subagents()
}

/// What reading the configuration from `content` has to return.
pub open spec fn reads_as(content: Seq<char>, r: Result<OpenClawConfigView, ()>) -> bool {
    match parsed_json(content) {
        Some(doc) => if doc is Object {
            r matches Ok(view) && describes(view, doc)
        } else {
            r is Err
        },
        None => r is Err,
    }
}

impl Default for SubagentsView {
    fn default() -> (r: Self)
        ensures
            r == default_subagents(),
    {
        SubagentsView {
            max_concurrent: Some(8),
            max_spawn_depth: Some(1),
            max_children_per_agent: Some(5),
        }
    }
}

/// The path of the central configuration file, as components below the
/// user's home directory.
pub fn openclaw_config_path() -> (r: Vec<String>)
    ensures
        texts(r@) == seq![".openclaw"@, OPENCLAW_CONFIG_FILENAME@],
{
    let mut out: Vec<String> = Vec::new();
    out.push(".openclaw".to_owned());
    out.push(OPENCLAW_CONFIG_FILENAME.to_owned());
    assert(texts(out@) =~= seq![".openclaw"@, OPENCLAW_CONFIG_FILENAME@]);
    out
}

/// The view of a configuration that cannot be read.
pub fn default_view() -> (r: OpenClawConfigView)
    ensures
        is_default_view(r),
{
    OpenClawConfigView {
        provider_names: Vec::new(),
        primary_model: None,
        fallbacks: Vec::new(),
        models: Vec::new(),
        max_concurrent: None,
        subagents: SubagentsView::default(),
    }
}

/// The limit that `node` holds.
pub fn limit(node: Option<&Json>) -> (r: Option<u32>)
    ensures
        r == limit_of(opt_model(node)),
{
    match node {
        Some(n) => match n.as_u64() {
            Some(v) => Some((v % 0x1_0000_0000) as u32),
            None => None,
        },
        None => None,
    }
}

/// The limit that `node` holds, or `fallback`.
pub fn limit_with_default(node: Option<&Json>, fallback: u32) -> (r: Option<u32>)
    ensures
        r == limit_or(opt_model(node), fallback),
{
    match limit(node) {
        Some(v) => Some(v),
        None => Some(fallback),
    }
}

/// The text of `node`, where it is a string.
pub fn text(node: Option<&Json>) -> (r: Option<String>)
    ensures
        opt_text(r) == text_of(opt_model(node)),
{
    match node {
        Some(n) => match n.as_str() {
            Some(s) => Some(s.to_owned()),
            None => None,
        },
        None => None,
    }
}

/// The strings of the array that `node` is.
pub fn strings(node: Option<&Json>) -> (r: Vec<String>)
    ensures
        texts(r@) == strings_of(opt_model(node)),
{
    let mut out: Vec<String> = Vec::new();
    match node {
        Some(Json::Array(items)) => {
            let ghost all = items_model(items@);
            let mut i: usize = 0;
            assert(all.take(0) =~= Seq::<JsonModel>::empty());
            assert(texts(out@) =~= strings_in(all.take(0)));
            while i < items.len()
                invariant
                    i <= items.len(),
                    all == items_model(items@),
                    texts(out@) == strings_in(all.take(i as int)),
                decreases items.len() - i,
            {
                let ghost prior = texts(out@);
                proof {
                    assert(all.take(i + 1).drop_last() =~= all.take(i as int));
                    assert(all.take(i + 1).last() == items[i as int]@);
                }
                match &items[i] {
                    Json::Str(s) => {
                        out.push(s.clone());
                        assert(texts(out@) =~= prior.push(s@));
                    },
                    _ => {},
                }
                i += 1;
            }
            assert(all.take(items.len() as int) =~= all);
        },
        _ => {
            assert(texts(out@) =~= Seq::<Seq<char>>::empty());
        },
    }
    out
}

/// The sub-agent limits that the `subagents` section `section` sets, `None`
/// standing for a document without the section.
pub fn parse_subagents_view(section: Option<&Json>) -> (r: SubagentsView)
    ensures
        r == subagents_in(opt_model(section)),
{
    SubagentsView {
        max_concurrent: limit_with_default(child(section, "maxConcurrent"), 8),
        max_spawn_depth: limit_with_default(child(section, "maxSpawnDepth"), 1),
        max_children_per_agent: limit_with_default(child(section, "maxChildrenPerAgent"), 5),
    }
}

/// The view of the document `doc`; `None` where it is not an object.
pub fn view_of_document(doc: &Json) -> (r: Option<OpenClawConfigView>)
    ensures
        match r {
            Some(view) => doc@ is Object && describes(view, doc@),
            None => !(doc@ is Object),
        },
{
    if !doc.is_object() {
        return None;
    }
    let providers = ["models", "providers"];
    let primary = ["agents", "defaults", "model", "primary"];
    let fallbacks = ["agents", "defaults", "model", "fallbacks"];
    let models = ["agents", "defaults", "models"];
    let concurrent = ["agents", "defaults", "maxConcurrent"];
    let subagents = ["agents", "defaults", "subagents"];
    assert(keys_of(subagents@) =~= subagents_path());
    assert(keys_of(providers@) =~= providers_path());
    assert(keys_of(primary@) =~= primary_path());
    assert(keys_of(fallbacks@) =~= fallbacks_path());
    assert(keys_of(models@) =~= models_path());
    assert(keys_of(concurrent@) =~= max_concurrent_path());
    Some(
        OpenClawConfigView {
            provider_names: sorted_keys(node_at(doc, &providers)),
            primary_model: text(node_at(doc, &primary)),
            fallbacks: strings(node_at(doc, &fallbacks)),
            models: sorted_keys(node_at(doc, &models)),
            max_concurrent: limit(node_at(doc, &concurrent)),
            subagents: parse_subagents_view(node_at(doc, &subagents)),
        },
    )
}

/// Reads the view from the text of the configuration file. Text that is not
/// JSON, or is no JSON object, is an error.
pub fn parse_config_view(content: &str) -> (r: Result<OpenClawConfigView, ()>)
    ensures
        reads_as(content@, r),
{
    match read_json(content) {
        Ok(doc) => match view_of_document(&doc) {
            Some(view) => Ok(view),
            None => Err(()),
        },
        Err(_) => Err(()),
    }
}

/// What the view of a configuration has to be, given the text of its file, or
/// `None` where the file could not be read.
pub open spec fn shows(content: Option<Seq<char>>, view: OpenClawConfigView) -> bool {
    match content {
        Some(text) => match parsed_json(text) {
            Some(doc) => if doc is Object {
                describes(view, doc)
            } else {
                is_default_view(view)
            },
            None => is_default_view(view),
        },
        None => is_default_view(view),
    }
}

/// The view of the configuration, given the text of its file, or `None`
/// where the file could not be read. Never fails: what cannot be read gives
/// the default view.
pub fn get_openclaw_config(content: Option<&str>) -> (r: OpenClawConfigView)
    ensures
        shows(
            match content {
                Some(text) => Some(text@),
                None => None,
            },
            r,
        ),
{
    match content {
        Some(text) => match parse_config_view(text) {
            Ok(view) => view,
            Err(_) => default_view(),
        },
        None => default_view(),
    }
}

/// The `models.providers` section of a document, or an empty object where
/// the document has none.
pub open spec fn providers_of(doc: JsonModel) -> JsonModel {
    match doc.at(providers_path()) {
        Some(section) => section,
        None => JsonModel::empty_object(),
    }
}

/// The `models.providers` section of the document `doc`, as a copy.
pub fn providers_section(doc: &Json) -> (r: Json)
    ensures
        r@ == providers_of(doc@),
{
    let providers = ["models", "providers"];
    assert(keys_of(providers@) =~= providers_path());
    match node_at(doc, &providers) {
        Some(section) => section.duplicate(),
        None => Json::empty_object(),
    }
}

/// The `models.providers` section of the configuration, read from the text
/// of its file. Text that is not JSON is an error; a document without the
/// section has an empty one.
pub fn get_openclaw_providers_raw(content: &str) -> (r: Result<Json, UpdateError>)
    ensures
        match parsed_json(content@) {
            Some(doc) => r matches Ok(section) && section@ == providers_of(doc),
            None => r matches Err(UpdateError::Parse(_)),
        },
{
    match read_json(content) {
        Ok(doc) => Ok(providers_section(&doc)),
        Err(e) => Err(UpdateError::Parse(error_text(&e))),
    }
}

/// A number node for a limit.
pub open spec fn number(n: u32) -> JsonModel {
    JsonModel::Number(NumberModel::Unsigned(n as u64))
}

/// An array node of strings.
pub open spec fn text_list(names: Seq<Seq<char>>) -> JsonModel {
    JsonModel::Array(Seq::new(names.len(), |i: int| JsonModel::Str(names[i])))
}

/// What `agents.defaults` is created as: an object with an empty `model`.
pub open spec fn fresh_defaults() -> JsonModel {
    JsonModel::empty_object().with("model"@, JsonModel::empty_object())
}

/// What `agents.defaults.subagents` is created as: the default limits.
pub open spec fn fresh_subagents() -> JsonModel {
    JsonModel::empty_object().with("maxConcurrent"@, number(8)).with(
        "maxSpawnDepth"@,
        number(1),
    ).with("maxChildrenPerAgent"@, number(5))
}

/// The document a configuration starts from where no file exists.
pub open spec fn seed_document() -> JsonModel {
    JsonModel::empty_object().with(
        "agents"@,
        JsonModel::empty_object().with("defaults"@, fresh_defaults()),
    ).with(
        "models"@,
        JsonModel::empty_object().with("providers"@, JsonModel::empty_object()),
    )
}

/// `doc` with `agents.defaults` and `agents.defaults.model` in place: what
/// is missing is created, what is there stays.
pub open spec fn with_agents_defaults(doc: JsonModel) -> JsonModel {
    if doc.at(defaults_path()) is None {
        set_path(doc, defaults_path(), fresh_defaults())
    } else if doc.at(model_path()) is None {
        set_path(doc, model_path(), JsonModel::empty_object())
    } else {
        doc
    }
}

/// `doc` with `agents.defaults.subagents` in place: created with the default
/// limits where it is missing.
pub open spec fn with_subagents(doc: JsonModel) -> JsonModel {
    if doc.at(subagents_path()) is None {
        set_path(doc, subagents_path(), fresh_subagents())
    } else {
        doc
    }
}

/// `doc` with the value at `path` set, where there is a value to set.
pub open spec fn set_if(doc: JsonModel, path: Seq<Seq<char>>, value: Option<JsonModel>)
    -> JsonModel {
    match value {
        Some(v) => set_path(doc, path, v),
        None => doc,
    }
}

/// The node that a limit of an update is written as.
pub open spec fn limit_node(limit: Option<u32>) -> Option<JsonModel> {
    match limit {
        Some(n) => Some(number(n)),
        None => None,
    }
}

/// The node that the primary model of an update is written as.
pub open spec fn primary_node(updates: OpenClawConfigUpdates) -> Option<JsonModel> {
    match updates.primary_model {
        Some(name) => Some(JsonModel::Str(name@)),
        None => None,
    }
}

/// The node that the fallbacks of an update are written as.
pub open spec fn fallbacks_node(updates: OpenClawConfigUpdates) -> Option<JsonModel> {
    match updates.fallbacks {
        Some(names) => Some(text_list(texts(names@))),
        None => None,
    }
}

/// The document that `updates` turn `doc` into: the scaffold is put in
/// place, and each field that the update names is set at its path.
pub open spec fn updated(doc: JsonModel, updates: OpenClawConfigUpdates) -> JsonModel {
    let d0 = with_subagents(with_agents_defaults(doc));
    let d1 = set_if(d0, primary_path(), primary_node(updates));
    let d2 = set_if(d1, fallbacks_path(), fallbacks_node(updates));
    let d3 = set_if(d2, max_concurrent_path(), limit_node(updates.max_concurrent));
    let d4 = set_if(
        d3,
        subagents_max_concurrent_path(),
        limit_node(updates.subagents_max_concurrent),
    );
    let d5 = set_if(
        d4,
        subagents_max_spawn_depth_path(),
        limit_node(updates.subagents_max_spawn_depth),
    );
    set_if(d5, subagents_max_children_path(), limit_node(updates.subagents_max_children_per_agent))
}

/// What updating a document, or seeding one where there is none, has to
/// return.
pub open spec fn updates_to(
    existing: Option<JsonModel>,
    updates: OpenClawConfigUpdates,
    r: Result<Json, UpdateError>,
) -> bool {
    match existing {
        Some(doc) => if doc is Object {
            r matches Ok(out) && out@ == updated(doc, updates)
        } else {
            r matches Err(UpdateError::NotAnObject)
        },
        None => r matches Ok(out) && out@ == updated(seed_document(), updates),
    }
}

/// What updating the configuration file has to return, given the text of the
/// existing file, or `None` where there is no file. The updated document is
/// written as the serialiser has it.
pub open spec fn writes_update(
    existing: Option<Seq<char>>,
    updates: OpenClawConfigUpdates,
    r: Result<String, UpdateError>,
) -> bool {
    match existing {
        Some(text) => match parsed_json(text) {
            Some(doc) => if doc is Object {
                written_as(updated(doc, updates), r)
            } else {
                r matches Err(UpdateError::NotAnObject)
            },
            None => r matches Err(UpdateError::Parse(_)),
        },
        None => written_as(updated(seed_document(), updates), r),
    }
}

/// Whether `r` is what writing `doc` has to return: the text that the
/// serialiser writes for it.
pub open spec fn written_as(doc: JsonModel, r: Result<String, UpdateError>) -> bool {
    r matches Ok(text) && text@ == pretty_text(doc)
}

/// Sets the value at the end of `path` in `root`, creating the objects on
/// the way and leaving everything beside the path as it is.
pub fn set_nested(root: &mut Json, path: &[&str], value: Json)
    ensures
        final(root)@ == set_path(old(root)@, keys_of(path@), value@),
{
    assert(keys_of(path@).subrange(0, path.len() as int) =~= keys_of(path@));
    set_below(root, path, 0, value);
}

/// Puts `agents.defaults` and `agents.defaults.model` in place.
pub fn ensure_agents_defaults(root: &mut Json)
    ensures
        final(root)@ == with_agents_defaults(old(root)@),
{
    let defaults = ["agents", "defaults"];
    let model = ["agents", "defaults", "model"];
    assert(keys_of(defaults@) =~= defaults_path());
    assert(keys_of(model@) =~= model_path());
    if node_at(root, &defaults).is_none() {
        let mut fresh = Json::empty_object();
        fresh.insert("model", Json::empty_object());
        set_nested(root, &defaults, fresh);
    } else if node_at(root, &model).is_none() {
        set_nested(root, &model, Json::empty_object());
    }
}

/// Puts `agents.defaults.subagents` in place.
pub fn ensure_subagents(root: &mut Json)
    ensures
        final(root)@ == with_subagents(old(root)@),
{
    let subagents = ["agents", "defaults", "subagents"];
    assert(keys_of(subagents@) =~= subagents_path());
    if node_at(root, &subagents).is_none() {
        let mut fresh = Json::empty_object();
        fresh.insert("maxConcurrent", Json::unsigned(8));
        fresh.insert("maxSpawnDepth", Json::unsigned(1));
        fresh.insert("maxChildrenPerAgent", Json::unsigned(5));
        set_nested(root, &subagents, fresh);
    }
}

/// An array node holding `names` as strings.
pub fn text_array(names: &Vec<String>) -> (r: Json)
    ensures
        r@ == text_list(texts(names@)),
{
    let mut items: Vec<Json> = Vec::new();
    let mut i: usize = 0;
    while i < names.len()
        invariant
            i <= names.len(),
            items.len() == i,
            forall|j: int| 0 <= j < i ==> (#[trigger] items[j])@ == JsonModel::Str(names[j]@),
        decreases names.len() - i,
    {
        items.push(Json::Str(names[i].clone()));
        i += 1;
    }
    assert(items_model(items@) =~= Seq::new(
        texts(names@).len(),
        |i: int| JsonModel::Str(texts(names@)[i]),
    ));
    Json::Array(items)
}

/// Sets a limit at `path` where the update names one.
pub fn set_limit(root: &mut Json, path: &[&str], limit: Option<u32>)
    ensures
        final(root)@ == set_if(old(root)@, keys_of(path@), limit_node(limit)),
{
    match limit {
        Some(n) => {
            set_nested(root, path, Json::unsigned(n as u64));
        },
        None => {},
    }
}

/// Applies `updates` to the document `root`, in place.
pub fn apply_updates(root: &mut Json, updates: &OpenClawConfigUpdates)
    ensures
        final(root)@ == updated(old(root)@, *updates),
{
    let primary = ["agents", "defaults", "model", "primary"];
    let fallbacks = ["agents", "defaults", "model", "fallbacks"];
    let concurrent = ["agents", "defaults", "maxConcurrent"];
    let sub_concurrent = ["agents", "defaults", "subagents", "maxConcurrent"];
    let sub_depth = ["agents", "defaults", "subagents", "maxSpawnDepth"];
    let sub_children = ["agents", "defaults", "subagents", "maxChildrenPerAgent"];
    assert(keys_of(primary@) =~= primary_path());
    assert(keys_of(fallbacks@) =~= fallbacks_path());
    assert(keys_of(concurrent@) =~= max_concurrent_path());
    assert(keys_of(sub_concurrent@) =~= subagents_max_concurrent_path());
    assert(keys_of(sub_depth@) =~= subagents_max_spawn_depth_path());
    assert(keys_of(sub_children@) =~= subagents_max_children_path());
    ensure_agents_defaults(root);
    ensure_subagents(root);
    match &updates.primary_model {
        Some(name) => {
            set_nested(root, &primary, Json::text(name.as_str()));
        },
        None => {},
    }
    match &updates.fallbacks {
        Some(names) => {
            set_nested(root, &fallbacks, text_array(names));
        },
        None => {},
    }
    set_limit(root, &concurrent, updates.max_concurrent);
    set_limit(root, &sub_concurrent, updates.subagents_max_concurrent);
    set_limit(root, &sub_depth, updates.subagents_max_spawn_depth);
    set_limit(root, &sub_children, updates.subagents_max_children_per_agent);
}

/// The document a configuration starts from where no file exists.
pub fn seed() -> (r: Json)
    ensures
        r@ == seed_document(),
{
    let mut defaults = Json::empty_object();
    defaults.insert("model", Json::empty_object());
    let mut agents = Json::empty_object();
    agents.insert("defaults", defaults);
    let mut models = Json::empty_object();
    models.insert("providers", Json::empty_object());
    let mut root = Json::empty_object();
    root.insert("agents", agents);
    root.insert("models", models);
    root
}

/// The updated document, given the existing one, or `None` where there is
/// none yet. A document that is not an object is refused.
pub fn updated_document(existing: Option<Json>, updates: &OpenClawConfigUpdates) -> (r: Result<
    Json,
    UpdateError,
>)
    ensures
        updates_to(
            match existing {
                Some(doc) => Some(doc@),
                None => None,
            },
            *updates,
            r,
        ),
{
    let mut root = match existing {
        Some(doc) => doc,
        None => seed(),
    };
    if !root.is_object() {
        return Err(UpdateError::NotAnObject);
    }
    apply_updates(&mut root, updates);
    Ok(root)
}

/// The text of `doc`.
pub fn written(doc: &Json) -> (r: Result<String, UpdateError>)
    ensures
        written_as(doc@, r),
{
    match write_json(doc) {
        Ok(text) => Ok(text),
        Err(e) => Err(UpdateError::Write(error_text(&e))),
    }
}

/// Updates the configuration: reads the existing text, or seeds a document
/// where `existing` is `None`, applies `updates` and returns the text to
/// write.
pub fn update_openclaw_config(existing: Option<&str>, updates: OpenClawConfigUpdates) -> (r:
    Result<String, UpdateError>)
    ensures
        writes_update(
            match existing {
                Some(text) => Some(text@),
                None => None,
            },
            updates,
            r,
        ),
{
    let loaded = match existing {
        Some(text) => match read_json(text) {
            Ok(doc) => Some(doc),
            Err(e) => {
                return Err(UpdateError::Parse(error_text(&e)));
            },
        },
        None => None,
    };
    match updated_document(loaded, &updates) {
        Ok(doc) => written(&doc),
        Err(e) => Err(e),
    }
}

impl UpdateError {
    /// The error as a message for the user.
    pub fn message(&self) -> (r: String)
        ensures
            match self {
                UpdateError::Parse(m) => r@ == m@,
                UpdateError::NotAnObject => r@ == "openclaw.json root not an object"@,
                UpdateError::Write(m) => r@ == m@,
            },
    {
        match self {
            UpdateError::Parse(m) => m.clone(),
            UpdateError::NotAnObject => "openclaw.json root not an object".to_owned(),
            UpdateError::Write(m) => m.clone(),
        }
    }
}

} // verus!
