//! Agents and their model documents: which agents are known, what an agent's
//! document shows, how its providers compare with the central ones, and the
//! merge that brings the central providers into it.

use crate::codec::{error_text, parsed_json, pretty_text, read_json, write_json};
use crate::json::{entries_model, keys_in, opt_model, sorted_keys, Json, JsonModel};
use crate::openclaw_config::{
    providers_of, providers_path, providers_section, text, text_of, view_of_document,
};
use crate::order::{insert_sorted, lists, names_without, sorted, texts};
use crate::text::opt_text;
use vstd::prelude::*;

verus! {

/// The directory below the configuration root that holds one directory per
/// agent.
pub const AGENTS_DIR_NAME: &'static str = "agents";

/// The directory below an agent's directory that holds its documents.
pub const AGENT_SUBDIR: &'static str = "agent";

/// The name of an agent's model document.
pub const MODELS_JSON: &'static str = "models.json";

/// What a directory listing says of one entry of the agents directory.
#[derive(Debug)]
pub struct AgentDirEntry {
    /// The entry's name.
    pub name: String,
    /// Whether the entry is a directory.
    pub is_dir: bool,
    /// Whether the model document exists below it.
    pub has_models_file: bool,
}

/// The configuration root, as path components below the user's home
/// directory.
pub fn openclaw_root() -> (r: Vec<String>)
    ensures
        texts(r@) == seq![".openclaw"@],
{
    let mut out: Vec<String> = Vec::new();
    out.push(".openclaw".to_owned());
    assert(texts(out@) =~= seq![".openclaw"@]);
    out
}

/// The agents directory, as path components below the user's home
/// directory.
pub fn agents_dir() -> (r: Vec<String>)
    ensures
        texts(r@) == seq![".openclaw"@, AGENTS_DIR_NAME@],
{
    let mut out = openclaw_root();
    let ghost root = out@;
    out.push(AGENTS_DIR_NAME.to_owned());
    assert(texts(out@) =~= texts(root).push(AGENTS_DIR_NAME@));
    out
}

/// The model document of the agent `agent_name`, as path components below
/// the user's home directory.
pub fn agent_models_path(agent_name: &str) -> (r: Vec<String>)
    ensures
        texts(r@) == seq![
            ".openclaw"@,
            AGENTS_DIR_NAME@,
            agent_name@,
            AGENT_SUBDIR@,
            MODELS_JSON@,
        ],
{
    let mut out = agents_dir();
    let ghost dir = out@;
    out.push(agent_name.to_owned());
    out.push(AGENT_SUBDIR.to_owned());
    out.push(MODELS_JSON.to_owned());
    assert(texts(out@) =~= texts(dir).push(agent_name@).push(AGENT_SUBDIR@).push(MODELS_JSON@));
    out
}

/// Whether an entry of the agents directory is a known agent: a directory
/// whose model document exists.
pub open spec fn is_known(entry: AgentDirEntry) -> bool {
    entry.is_dir && entry.has_models_file
}

/// The names of the known agents among `entries`, in the order of the
/// listing.
pub open spec fn known_names(entries: Seq<AgentDirEntry>) -> Seq<Seq<char>>
    decreases entries.len(),
{
    if entries.len() == 0 {
        Seq::empty()
    } else if is_known(entries.last()) {
        known_names(entries.drop_last()).push(entries.last().name@)
    } else {
        known_names(entries.drop_last())
    }
}

/// The names of the known agents, in order. A listing that could not be
/// made is an empty one.
pub fn list_agent_names(entries: &Vec<AgentDirEntry>) -> (r: Vec<String>)
    ensures
        sorted(texts(r@)),
        texts(r@).to_multiset() == known_names(entries@).to_multiset(),
{
    let mut out: Vec<String> = Vec::new();
    let mut i: usize = 0;
    assert(entries@.take(0) =~= Seq::<AgentDirEntry>::empty());
    assert(texts(out@) =~= known_names(entries@.take(0)));
    while i < entries.len()
        invariant
            i <= entries.len(),
            sorted(texts(out@)),
            texts(out@).to_multiset() == known_names(entries@.take(i as int)).to_multiset(),
        decreases entries.len() - i,
    {
        proof {
            assert(entries@.take(i + 1).drop_last() =~= entries@.take(i as int));
            assert(entries@.take(i + 1).last() == entries@[i as int]);
            vstd::seq_lib::to_multiset_build(
                known_names(entries@.take(i as int)),
                entries@[i as int].name@,
            );
        }
        if entries[i].is_dir && entries[i].has_models_file {
            insert_sorted(&mut out, entries[i].name.clone());
        }
        i += 1;
    }
    assert(entries@.take(entries.len() as int) =~= entries@);
    out
}

/// How the providers of an agent compare with the central ones.
#[derive(Clone, Debug)]
pub struct ProviderSyncStatus {
    /// Whether both lists name the same providers.
    pub in_sync: bool,
    /// The central providers.
    pub openclaw_provider_names: Vec<String>,
    /// The agent's providers.
    pub agent_provider_names: Vec<String>,
    /// The central providers that the agent lacks.
    pub missing_in_agent: Vec<String>,
    /// The agent's providers that the central configuration lacks.
    pub extra_in_agent: Vec<String>,
}

/// The names of `names` that `other` lacks, in the order of `names`.
pub open spec fn absent_from(names: Seq<Seq<char>>, other: Seq<Seq<char>>) -> Seq<Seq<char>> {
    names.filter(|n: Seq<char>| !other.contains(n))
}

/// As sets, the names that `other` lacks are the difference of the two.
pub proof fn lemma_absent_from_is_difference(names: Seq<Seq<char>>, other: Seq<Seq<char>>)
    ensures
        absent_from(names, other).to_set() == names.to_set().difference(other.to_set()),
{
    let keep = |n: Seq<char>| !other.contains(n);
    let kept = names.filter(keep);
    assert forall|e: Seq<char>| kept.to_set().contains(e) <==> names.to_set().difference(
        other.to_set(),
    ).contains(e) by {
        if kept.to_set().contains(e) {
            let i = choose|i: int| 0 <= i < kept.len() && kept[i] == e;
            names.lemma_filter_pred(keep, i);
            names.lemma_filter_contains_rev(keep, e);
        }
        if names.contains(e) && !other.contains(e) {
            let i = choose|i: int| 0 <= i < names.len() && names[i] == e;
            assert(keep(names[i]));
            names.lemma_filter_contains(keep, i);
        }
    }
    assert(kept.to_set() =~= names.to_set().difference(other.to_set()));
}

/// Two lists name the same set exactly when neither has a name that the
/// other lacks.
pub proof fn lemma_same_set_iff_nothing_absent(a: Seq<Seq<char>>, b: Seq<Seq<char>>)
    ensures
        (a.to_set() == b.to_set()) <==> (absent_from(a, b).len() == 0 && absent_from(b, a).len()
            == 0),
{
    lemma_absent_from_is_difference(a, b);
    lemma_absent_from_is_difference(b, a);
    let ab = absent_from(a, b);
    let ba = absent_from(b, a);
    if ab.len() == 0 && ba.len() == 0 {
        assert forall|e: Seq<char>| a.to_set().contains(e) <==> b.to_set().contains(e) by {
            if a.to_set().contains(e) && !b.to_set().contains(e) {
                assert(ab.to_set().contains(e));
            }
            if b.to_set().contains(e) && !a.to_set().contains(e) {
                assert(ba.to_set().contains(e));
            }
        }
        assert(a.to_set() =~= b.to_set());
    }
    if a.to_set() == b.to_set() {
        if ab.len() > 0 {
            assert(ab.to_set().contains(ab[0]));
        }
        if ba.len() > 0 {
            assert(ba.to_set().contains(ba[0]));
        }
    }
}

/// Whether `status` is the comparison of the central names `central` with
/// the agent's names `agent`.
pub open spec fn compares(
    status: ProviderSyncStatus,
    central: Seq<Seq<char>>,
    agent: Seq<Seq<char>>,
) -> bool {
    &&& texts(status.openclaw_provider_names@) == central
    &&& texts(status.agent_provider_names@) == agent
    &&& texts(status.missing_in_agent@) == absent_from(central, agent)
    &&& texts(status.extra_in_agent@) == absent_from(agent, central)
    &&& status.in_sync == (central.to_set() == agent.to_set())
}

/// Compares the central provider names with those of an agent.
///
/// The two difference lists keep the order of the list they are taken from,
/// so they are in order where the given lists are. As sets they are the two
/// differences of the name sets, they share nothing with the list that lacks
/// them, and the lists are in sync exactly when the sets are equal.
pub fn provider_sync_status(openclaw_names: Vec<String>, agent_names: Vec<String>) -> (r:
    ProviderSyncStatus)
    ensures
        compares(r, texts(openclaw_names@), texts(agent_names@)),
        r.in_sync == (r.missing_in_agent@.len() == 0 && r.extra_in_agent@.len() == 0),
        texts(r.missing_in_agent@).to_set() == texts(openclaw_names@).to_set().difference(
            texts(agent_names@).to_set(),
        ),
        texts(r.extra_in_agent@).to_set() == texts(agent_names@).to_set().difference(
            texts(openclaw_names@).to_set(),
        ),
        texts(r.missing_in_agent@).to_set().disjoint(texts(agent_names@).to_set()),
        texts(r.extra_in_agent@).to_set().disjoint(texts(openclaw_names@).to_set()),
{
    let missing_in_agent = names_without(&openclaw_names, &agent_names);
    let extra_in_agent = names_without(&agent_names, &openclaw_names);
    let in_sync = missing_in_agent.len() == 0 && extra_in_agent.len() == 0;
    proof {
        let c = texts(openclaw_names@);
        let a = texts(agent_names@);
        lemma_absent_from_is_difference(c, a);
        lemma_absent_from_is_difference(a, c);
        lemma_same_set_iff_nothing_absent(c, a);
        assert(texts(missing_in_agent@).len() == missing_in_agent@.len());
        assert(texts(extra_in_agent@).len() == extra_in_agent@.len());
    }
    ProviderSyncStatus {
        in_sync,
        openclaw_provider_names: openclaw_names,
        agent_provider_names: agent_names,
        missing_in_agent,
        extra_in_agent,
    }
}

/// One provider of an agent's model document, as the user interface shows
/// it. The key itself is never shown, only whether one is set.
#[derive(Clone, Debug)]
pub struct AgentProviderView {
    pub base_url: Option<String>,
    pub api_key_set: bool,
    pub api: Option<String>,
    pub models_count: usize,
}

/// An agent's model document, as the user interface shows it.
#[derive(Clone, Debug)]
pub struct AgentModelsView {
    pub agent_name: String,
    /// The providers by name, in the order of `provider_names`.
    pub providers: Vec<(String, AgentProviderView)>,
    /// The names of the providers, in order.
    pub provider_names: Vec<String>,
}

/// Whether a provider definition has a key set: a string that is not empty,
/// or the boolean `true`.
pub open spec fn key_is_set(definition: JsonModel) -> bool {
    match definition.get("apiKey"@) {
        Some(JsonModel::Str(s)) => s.len() > 0,
        Some(JsonModel::Bool(b)) => b,
        _ => false,
    }
}

/// The number of models that a provider definition lists.
pub open spec fn models_listed(definition: JsonModel) -> nat {
    match definition.get("models"@) {
        Some(JsonModel::Array(items)) => items.len(),
        _ => 0,
    }
}

/// Whether `view` shows the provider definition `definition`.
pub open spec fn portrays(view: AgentProviderView, definition: JsonModel) -> bool {
    &&& opt_text(view.base_url) == text_of(definition.get("baseUrl"@))
    &&& view.api_key_set == key_is_set(definition)
    &&& opt_text(view.api) == text_of(definition.get("api"@))
    &&& view.models_count == models_listed(definition)
}

/// Whether a document can be shown as an agent's model document: it has a
/// `providers` object. What the providers in it are does not matter: each is
/// shown, field by field, with what it has.
pub open spec fn is_agent_document(doc: JsonModel) -> bool {
    doc.get("providers"@) matches Some(section) && section is Object
}

/// Whether `view` shows the document `doc` as that of the agent `name`.
pub open spec fn shows_agent(view: AgentModelsView, name: Seq<char>, doc: JsonModel) -> bool {
    let section = doc.get("providers"@)->Some_0->Object_0;
    &&& view.agent_name@ == name
    &&& lists(texts(view.provider_names@), section.dom())
    &&& view.providers@.len() == view.provider_names@.len()
    &&& forall|i: int|
        0 <= i < view.providers@.len() ==> (#[trigger] view.providers@[i]).0@
            == view.provider_names@[i]@ && portrays(
            view.providers@[i].1,
            section[view.provider_names@[i]@],
        )
}

/// What showing the document of the agent `name` has to return, given the
/// text of its file, or `None` where the file could not be read.
pub open spec fn agent_reads_as(
    name: Seq<char>,
    content: Option<Seq<char>>,
    r: Option<AgentModelsView>,
) -> bool {
    match content {
        Some(text) => match parsed_json(text) {
            Some(doc) => if is_agent_document(doc) {
                r matches Some(view) && shows_agent(view, name, doc)
            } else {
                r is None
            },
            None => r is None,
        },
        None => r is None,
    }
}

/// Shows one provider definition.
pub fn provider_view(definition: &Json) -> (r: AgentProviderView)
    ensures
        portrays(r, definition@),
{
    let api_key_set = match definition.get("apiKey") {
        Some(Json::Str(s)) => !s.as_str().is_empty(),
        Some(Json::Bool(b)) => *b,
        _ => false,
    };
    let models_count = match definition.get("models") {
        Some(Json::Array(items)) => items.len(),
        _ => 0,
    };
    AgentProviderView {
        base_url: text(definition.get("baseUrl")),
        api_key_set,
        api: text(definition.get("api")),
        models_count,
    }
}

/// Shows the document `doc` as that of the agent `agent_name`; `None` where
/// it has no `providers` object. Every provider is shown, also one that is
/// not an object: it has no URL, no key, no dialect and no models.
pub fn agent_view(agent_name: &str, doc: &Json) -> (r: Option<AgentModelsView>)
    ensures
        match r {
            Some(view) => is_agent_document(doc@) && shows_agent(view, agent_name@, doc@),
            None => !is_agent_document(doc@),
        },
{
    let section = match doc.get("providers") {
        Some(node) => node,
        None => {
            return None;
        },
    };
    if !section.is_object() {
        return None;
    }
    let provider_names = sorted_keys(Some(section));
    let ghost m = section@->Object_0;
    let mut providers: Vec<(String, AgentProviderView)> = Vec::new();
    let mut i: usize = 0;
    while i < provider_names.len()
        invariant
            i <= provider_names.len(),
            section@ == JsonModel::Object(m),
            lists(texts(provider_names@), m.dom()),
            providers@.len() == i,
            forall|j: int|
                0 <= j < i ==> (#[trigger] providers@[j]).0@ == provider_names@[j]@ && portrays(
                    providers@[j].1,
                    m[provider_names@[j]@],
                ),
        decreases provider_names.len() - i,
    {
        let name = &provider_names[i];
        assert(texts(provider_names@)[i as int] == name@);
        assert(texts(provider_names@).to_set().contains(name@));
        assert(m.contains_key(name@));
        let definition = section.get(name.as_str()).unwrap();
        providers.push((name.clone(), provider_view(definition)));
        i += 1;
    }
    Some(AgentModelsView { agent_name: agent_name.to_owned(), providers, provider_names })
}

/// Shows the model document of the agent `agent_name`, given the text of
/// its file, or `None` where the file could not be read. What cannot be read
/// or parsed, or has no `providers` object, is not shown; this is no error.
pub fn get_agent_models(agent_name: &str, content: Option<&str>) -> (r: Option<AgentModelsView>)
    ensures
        agent_reads_as(
            agent_name@,
            match content {
                Some(text) => Some(text@),
                None => None,
            },
            r,
        ),
{
    match content {
        Some(text) => match read_json(text) {
            Ok(doc) => agent_view(agent_name, &doc),
            Err(_) => None,
        },
        None => None,
    }
}

/// The central provider names that a configuration document holds: the keys
/// of `models.providers`, none where the document is not an object.
pub open spec fn central_set(config: JsonModel) -> Set<Seq<char>> {
    if config is Object {
        keys_in(config.at(providers_path()))
    } else {
        Set::empty()
    }
}

/// The provider names that an agent's document holds; none where the
/// document cannot be shown.
pub open spec fn agent_set(doc: JsonModel) -> Set<Seq<char>> {
    if is_agent_document(doc) {
        doc.get("providers"@)->Some_0.keys()
    } else {
        Set::empty()
    }
}

/// The central provider names that a configuration text holds; none where
/// the text cannot be read.
pub open spec fn central_names(content: Option<Seq<char>>) -> Set<Seq<char>> {
    match content {
        Some(text) => match parsed_json(text) {
            Some(config) => central_set(config),
            None => Set::empty(),
        },
        None => Set::empty(),
    }
}

/// The provider names that an agent's document text holds; none where the
/// document cannot be shown. A missing or unreadable document counts as an
/// agent without providers.
pub open spec fn agent_names(content: Option<Seq<char>>) -> Set<Seq<char>> {
    match content {
        Some(text) => match parsed_json(text) {
            Some(doc) => agent_set(doc),
            None => Set::empty(),
        },
        None => Set::empty(),
    }
}

/// The text of an optional string slice.
pub open spec fn opt_str(s: Option<&str>) -> Option<Seq<char>> {
    match s {
        Some(t) => Some(t@),
        None => None,
    }
}

/// Whether `status` reports how a central provider set and an agent's
/// provider set compare: both lists name their set in order and without
/// repeats, the two difference lists are the differences of the sets, taken
/// in the order of the lists, each shares nothing with the set that lacks
/// it, and `in_sync` holds exactly when the sets are equal, which is when
/// both difference lists are empty.
pub open spec fn reports(
    status: ProviderSyncStatus,
    central: Set<Seq<char>>,
    agent: Set<Seq<char>>,
) -> bool {
    &&& lists(texts(status.openclaw_provider_names@), central)
    &&& lists(texts(status.agent_provider_names@), agent)
    &&& compares(
        status,
        texts(status.openclaw_provider_names@),
        texts(status.agent_provider_names@),
    )
    &&& status.in_sync == (central == agent)
    &&& status.in_sync == (status.missing_in_agent@.len() == 0 && status.extra_in_agent@.len()
        == 0)
    &&& texts(status.missing_in_agent@).to_set() == central.difference(agent)
    &&& texts(status.extra_in_agent@).to_set() == agent.difference(central)
    &&& texts(status.missing_in_agent@).to_set().disjoint(agent)
    &&& texts(status.extra_in_agent@).to_set().disjoint(central)
}

/// The central provider names of a configuration that may be missing.
pub open spec fn central_set_of(config: Option<JsonModel>) -> Set<Seq<char>> {
    match config {
        Some(c) => central_set(c),
        None => Set::empty(),
    }
}

/// The provider names of an agent's document that may be missing.
pub open spec fn agent_set_of(doc: Option<JsonModel>) -> Set<Seq<char>> {
    match doc {
        Some(d) => agent_set(d),
        None => Set::empty(),
    }
}

/// Compares the providers of the central configuration with those of an
/// agent, given the two documents, `None` standing for a document that could
/// not be read. Never fails: what cannot be shown counts as having no
/// providers.
pub fn sync_status_of_documents(config: Option<&Json>, agent_name: &str, agent: Option<&Json>) -> (r:
    ProviderSyncStatus)
    ensures
        reports(r, central_set_of(opt_model(config)), agent_set_of(opt_model(agent))),
{
    let shown = match config {
        Some(document) => view_of_document(document),
        None => None,
    };
    let openclaw_names = match shown {
        Some(view) => view.provider_names,
        None => Vec::new(),
    };
    assert(texts(openclaw_names@).len() == 0 ==> texts(openclaw_names@).to_set()
        =~= Set::<Seq<char>>::empty());
    let agent_shown = match agent {
        Some(document) => agent_view(agent_name, document),
        None => None,
    };
    let agent_list = match agent_shown {
        Some(view) => view.provider_names,
        None => Vec::new(),
    };
    assert(texts(agent_list@).len() == 0 ==> texts(agent_list@).to_set()
        =~= Set::<Seq<char>>::empty());
    provider_sync_status(openclaw_names, agent_list)
}

/// The document that a text holds, where there is a text and it is JSON.
pub fn document_of(content: Option<&str>) -> (r: Option<Json>)
    ensures
        match content {
            Some(text) => match parsed_json(text@) {
                Some(doc) => r matches Some(d) && d@ == doc,
                None => r is None,
            },
            None => r is None,
        },
{
    match content {
        Some(text) => match read_json(text) {
            Ok(doc) => Some(doc),
            Err(_) => None,
        },
        None => None,
    }
}

/// Compares the providers of the central configuration with those of an
/// agent, given the texts of the two files, `None` standing for a file that
/// could not be read. Never fails.
///
/// Both name lists are in order and without repeats, and so are the two
/// difference lists. `in_sync` holds exactly when both files name the same
/// providers.
pub fn get_provider_sync_status(
    central_content: Option<&str>,
    agent_name: &str,
    agent_content: Option<&str>,
) -> (r: ProviderSyncStatus)
    ensures
        reports(
            r,
            central_names(opt_str(central_content)),
            agent_names(opt_str(agent_content)),
        ),
{
    let config = document_of(central_content);
    let agent = document_of(agent_content);
    sync_status_of_documents(config.as_ref(), agent_name, agent.as_ref())
}

/// Why the providers of an agent could not be brought up to date.
#[derive(Debug)]
pub enum SyncError {
    /// The central configuration is not JSON; the parser's message.
    CentralParse(String),
    /// The central `models.providers` section is not an object.
    CentralProvidersNotObject,
    /// The agent's document is not JSON; the parser's message.
    AgentParse(String),
    /// The agent's document is JSON, but not an object.
    AgentRootNotObject,
    /// The `providers` member of the agent's document is not an object.
    AgentProvidersNotObject,
    /// The merged document could not be written as text; the serialiser's
    /// message. No document gives this error: it is there for what the
    /// serialiser's signature allows.
    Write(String),
}

/// The member of a map under a key, if it has one.
pub open spec fn found(m: Map<Seq<char>, JsonModel>, key: Seq<char>) -> Option<JsonModel> {
    if m.contains_key(key) {
        Some(m[key])
    } else {
        None
    }
}

/// The definition that an agent gets for a provider: the central one, but
/// with the agent's own key where the agent has the provider with a key.
pub open spec fn merged_definition(central: JsonModel, existing: Option<JsonModel>) -> JsonModel {
    match (central, existing) {
        (JsonModel::Object(c), Some(JsonModel::Object(e))) => if e.contains_key("apiKey"@) {
            JsonModel::Object(c.insert("apiKey"@, e["apiKey"@]))
        } else {
            central
        },
        _ => central,
    }
}

/// The providers of an agent after the merge: every central provider with
/// its merged definition, and every other provider of the agent as it was.
pub open spec fn merged_providers(
    central: Map<Seq<char>, JsonModel>,
    agent: Map<Seq<char>, JsonModel>,
) -> Map<Seq<char>, JsonModel> {
    Map::new(
        |k: Seq<char>| central.contains_key(k) || agent.contains_key(k),
        |k: Seq<char>|
            if central.contains_key(k) {
                merged_definition(central[k], found(agent, k))
            } else {
                agent[k]
            },
    )
}

/// The providers that an agent's document has: those of its `providers`
/// object, none where it has no such member.
pub open spec fn providers_in(doc: JsonModel) -> Map<Seq<char>, JsonModel> {
    match doc.get("providers"@) {
        Some(JsonModel::Object(m)) => m,
        _ => Map::empty(),
    }
}

/// The document an agent starts from where it has none yet.
pub open spec fn empty_agent_document() -> JsonModel {
    JsonModel::empty_object().with("providers"@, JsonModel::empty_object())
}

/// The agent's document after the merge of the central providers.
pub open spec fn reconciled(central: Map<Seq<char>, JsonModel>, doc: JsonModel) -> JsonModel {
    doc.with("providers"@, JsonModel::Object(merged_providers(central, providers_in(doc))))
}

/// What merging the central providers `central` into an agent's document
/// has to return; `None` stands for an agent without a document.
pub open spec fn merges_to(
    central: JsonModel,
    agent: Option<JsonModel>,
    r: Result<Json, SyncError>,
) -> bool {
    let doc = match agent {
        Some(d) => d,
        None => empty_agent_document(),
    };
    if !(central is Object) {
        r matches Err(SyncError::CentralProvidersNotObject)
    } else if !(doc is Object) {
        r matches Err(SyncError::AgentRootNotObject)
    } else if doc.get("providers"@) matches Some(p) && !(p is Object) {
        r matches Err(SyncError::AgentProvidersNotObject)
    } else {
        r matches Ok(out) && out@ == reconciled(central->Object_0, doc)
    }
}

/// The definition that the agent gets for a provider.
pub fn merge_definition(central: &Json, existing: Option<&Json>) -> (r: Json)
    ensures
        r@ == merged_definition(central@, opt_model(existing)),
{
    let mut merged = central.duplicate();
    if merged.is_object() {
        match existing {
            Some(old) => match old.get("apiKey") {
                Some(key) => {
                    merged.insert("apiKey", key.duplicate());
                },
                None => {},
            },
            None => {},
        }
    }
    merged
}

/// The providers of an agent after the merge, given the central providers
/// and the agent's own, both as entries of an object.
pub fn merge_providers(central: &Vec<(String, Json)>, agent: &Json) -> (r: Json)
    requires
        agent@ is Object,
    ensures
        r@ == JsonModel::Object(
            merged_providers(entries_model(central@), agent@->Object_0),
        ),
{
    let ghost a = agent@->Object_0;
    let mut out = agent.duplicate();
    let mut i: usize = 0;
    assert(central@.take(0) =~= Seq::<(String, Json)>::empty());
    assert(merged_providers(Map::empty(), a) =~= a);
    while i < central.len()
        invariant
            i <= central.len(),
            agent@ == JsonModel::Object(a),
            out@ == JsonModel::Object(
                merged_providers(entries_model(central@.take(i as int)), a),
            ),
        decreases central.len() - i,
    {
        let ghost done = entries_model(central@.take(i as int));
        let name = &central[i].0;
        let definition = &central[i].1;
        proof {
            assert(central@.take(i + 1).drop_last() =~= central@.take(i as int));
            assert(central@.take(i + 1).last() == central@[i as int]);
            assert(merged_providers(done.insert(name@, definition@), a) =~= merged_providers(
                done,
                a,
            ).insert(name@, merged_definition(definition@, found(a, name@))));
        }
        let merged = merge_definition(definition, agent.get(name.as_str()));
        out.insert(name.as_str(), merged);
        i += 1;
    }
    assert(central@.take(central.len() as int) =~= central@);
    out
}

/// Merges the central providers into an agent's document. The central
/// definition wins for every field but the key, which the agent keeps where
/// it has one; providers that only the agent has stay as they are.
pub fn reconcile_documents(central: &Json, agent: Option<Json>) -> (r: Result<Json, SyncError>)
    ensures
        merges_to(
            central@,
            match agent {
                Some(doc) => Some(doc@),
                None => None,
            },
            r,
        ),
{
    let entries = match central {
        Json::Object(entries) => entries,
        _ => {
            return Err(SyncError::CentralProvidersNotObject);
        },
    };
    let mut root = match agent {
        Some(doc) => doc,
        None => {
            let mut fresh = Json::empty_object();
            fresh.insert("providers", Json::empty_object());
            fresh
        },
    };
    if !root.is_object() {
        return Err(SyncError::AgentRootNotObject);
    }
    let merged = match root.get("providers") {
        Some(existing) => {
            if !existing.is_object() {
                return Err(SyncError::AgentProvidersNotObject);
            }
            merge_providers(entries, existing)
        },
        None => merge_providers(entries, &Json::empty_object()),
    };
    root.insert("providers", merged);
    Ok(root)
}

/// Whether `r` is what writing `doc` has to return: the text that the
/// serialiser writes for it.
pub open spec fn synced_as(doc: JsonModel, r: Result<String, SyncError>) -> bool {
    r matches Ok(text) && text@ == pretty_text(doc)
}

/// What bringing an agent's document up to date has to return, given the
/// central providers and the agent's document, `None` standing for an agent
/// without a document. The merged document is written as the serialiser has
/// it.
pub open spec fn syncs_to(
    central: JsonModel,
    agent: Option<JsonModel>,
    r: Result<String, SyncError>,
) -> bool {
    let doc = match agent {
        Some(d) => d,
        None => empty_agent_document(),
    };
    if !(central is Object) {
        r matches Err(SyncError::CentralProvidersNotObject)
    } else if !(doc is Object) {
        r matches Err(SyncError::AgentRootNotObject)
    } else if doc.get("providers"@) matches Some(p) && !(p is Object) {
        r matches Err(SyncError::AgentProvidersNotObject)
    } else {
        synced_as(reconciled(central->Object_0, doc), r)
    }
}

/// What bringing an agent's document up to date has to return, given the
/// text of the central configuration and the text of the agent's document,
/// `None` standing for an agent without a document.
pub open spec fn reconciles(
    central_content: Seq<char>,
    agent_content: Option<Seq<char>>,
    r: Result<String, SyncError>,
) -> bool {
    match parsed_json(central_content) {
        None => r matches Err(SyncError::CentralParse(_)),
        Some(config) => if !(providers_of(config) is Object) {
            r matches Err(SyncError::CentralProvidersNotObject)
        } else {
            match agent_content {
                Some(text) => match parsed_json(text) {
                    Some(doc) => syncs_to(providers_of(config), Some(doc), r),
                    None => r matches Err(SyncError::AgentParse(_)),
                },
                None => syncs_to(providers_of(config), None, r),
            }
        },
    }
}

/// Brings the document of an agent up to date with the central providers
/// and returns the text to write, given the central providers and the
/// agent's document.
pub fn sync_documents(central: &Json, agent: Option<Json>) -> (r: Result<String, SyncError>)
    ensures
        syncs_to(
            central@,
            match agent {
                Some(doc) => Some(doc@),
                None => None,
            },
            r,
        ),
{
    match reconcile_documents(central, agent) {
        Ok(doc) => match write_json(&doc) {
            Ok(text) => Ok(text),
            Err(e) => Err(SyncError::Write(error_text(&e))),
        },
        Err(e) => Err(e),
    }
}

/// What reading the central providers from the text of the central
/// configuration has to return.
pub open spec fn central_reads_as(central_content: Seq<char>, r: Result<Json, SyncError>) -> bool {
    match parsed_json(central_content) {
        None => r matches Err(SyncError::CentralParse(_)),
        Some(config) => if providers_of(config) is Object {
            r matches Ok(section) && section@ == providers_of(config)
        } else {
            r matches Err(SyncError::CentralProvidersNotObject)
        },
    }
}

/// What bringing an agent's document up to date has to return, given the
/// central providers and the text of the agent's document, `None` standing
/// for an agent without a document.
pub open spec fn agent_syncs_to(
    central: JsonModel,
    agent_content: Option<Seq<char>>,
    r: Result<String, SyncError>,
) -> bool {
    if !(central is Object) {
        r matches Err(SyncError::CentralProvidersNotObject)
    } else {
        match agent_content {
            Some(text) => match parsed_json(text) {
                Some(doc) => syncs_to(central, Some(doc), r),
                None => r matches Err(SyncError::AgentParse(_)),
            },
            None => syncs_to(central, None, r),
        }
    }
}

/// The central providers, read from the text of the central configuration:
/// its `models.providers` section, an empty object where it has none. Text
/// that is not JSON and a section that is not an object are errors.
pub fn central_providers(central_content: &str) -> (r: Result<Json, SyncError>)
    ensures
        central_reads_as(central_content@, r),
{
    let central = match read_json(central_content) {
        Ok(config) => providers_section(&config),
        Err(e) => {
            return Err(SyncError::CentralParse(error_text(&e)));
        },
    };
    if !central.is_object() {
        return Err(SyncError::CentralProvidersNotObject);
    }
    Ok(central)
}

/// Brings the document of an agent up to date with the central providers
/// `central`: reads the agent's document from `agent_content` or starts an
/// empty one where that is `None`, merges, and returns the text to write as
/// the agent's document.
pub fn sync_agent_text(central: &Json, agent_content: Option<&str>) -> (r: Result<
    String,
    SyncError,
>)
    ensures
        agent_syncs_to(central@, opt_str(agent_content), r),
{
    if !central.is_object() {
        return Err(SyncError::CentralProvidersNotObject);
    }
    let agent = match agent_content {
        Some(text) => match read_json(text) {
            Ok(doc) => Some(doc),
            Err(e) => {
                return Err(SyncError::AgentParse(error_text(&e)));
            },
        },
        None => None,
    };
    sync_documents(central, agent)
}

/// Brings the document of an agent up to date with the central providers:
/// reads the central configuration from `central_content`, reads the agent's
/// document from `agent_content` or starts an empty one where that is
/// `None`, merges, and returns the text to write as the agent's document.
/// The central configuration is looked at first: where both texts are
/// faulty, the error is that of the central one.
pub fn update_agent_providers_from_openclaw(central_content: &str, agent_content: Option<&str>)
    -> (r: Result<String, SyncError>)
    ensures
        reconciles(central_content@, opt_str(agent_content), r),
{
    match central_providers(central_content) {
        Ok(central) => sync_agent_text(&central, agent_content),
        Err(e) => Err(e),
    }
}

impl SyncError {
    /// The error as a message for the user.
    pub fn message(&self) -> (r: String)
        ensures
            match self {
                SyncError::CentralParse(m) => r@ == m@,
                SyncError::CentralProvidersNotObject => r@ == "openclaw providers not an object"@,
                SyncError::AgentParse(m) => r@ == m@,
                SyncError::AgentRootNotObject => r@ == "models.json root not an object"@,
                SyncError::AgentProvidersNotObject => r@ == "models.json providers not an object"@,
                SyncError::Write(m) => r@ == m@,
            },
    {
        match self {
            SyncError::CentralParse(m) => m.clone(),
            SyncError::CentralProvidersNotObject => "openclaw providers not an object".to_owned(),
            SyncError::AgentParse(m) => m.clone(),
            SyncError::AgentRootNotObject => "models.json root not an object".to_owned(),
            SyncError::AgentProvidersNotObject => {
                "models.json providers not an object".to_owned()
            },
            SyncError::Write(m) => m.clone(),
        }
    }
}

/// Merging twice is merging once: a second merge of the same central
/// providers leaves the agent's providers as the first one made them.
pub proof fn lemma_merge_idempotent(
    central: Map<Seq<char>, JsonModel>,
    agent: Map<Seq<char>, JsonModel>,
)
    ensures
        merged_providers(central, merged_providers(central, agent)) == merged_providers(
            central,
            agent,
        ),
{
    let once = merged_providers(central, agent);
    let twice = merged_providers(central, once);
    assert forall|k: Seq<char>| twice.contains_key(k) implies #[trigger] twice[k] == once[k] by {
        if central.contains_key(k) {
            match (central[k], found(agent, k)) {
                (JsonModel::Object(c), Some(JsonModel::Object(e))) => {
                    if e.contains_key("apiKey"@) {
                        let kept = c.insert("apiKey"@, e["apiKey"@]);
                        assert(c.insert("apiKey"@, kept["apiKey"@]) =~= kept);
                    } else if c.contains_key("apiKey"@) {
                        assert(c.insert("apiKey"@, c["apiKey"@]) =~= c);
                    }
                },
                (JsonModel::Object(c), _) => {
                    if c.contains_key("apiKey"@) {
                        assert(c.insert("apiKey"@, c["apiKey"@]) =~= c);
                    }
                },
                _ => {},
            }
        }
    }
    assert(twice =~= once);
}

/// Reconciling is idempotent: applied a second time with the same central
/// providers, it returns the document that the first application returned.
pub proof fn lemma_reconcile_idempotent(central: Map<Seq<char>, JsonModel>, doc: JsonModel)
    ensures
        reconciled(central, reconciled(central, doc)) == reconciled(central, doc),
{
    lemma_merge_idempotent(central, providers_in(doc));
    match doc {
        JsonModel::Object(m) => {
            let once = merged_providers(central, providers_in(doc));
            let first = m.insert("providers"@, JsonModel::Object(once));
            assert(first.insert("providers"@, JsonModel::Object(once)) =~= first);
        },
        _ => {},
    }
}

/// After reconciling an agent's document, its providers are the central
/// ones together with its own: none of the central providers is missing,
/// and none of its own is gone.
pub proof fn lemma_reconcile_is_union(central: Map<Seq<char>, JsonModel>, doc: JsonModel)
    requires
        doc is Object,
    ensures
        providers_in(reconciled(central, doc)).dom() == central.dom().union(
            providers_in(doc).dom(),
        ),
{
    assert(providers_in(reconciled(central, doc)).dom() =~= central.dom().union(
        providers_in(doc).dom(),
    ));
}

/// After reconciling, nothing is missing: the agent's document can be shown,
/// its providers are the central ones together with those it had, so none
/// of the central providers is missing in it, and what it has beyond them is
/// what it had beyond them before.
pub proof fn lemma_reconcile_leaves_nothing_missing(config: JsonModel, doc: JsonModel)
    requires
        providers_of(config) is Object,
        doc is Object,
        !(doc.get("providers"@) matches Some(p) && !(p is Object)),
    ensures
        ({
            let after = reconciled(providers_of(config)->Object_0, doc);
            &&& is_agent_document(after)
            &&& agent_set(after) == central_set(config).union(agent_set(doc))
            &&& central_set(config).difference(agent_set(after)) == Set::<Seq<char>>::empty()
            &&& agent_set(after).difference(central_set(config)) == agent_set(doc).difference(
                central_set(config),
            )
        }),
{
    let central = providers_of(config)->Object_0;
    let after = reconciled(central, doc);
    lemma_reconcile_is_union(central, doc);
    assert(central_set(config) =~= central.dom());
    assert(agent_set(doc) =~= providers_in(doc).dom());
    assert(agent_set(after) =~= providers_in(after).dom());
    assert(central_set(config).difference(agent_set(after)) =~= Set::<Seq<char>>::empty());
    assert(agent_set(after).difference(central_set(config)) =~= agent_set(doc).difference(
        central_set(config),
    ));
}

/// The status after reconciling: where the agent's document is what
/// reconciling made of it and the central configuration has not changed,
/// nothing is missing in the agent, what it has beyond the central
/// providers is what it had beyond them before, and the two are in sync
/// exactly when it had nothing beyond them.
pub proof fn lemma_status_after_reconcile(
    config: JsonModel,
    doc: JsonModel,
    status: ProviderSyncStatus,
)
    requires
        providers_of(config) is Object,
        doc is Object,
        !(doc.get("providers"@) matches Some(p) && !(p is Object)),
        reports(
            status,
            central_set(config),
            agent_set(reconciled(providers_of(config)->Object_0, doc)),
        ),
    ensures
        status.missing_in_agent@.len() == 0,
        texts(status.extra_in_agent@).to_set() == agent_set(doc).difference(central_set(config)),
        status.in_sync == (agent_set(doc).difference(central_set(config)) == Set::<
            Seq<char>,
        >::empty()),
{
    lemma_reconcile_leaves_nothing_missing(config, doc);
    let missing = texts(status.missing_in_agent@);
    let extra = texts(status.extra_in_agent@);
    if missing.len() > 0 {
        assert(missing.to_set().contains(missing[0]));
    }
    if extra.len() > 0 {
        assert(extra.to_set().contains(extra[0]));
    } else {
        assert(extra.to_set() =~= Set::<Seq<char>>::empty());
    }
}

/// Reconciling keeps the key that the agent has for a provider: where the
/// central definition and the agent's own are both objects and the agent's
/// has a key, the merged definition has the agent's key, and every other
/// field of it is as the central definition has it.
pub proof fn lemma_reconcile_keeps_agent_key(
    central: Map<Seq<char>, JsonModel>,
    doc: JsonModel,
    provider: Seq<char>,
)
    requires
        doc is Object,
        central.contains_key(provider),
        central[provider] is Object,
        providers_in(doc).contains_key(provider),
        providers_in(doc)[provider] is Object,
        providers_in(doc)[provider]->Object_0.contains_key("apiKey"@),
    ensures
        providers_in(reconciled(central, doc)).contains_key(provider),
        providers_in(reconciled(central, doc))[provider] is Object,
        providers_in(reconciled(central, doc))[provider].get("apiKey"@) == providers_in(
            doc,
        )[provider].get("apiKey"@),
        forall|field: Seq<char>|
            field != "apiKey"@ ==> #[trigger] providers_in(reconciled(central, doc))[provider].get(
                field,
            ) == central[provider].get(field),
{
}

/// Reconciling never deletes or changes a provider that only the agent has.
pub proof fn lemma_reconcile_keeps_agent_only(
    central: Map<Seq<char>, JsonModel>,
    doc: JsonModel,
    provider: Seq<char>,
)
    requires
        doc is Object,
        providers_in(doc).contains_key(provider),
        !central.contains_key(provider),
    ensures
        providers_in(reconciled(central, doc)).contains_key(provider),
        providers_in(reconciled(central, doc))[provider] == providers_in(doc)[provider],
{
}

} // verus!
