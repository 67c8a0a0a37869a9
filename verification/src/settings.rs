//! The settings of the control panel itself, and what the gateway reports.

use crate::codec::{parsed_json, read_json};
use crate::json::{Json, JsonModel};
use crate::order::texts;
use vstd::prelude::*;

verus! {

/// How the gateway is run.
#[derive(Clone, Debug)]
pub struct GatewayConfig {
    pub enabled: bool,
    pub port: u16,
    pub timeout: u32,
}

/// The keys of the services that the panel knows.
#[derive(Clone, Debug)]
pub struct ApiKeys {
    pub helius: Option<String>,
    pub jupiter: Option<String>,
    pub firecrawl: Option<String>,
}

/// The settings of the control panel.
#[derive(Clone, Debug)]
pub struct Config {
    pub gateway: GatewayConfig,
    pub models: Vec<String>,
    pub api_keys: ApiKeys,
}

/// A key was given for a service that the panel does not know.
#[derive(Debug)]
pub struct UnknownService {}

impl Default for Config {
    fn default() -> (r: Self)
        ensures
            r.gateway.enabled,
            r.gateway.port == 8080,
            r.gateway.timeout == 30000,
            r.models@.len() == 0,
            r.api_keys.helius is None,
            r.api_keys.jupiter is None,
            r.api_keys.firecrawl is None,
    {
        Config {
            gateway: GatewayConfig { enabled: true, port: 8080, timeout: 30000 },
            models: Vec::new(),
            api_keys: ApiKeys { helius: None, jupiter: None, firecrawl: None },
        }
    }
}

/// Adds a model to the settings and returns the models that they now list.
pub fn add_model(config: &mut Config, model_name: String) -> (r: Vec<String>)
    ensures
        texts(final(config).models@) == texts(old(config).models@).push(model_name@),
        texts(r@) == texts(final(config).models@),
        final(config).gateway == old(config).gateway,
        final(config).api_keys == old(config).api_keys,
{
    let ghost before = texts(config.models@);
    config.models.push(model_name);
    assert(texts(config.models@) =~= before.push(model_name@));
    let mut out: Vec<String> = Vec::new();
    let mut i: usize = 0;
    while i < config.models.len()
        invariant
            i <= config.models.len(),
            out.len() == i,
            forall|j: int| 0 <= j < i ==> (#[trigger] out[j])@ == config.models[j]@,
        decreases config.models.len() - i,
    {
        out.push(config.models[i].clone());
        i += 1;
    }
    assert(texts(out@) =~= texts(config.models@));
    out
}

/// Whether two texts are the same.
pub fn same_text(a: &str, b: &str) -> (r: bool)
    ensures
        r == (a@ == b@),
{
    a.to_owned() == b.to_owned()
}

/// Stores the key of a service. The services are `helius`, `jupiter` and
/// `firecrawl`; for any other name nothing is stored.
pub fn save_api_key(config: &mut Config, service: &str, key: String) -> (r: Result<
    (),
    UnknownService,
>)
    ensures
        final(config).gateway == old(config).gateway,
        final(config).models == old(config).models,
        service@ == "helius"@ ==> r is Ok && final(config).api_keys == (ApiKeys {
            helius: Some(key),
            ..old(config).api_keys
        }),
        service@ != "helius"@ && service@ == "jupiter"@ ==> r is Ok && final(config).api_keys == (
        ApiKeys { jupiter: Some(key), ..old(config).api_keys }),
        service@ != "helius"@ && service@ != "jupiter"@ && service@ == "firecrawl"@ ==> r is Ok
            && final(config).api_keys == (ApiKeys {
            firecrawl: Some(key),
            ..old(config).api_keys
        }),
        service@ != "helius"@ && service@ != "jupiter"@ && service@ != "firecrawl"@ ==> r is Err
            && *final(config) == *old(config),
{
    if same_text(service, "helius") {
        config.api_keys.helius = Some(key);
        Ok(())
    } else if same_text(service, "jupiter") {
        config.api_keys.jupiter = Some(key);
        Ok(())
    } else if same_text(service, "firecrawl") {
        config.api_keys.firecrawl = Some(key);
        Ok(())
    } else {
        Err(UnknownService {  })
    }
}

/// Whether a parsed reply to `gateway discover` names at least one gateway:
/// its `count` is a positive integer.
pub open spec fn counts_gateway(doc: JsonModel) -> bool {
    match doc.get("count"@) {
        Some(count) => count.as_u64() matches Some(n) && n > 0,
        None => false,
    }
}

/// Whether a reply to `gateway discover` names at least one gateway: the
/// command reported success, and its output is a JSON document that does.
pub open spec fn names_gateway(success: bool, stdout: Seq<char>) -> bool {
    success && match parsed_json(stdout) {
        Some(doc) => counts_gateway(doc),
        None => false,
    }
}

/// Whether a parsed reply to `gateway discover` names at least one gateway.
pub fn gateway_counted(doc: &Json) -> (r: bool)
    ensures
        r == counts_gateway(doc@),
{
    match doc.get("count") {
        Some(count) => match count.as_u64() {
            Some(n) => n > 0,
            None => false,
        },
        None => false,
    }
}

/// Whether the gateway is running, given whether `gateway discover`
/// reported success and what it printed.
pub fn check_gateway_status(success: bool, stdout: &str) -> (r: bool)
    ensures
        r == names_gateway(success, stdout@),
{
    if !success {
        return false;
    }
    match read_json(stdout) {
        Ok(doc) => gateway_counted(&doc),
        Err(_) => false,
    }
}

} // verus!
