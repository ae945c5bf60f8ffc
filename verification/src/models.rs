//! The model catalog the gateway serves at `GET /v1/models`: after bearer
//! authentication, one entry per configured model, in routing order.

use vstd::prelude::*;
use vstd::string::StringSliceAdditionalSpecFns;

use crate::auth::{check_auth, credential_of, header_bytes, secrets_match, AuthError};
use crate::inference_route::RouteKind;

verus! {

/// A configured model as the router holds it.
#[derive(Debug)]
pub struct ModelEntry {
    /// The name requests route by.
    pub name: String,
    /// What the model serves.
    pub kind: RouteKind,
    /// The configured description.
    pub description: String,
    /// The context window in tokens, when configured.
    pub context: Option<u32>,
    /// Whether the model thinks before answering, when configured.
    pub thinking: Option<bool>,
    /// The configured capability names.
    pub capabilities: Vec<String>,
}

/// One entry of the catalog.
#[derive(Debug)]
pub struct ModelInfo {
    /// The model's name.
    pub id: String,
    /// Always `"model"`.
    pub object: &'static str,
    pub kind: RouteKind,
    pub description: String,
    pub context: Option<u32>,
    pub thinking: Option<bool>,
    pub capabilities: Vec<String>,
}

/// The catalog response.
#[derive(Debug)]
pub struct ModelsList {
    /// Always `"list"`.
    pub object: &'static str,
    /// One entry per configured model, in routing order.
    pub data: Vec<ModelInfo>,
}

/// A configured model as values.
pub struct ModelEntryView {
    pub name: Seq<char>,
    pub kind: RouteKind,
    pub description: Seq<char>,
    pub context: Option<u32>,
    pub thinking: Option<bool>,
    pub capabilities: Seq<Seq<char>>,
}

/// A catalog entry as values.
pub struct ModelInfoView {
    pub id: Seq<char>,
    pub object: Seq<char>,
    pub kind: RouteKind,
    pub description: Seq<char>,
    pub context: Option<u32>,
    pub thinking: Option<bool>,
    pub capabilities: Seq<Seq<char>>,
}

pub open spec fn strings_view(strings: Seq<String>) -> Seq<Seq<char>> {
    strings.map_values(|s: String| s@)
}

impl View for ModelEntry {
    type V = ModelEntryView;

    open spec fn view(&self) -> ModelEntryView {
        ModelEntryView {
            name: self.name@,
            kind: self.kind,
            description: self.description@,
            context: self.context,
            thinking: self.thinking,
            capabilities: strings_view(self.capabilities@),
        }
    }
}

impl View for ModelInfo {
    type V = ModelInfoView;

    open spec fn view(&self) -> ModelInfoView {
        ModelInfoView {
            id: self.id@,
            object: self.object@,
            kind: self.kind,
            description: self.description@,
            context: self.context,
            thinking: self.thinking,
            capabilities: strings_view(self.capabilities@),
        }
    }
}

/// The catalog entry of a configured model: its name as the id, object
/// `"model"`, and its kind, description, context, thinking and capabilities
/// as configured.
pub open spec fn info_of(entry: ModelEntryView) -> ModelInfoView {
    ModelInfoView {
        id: entry.name,
        object: "model"@,
        kind: entry.kind,
        description: entry.description,
        context: entry.context,
        thinking: entry.thinking,
        capabilities: entry.capabilities,
    }
}

fn copy_strings(strings: &Vec<String>) -> (copy: Vec<String>)
    ensures
        strings_view(copy@) == strings_view(strings@),
{
    let mut copy: Vec<String> = Vec::new();
    let mut index: usize = 0;
    while index < strings.len()
        invariant
            index <= strings@.len(),
            copy@.len() == index,
            forall|i: int| 0 <= i < index ==> copy@[i]@ == strings@[i]@,
        decreases strings@.len() - index,
    {
        copy.push(strings[index].clone());
        index = index + 1;
    }
    assert(strings_view(copy@) =~= strings_view(strings@));
    copy
}

/// The catalog entry of one configured model.
pub fn model_info(entry: &ModelEntry) -> (info: ModelInfo)
    ensures
        info@ == info_of(entry@),
{
    ModelInfo {
        id: entry.name.clone(),
        object: "model",
        kind: entry.kind,
        description: entry.description.clone(),
        context: entry.context,
        thinking: entry.thinking,
        capabilities: copy_strings(&entry.capabilities),
    }
}

/// The bearer-authenticated catalog: `Unauthorized` unless the header
/// presents the configured key; otherwise a `"list"` with one entry per
/// configured model, in order.
pub fn list_models(header: Option<&str>, key: &str, models: &[ModelEntry]) -> (r: Result<ModelsList, AuthError>)
    ensures
        r is Ok <==> secrets_match(credential_of(header_bytes(header)), key.spec_bytes()),
        match r {
            Ok(list) => list.object@ == "list"@ && list.data@.len() == models@.len() && forall|i: int|
                0 <= i < models@.len() ==> (#[trigger] list.data@[i])@ == info_of(models@[i]@),
            Err(error) => error is Unauthorized,
        },
{
    match check_auth(header, key) {
        Err(error) => return Err(error),
        Ok(()) => {},
    }
    let mut data: Vec<ModelInfo> = Vec::new();
    let mut index: usize = 0;
    while index < models.len()
        invariant
            index <= models@.len(),
            data@.len() == index,
            forall|i: int| 0 <= i < index ==> (#[trigger] data@[i])@ == info_of(models@[i]@),
        decreases models@.len() - index,
    {
        data.push(model_info(&models[index]));
        index = index + 1;
    }
    Ok(ModelsList { object: "list", data })
}

} // verus!
