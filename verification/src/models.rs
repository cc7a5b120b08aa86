//! The model catalog and the model-listing endpoint's data.

use vstd::prelude::*;

use crate::json::{
    arr_field, parse_text, spec_arr_field, spec_document, spec_opt_u32_field, spec_str_field,
    spec_sub_obj, spec_u64_field, str_eq, str_field, sub_obj, u64_field, opt_u32_field, view_arr,
    view_members, Json, Member, SpecJson,
};
use crate::VeniceError;

verus! {

broadcast use vstd::string::group_string_axioms;

/// The closed set of model identifiers this library knows, each with its
/// capability flags.
#[derive(Debug, Clone, Copy, PartialEq, Eq, Structural)]
pub enum Model {
    DeepSeekR1_671B,
    DeepSeekR1Llama70B,
    Dolphin292Qwen2_72B,
    Llama31_405B,
    Llama32_3b,
    Llama33_70B,
    Qwen32B,
    FluentlyXL,
    FluxDevUncensored,
    FluxDev,
    LustifySDXL,
    PonyRealism,
    StableDiffusion35,
}

/// The identifier under which the API knows each catalog member.
pub open spec fn spec_model_id(m: Model) -> Seq<char> {
    match m {
        Model::DeepSeekR1_671B => "deepseek-r1-671b"@,
        Model::DeepSeekR1Llama70B => "deepseek-r1-llama-70b"@,
        Model::Dolphin292Qwen2_72B => "dolphin-2.9.2-qwen2-72b"@,
        Model::Llama31_405B => "llama-3.1-405b"@,
        Model::Llama32_3b => "llama-3.2-3b"@,
        Model::Llama33_70B => "llama-3.3-70b"@,
        Model::Qwen32B => "qwen32b"@,
        Model::FluentlyXL => "fluently-xl"@,
        Model::FluxDevUncensored => "flux-dev-uncensored"@,
        Model::FluxDev => "flux-dev"@,
        Model::LustifySDXL => "lustify-sdxl"@,
        Model::PonyRealism => "pony-realism"@,
        Model::StableDiffusion35 => "stable-diffusion-3.5"@,
    }
}

/// The catalog member for an identifier, or `None` outside the closed set.
pub open spec fn spec_model_of_id(s: Seq<char>) -> Option<Model> {
    if s == "deepseek-r1-671b"@ {
        Some(Model::DeepSeekR1_671B)
    } else if s == "deepseek-r1-llama-70b"@ {
        Some(Model::DeepSeekR1Llama70B)
    } else if s == "dolphin-2.9.2-qwen2-72b"@ {
        Some(Model::Dolphin292Qwen2_72B)
    } else if s == "llama-3.1-405b"@ {
        Some(Model::Llama31_405B)
    } else if s == "llama-3.2-3b"@ {
        Some(Model::Llama32_3b)
    } else if s == "llama-3.3-70b"@ {
        Some(Model::Llama33_70B)
    } else if s == "qwen32b"@ {
        Some(Model::Qwen32B)
    } else if s == "fluently-xl"@ {
        Some(Model::FluentlyXL)
    } else if s == "flux-dev-uncensored"@ {
        Some(Model::FluxDevUncensored)
    } else if s == "flux-dev"@ {
        Some(Model::FluxDev)
    } else if s == "lustify-sdxl"@ {
        Some(Model::LustifySDXL)
    } else if s == "pony-realism"@ {
        Some(Model::PonyRealism)
    } else if s == "stable-diffusion-3.5"@ {
        Some(Model::StableDiffusion35)
    } else {
        None
    }
}

impl Model {
    /// The identifier under which the API knows this model.
    pub fn id_str(&self) -> (r: &'static str)
        ensures
            r@ == spec_model_id(*self),
    {
        match self {
            Model::DeepSeekR1_671B => "deepseek-r1-671b",
            Model::DeepSeekR1Llama70B => "deepseek-r1-llama-70b",
            Model::Dolphin292Qwen2_72B => "dolphin-2.9.2-qwen2-72b",
            Model::Llama31_405B => "llama-3.1-405b",
            Model::Llama32_3b => "llama-3.2-3b",
            Model::Llama33_70B => "llama-3.3-70b",
            Model::Qwen32B => "qwen32b",
            Model::FluentlyXL => "fluently-xl",
            Model::FluxDevUncensored => "flux-dev-uncensored",
            Model::FluxDev => "flux-dev",
            Model::LustifySDXL => "lustify-sdxl",
            Model::PonyRealism => "pony-realism",
            Model::StableDiffusion35 => "stable-diffusion-3.5",
        }
    }

    /// The catalog member for an identifier. An identifier outside the
    /// closed set is answered with `UnknownModel` carrying it, never with a
    /// halt.
    pub fn from_id(id: &str) -> (r: Result<Model, VeniceError>)
        ensures
            match r {
                Ok(m) => spec_model_of_id(id@) == Some(m),
                Err(e) => spec_model_of_id(id@) is None && (e matches VeniceError::UnknownModel(u)
                    && u@ == id@),
            },
    {
        if str_eq(id, "deepseek-r1-671b") {
            Ok(Model::DeepSeekR1_671B)
        } else if str_eq(id, "deepseek-r1-llama-70b") {
            Ok(Model::DeepSeekR1Llama70B)
        } else if str_eq(id, "dolphin-2.9.2-qwen2-72b") {
            Ok(Model::Dolphin292Qwen2_72B)
        } else if str_eq(id, "llama-3.1-405b") {
            Ok(Model::Llama31_405B)
        } else if str_eq(id, "llama-3.2-3b") {
            Ok(Model::Llama32_3b)
        } else if str_eq(id, "llama-3.3-70b") {
            Ok(Model::Llama33_70B)
        } else if str_eq(id, "qwen32b") {
            Ok(Model::Qwen32B)
        } else if str_eq(id, "fluently-xl") {
            Ok(Model::FluentlyXL)
        } else if str_eq(id, "flux-dev-uncensored") {
            Ok(Model::FluxDevUncensored)
        } else if str_eq(id, "flux-dev") {
            Ok(Model::FluxDev)
        } else if str_eq(id, "lustify-sdxl") {
            Ok(Model::LustifySDXL)
        } else if str_eq(id, "pony-realism") {
            Ok(Model::PonyRealism)
        } else if str_eq(id, "stable-diffusion-3.5") {
            Ok(Model::StableDiffusion35)
        } else {
            Err(VeniceError::UnknownModel(id.to_owned()))
        }
    }

    /// Whether this model answers text queries.
    pub fn for_text(&self) -> (r: bool)
        ensures
            r == (*self is DeepSeekR1_671B || *self is DeepSeekR1Llama70B
                || *self is Dolphin292Qwen2_72B || *self is Llama31_405B || *self is Llama32_3b
                || *self is Llama33_70B || *self is Qwen32B),
    {
        matches!(
            self,
            Model::DeepSeekR1_671B
                | Model::DeepSeekR1Llama70B
                | Model::Dolphin292Qwen2_72B
                | Model::Llama31_405B
                | Model::Llama32_3b
                | Model::Llama33_70B
                | Model::Qwen32B
        )
    }

    /// Whether this model is suited to coding.
    pub fn for_coding(&self) -> (r: bool)
        ensures
            r == (*self is Llama31_405B || *self is Qwen32B),
    {
        matches!(self, Model::Llama31_405B | Model::Qwen32B)
    }

    /// Whether this model generates images.
    pub fn for_images(&self) -> (r: bool)
        ensures
            r == (*self is FluentlyXL || *self is FluxDevUncensored || *self is FluxDev
                || *self is LustifySDXL || *self is PonyRealism || *self is StableDiffusion35),
    {
        matches!(
            self,
            Model::FluentlyXL
                | Model::FluxDevUncensored
                | Model::FluxDev
                | Model::LustifySDXL
                | Model::PonyRealism
                | Model::StableDiffusion35
        )
    }
}

/// Converting any catalog member's own identifier finds that member again.
pub proof fn lemma_catalog_round_trip(m: Model)
    ensures
        spec_model_of_id(spec_model_id(m)) == Some(m),
{
    reveal_strlit("deepseek-r1-671b");
    reveal_strlit("deepseek-r1-llama-70b");
    reveal_strlit("dolphin-2.9.2-qwen2-72b");
    reveal_strlit("llama-3.1-405b");
    reveal_strlit("llama-3.2-3b");
    reveal_strlit("llama-3.3-70b");
    reveal_strlit("qwen32b");
    reveal_strlit("fluently-xl");
    reveal_strlit("flux-dev-uncensored");
    reveal_strlit("flux-dev");
    reveal_strlit("lustify-sdxl");
    reveal_strlit("pony-realism");
    reveal_strlit("stable-diffusion-3.5");
    assert("deepseek-r1-671b"@.len() == 16);
    assert("deepseek-r1-llama-70b"@.len() == 21);
    assert("dolphin-2.9.2-qwen2-72b"@.len() == 23);
    assert("llama-3.1-405b"@.len() == 14);
    assert("llama-3.2-3b"@.len() == 12);
    assert("llama-3.3-70b"@.len() == 13);
    assert("qwen32b"@.len() == 7);
    assert("fluently-xl"@.len() == 11);
    assert("flux-dev-uncensored"@.len() == 19);
    assert("flux-dev"@.len() == 8);
    assert("lustify-sdxl"@.len() == 12);
    assert("pony-realism"@.len() == 12);
    assert("stable-diffusion-3.5"@.len() == 20);
    assert("lustify-sdxl"@[1] != "llama-3.2-3b"@[1]);
    assert("pony-realism"@[0] != "llama-3.2-3b"@[0]);
    assert("pony-realism"@[0] != "lustify-sdxl"@[0]);
    match m {
        Model::DeepSeekR1_671B => {
            assert(spec_model_of_id("deepseek-r1-671b"@) == Some(Model::DeepSeekR1_671B));
        },
        Model::DeepSeekR1Llama70B => {
            assert(spec_model_of_id("deepseek-r1-llama-70b"@) == Some(Model::DeepSeekR1Llama70B));
        },
        Model::Dolphin292Qwen2_72B => {
            assert(spec_model_of_id("dolphin-2.9.2-qwen2-72b"@) == Some(Model::Dolphin292Qwen2_72B));
        },
        Model::Llama31_405B => {
            assert(spec_model_of_id("llama-3.1-405b"@) == Some(Model::Llama31_405B));
        },
        Model::Llama32_3b => {
            assert(spec_model_of_id("llama-3.2-3b"@) == Some(Model::Llama32_3b));
        },
        Model::Llama33_70B => {
            assert(spec_model_of_id("llama-3.3-70b"@) == Some(Model::Llama33_70B));
        },
        Model::Qwen32B => {
            assert(spec_model_of_id("qwen32b"@) == Some(Model::Qwen32B));
        },
        Model::FluentlyXL => {
            assert(spec_model_of_id("fluently-xl"@) == Some(Model::FluentlyXL));
        },
        Model::FluxDevUncensored => {
            assert(spec_model_of_id("flux-dev-uncensored"@) == Some(Model::FluxDevUncensored));
        },
        Model::FluxDev => {
            assert(spec_model_of_id("flux-dev"@) == Some(Model::FluxDev));
        },
        Model::LustifySDXL => {
            assert(spec_model_of_id("lustify-sdxl"@) == Some(Model::LustifySDXL));
        },
        Model::PonyRealism => {
            assert(spec_model_of_id("pony-realism"@) == Some(Model::PonyRealism));
        },
        Model::StableDiffusion35 => {
            assert(spec_model_of_id("stable-diffusion-3.5"@) == Some(Model::StableDiffusion35));
        },
    }
}

/// What the server reports of one model's shape.
#[derive(Debug, Clone, PartialEq, Eq)]
pub struct ModelSpec {
    pub traits: Vec<String>,
    pub available_context_tokens: Option<u32>,
}

/// The mathematical shape of a [`ModelSpec`].
pub struct SpecModelSpec {
    pub traits: Seq<Seq<char>>,
    pub available_context_tokens: Option<u32>,
}

impl View for ModelSpec {
    type V = SpecModelSpec;

    open spec fn view(&self) -> SpecModelSpec {
        SpecModelSpec {
            traits: self.traits.deep_view(),
            available_context_tokens: self.available_context_tokens,
        }
    }
}

/// One server-advertised model, exactly as listed.
#[derive(Debug, Clone, PartialEq, Eq)]
pub struct VeniceModel {
    pub id: String,
    pub model_type: String,
    pub object: String,
    pub created: u64,
    pub owned_by: String,
    pub model_spec: ModelSpec,
}

/// The mathematical shape of a [`VeniceModel`].
pub struct SpecVeniceModel {
    pub id: Seq<char>,
    pub model_type: Seq<char>,
    pub object: Seq<char>,
    pub created: u64,
    pub owned_by: Seq<char>,
    pub model_spec: SpecModelSpec,
}

impl View for VeniceModel {
    type V = SpecVeniceModel;

    open spec fn view(&self) -> SpecVeniceModel {
        SpecVeniceModel {
            id: self.id@,
            model_type: self.model_type@,
            object: self.object@,
            created: self.created,
            owned_by: self.owned_by@,
            model_spec: self.model_spec@,
        }
    }
}

/// The whole answer of the model-listing endpoint.
#[derive(Debug, Clone, PartialEq, Eq)]
pub struct ModelsResponse {
    pub object: String,
    pub data: Vec<VeniceModel>,
}

/// The mathematical shape of a [`ModelsResponse`].
pub struct SpecModelsResponse {
    pub object: Seq<char>,
    pub data: Seq<SpecVeniceModel>,
}

impl View for ModelsResponse {
    type V = SpecModelsResponse;

    open spec fn view(&self) -> SpecModelsResponse {
        SpecModelsResponse {
            object: self.object@,
            data: Seq::new(self.data@.len(), |k: int| self.data@[k]@),
        }
    }
}

/// The strings of an array of JSON strings, or `None` where an element is
/// no string.
pub open spec fn spec_strings_from(es: Seq<SpecJson>) -> Option<Seq<Seq<char>>>
    decreases es.len(),
{
    if es.len() == 0 {
        Some(Seq::empty())
    } else {
        match es[0] {
            SpecJson::Str(s) => match spec_strings_from(es.drop_first()) {
                Some(rest) => Some(seq![s] + rest),
                None => None,
            },
            _ => None,
        }
    }
}

/// Reads an array of strings from element `idx` on, executable side of
/// [`spec_strings_from`].
fn strings_from_at(es: &Vec<Json>, idx: usize) -> (r: Option<Vec<String>>)
    requires
        idx <= es@.len(),
    ensures
        ({
            match (r, spec_strings_from(view_arr(es@).skip(idx as int))) {
                (Some(v), Some(sv)) => v.deep_view() == sv,
                (None, None) => true,
                _ => false,
            }
        }),
    decreases es@.len() - idx,
{
    proof {
        crate::json::lemma_view_arr(es@);
    }
    if idx == es.len() {
        proof {
            assert(view_arr(es@).skip(idx as int) =~= Seq::<SpecJson>::empty());
        }
        let out: Vec<String> = Vec::new();
        proof {
            assert(out.deep_view() =~= Seq::<Seq<char>>::empty());
        }
        Some(out)
    } else {
        proof {
            assert(view_arr(es@).skip(idx as int)[0] == view_arr(es@)[idx as int]);
            assert(view_arr(es@).skip(idx as int).drop_first() =~= view_arr(es@).skip(idx + 1));
        }
        match &es[idx] {
            Json::Str(s) => match strings_from_at(es, idx + 1) {
                Some(mut rest) => {
                    let ghost rest0 = rest.deep_view();
                    rest.insert(0, s.clone());
                    proof {
                        assert(rest.deep_view() =~= seq![s@] + rest0);
                    }
                    Some(rest)
                },
                None => None,
            },
            _ => None,
        }
    }
}

/// One model's shape, from the members of its JSON object.
pub open spec fn spec_model_spec_from(ms: Seq<(Seq<char>, SpecJson)>) -> Option<SpecModelSpec> {
    match spec_arr_field(ms, "traits"@) {
        Some(es) => match spec_strings_from(es) {
            Some(ts) => match spec_opt_u32_field(ms, "available_context_tokens"@) {
                Some(av) => Some(SpecModelSpec { traits: ts, available_context_tokens: av }),
                None => None,
            },
            None => None,
        },
        None => None,
    }
}

/// Reads one model's shape, executable side of [`spec_model_spec_from`].
fn model_spec_from(ms: &Vec<Member>) -> (r: Option<ModelSpec>)
    ensures
        ({
            match (r, spec_model_spec_from(view_members(ms@))) {
                (Some(x), Some(sx)) => x@ == sx,
                (None, None) => true,
                _ => false,
            }
        }),
{
    match arr_field(ms, "traits") {
        Some(es) => match strings_from_at(es, 0) {
            Some(ts) => {
                proof {
                    assert(view_arr(es@).skip(0) =~= view_arr(es@));
                }
                match opt_u32_field(ms, "available_context_tokens") {
                    Some(av) => Some(ModelSpec { traits: ts, available_context_tokens: av }),
                    None => None,
                }
            },
            None => None,
        },
        None => None,
    }
}

/// One server-advertised model, from a JSON value.
pub open spec fn spec_venice_model_from(v: SpecJson) -> Option<SpecVeniceModel> {
    match v {
        SpecJson::Obj(ms) => {
            match (
                spec_str_field(ms, "id"@),
                spec_str_field(ms, "type"@),
                spec_str_field(ms, "object"@),
                spec_u64_field(ms, "created"@),
                spec_str_field(ms, "owned_by"@),
                spec_sub_obj(ms, "model_spec"@),
            ) {
                (Some(id), Some(ty), Some(ob), Some(cr), Some(ow), Some(sub)) => match
                    spec_model_spec_from(sub) {
                    Some(sp) => Some(
                        SpecVeniceModel {
                            id: id,
                            model_type: ty,
                            object: ob,
                            created: cr,
                            owned_by: ow,
                            model_spec: sp,
                        },
                    ),
                    None => None,
                },
                _ => None,
            }
        },
        _ => None,
    }
}

/// Reads one server-advertised model, executable side of
/// [`spec_venice_model_from`].
fn venice_model_from(v: &Json) -> (r: Option<VeniceModel>)
    ensures
        ({
            match (r, spec_venice_model_from(v@)) {
                (Some(x), Some(sx)) => x@ == sx,
                (None, None) => true,
                _ => false,
            }
        }),
{
    match v {
        Json::Obj(ms) => {
            let id = str_field(ms, "id");
            let ty = str_field(ms, "type");
            let ob = str_field(ms, "object");
            let cr = u64_field(ms, "created");
            let ow = str_field(ms, "owned_by");
            let sub = sub_obj(ms, "model_spec");
            match (id, ty, ob, cr, ow, sub) {
                (Some(id), Some(ty), Some(ob), Some(cr), Some(ow), Some(sub)) => match
                    model_spec_from(sub) {
                    Some(sp) => Some(
                        VeniceModel {
                            id: id,
                            model_type: ty,
                            object: ob,
                            created: cr,
                            owned_by: ow,
                            model_spec: sp,
                        },
                    ),
                    None => None,
                },
                _ => None,
            }
        },
        _ => None,
    }
}

/// The models of an array of JSON values, or `None` where one is malformed.
pub open spec fn spec_models_from(es: Seq<SpecJson>) -> Option<Seq<SpecVeniceModel>>
    decreases es.len(),
{
    if es.len() == 0 {
        Some(Seq::empty())
    } else {
        match spec_venice_model_from(es[0]) {
            Some(m) => match spec_models_from(es.drop_first()) {
                Some(rest) => Some(seq![m] + rest),
                None => None,
            },
            None => None,
        }
    }
}

/// Reads the model list from element `idx` on, executable side of
/// [`spec_models_from`].
fn models_from_at(es: &Vec<Json>, idx: usize) -> (r: Option<Vec<VeniceModel>>)
    requires
        idx <= es@.len(),
    ensures
        ({
            match (r, spec_models_from(view_arr(es@).skip(idx as int))) {
                (Some(v), Some(sv)) => v@.len() == sv.len() && forall|k: int|
                    0 <= k < sv.len() ==> v@[k]@ == sv[k],
                (None, None) => true,
                _ => false,
            }
        }),
    decreases es@.len() - idx,
{
    proof {
        crate::json::lemma_view_arr(es@);
    }
    if idx == es.len() {
        proof {
            assert(view_arr(es@).skip(idx as int) =~= Seq::<SpecJson>::empty());
        }
        Some(Vec::new())
    } else {
        proof {
            assert(view_arr(es@).skip(idx as int)[0] == view_arr(es@)[idx as int]);
            assert(view_arr(es@).skip(idx as int).drop_first() =~= view_arr(es@).skip(idx + 1));
        }
        match venice_model_from(&es[idx]) {
            Some(m) => match models_from_at(es, idx + 1) {
                Some(mut rest) => {
                    rest.insert(0, m);
                    Some(rest)
                },
                None => None,
            },
            None => None,
        }
    }
}

/// The whole listing, from a JSON value.
pub open spec fn spec_models_response_from(v: SpecJson) -> Option<SpecModelsResponse> {
    match v {
        SpecJson::Obj(ms) => match (spec_str_field(ms, "object"@), spec_arr_field(ms, "data"@)) {
            (Some(ob), Some(es)) => match spec_models_from(es) {
                Some(models) => Some(SpecModelsResponse { object: ob, data: models }),
                None => None,
            },
            _ => None,
        },
        _ => None,
    }
}

/// The listing read out of a whole document, or `None` where the text is
/// not a well-formed listing.
pub open spec fn spec_parse_models_response(text: Seq<char>) -> Option<SpecModelsResponse> {
    match spec_document(text) {
        Some(v) => spec_models_response_from(v),
        None => None,
    }
}

/// The identifiers of a listing's entries, one for each entry, in the
/// listing's own order.
pub open spec fn spec_model_ids(r: SpecModelsResponse) -> Seq<Seq<char>> {
    Seq::new(r.data.len(), |k: int| r.data[k].id)
}

impl ModelsResponse {
    /// Reads a listing out of the endpoint's response text. The one error,
    /// `Decode`, comes exactly on text that is not a well-formed listing.
    pub fn parse(text: &str) -> (r: Result<ModelsResponse, VeniceError>)
        ensures
            match r {
                Ok(resp) => spec_parse_models_response(text@) == Some(resp@),
                Err(e) => spec_parse_models_response(text@) is None && e == VeniceError::Decode,
            },
    {
        match parse_text(text) {
            Some(v) => match &v {
                Json::Obj(ms) => {
                    let ob = str_field(ms, "object");
                    let es = arr_field(ms, "data");
                    match (ob, es) {
                        (Some(ob), Some(es)) => match models_from_at(es, 0) {
                            Some(models) => {
                                proof {
                                    assert(view_arr(es@).skip(0) =~= view_arr(es@));
                                }
                                let resp = ModelsResponse { object: ob, data: models };
                                proof {
                                    let sresp = spec_models_response_from(v@)->0;
                                    assert(resp@.data =~= sresp.data);
                                }
                                Ok(resp)
                            },
                            None => Err(VeniceError::Decode),
                        },
                        _ => Err(VeniceError::Decode),
                    }
                },
                _ => Err(VeniceError::Decode),
            },
            None => Err(VeniceError::Decode),
        }
    }

    /// The identifiers of the listed models, one for each entry, in the
    /// order the server gave them.
    pub fn model_ids(&self) -> (r: Vec<String>)
        ensures
            r.deep_view() == spec_model_ids(self@),
            r@.len() == self.data@.len(),
            forall|k: int| 0 <= k < r@.len() ==> r@[k]@ == self.data@[k].id@,
    {
        let mut out: Vec<String> = Vec::new();
        let n = self.data.len();
        let mut i: usize = 0;
        while i < n
            invariant
                n == self.data@.len(),
                i <= n,
                out@.len() == i,
                forall|k: int| 0 <= k < i ==> out@[k]@ == self.data@[k].id@,
            decreases n - i,
        {
            out.push(self.data[i].id.clone());
            i = i + 1;
        }
        proof {
            assert(out.deep_view() =~= spec_model_ids(self@));
        }
        out
    }

    /// Whether some listed model carries exactly this identifier: true
    /// just where the identifier is a member of [`spec_model_ids`], so of
    /// what [`ModelsResponse::model_ids`] returns. Nothing but an exact
    /// character-for-character match counts.
    pub fn has_model(&self, model_id: &str) -> (r: bool)
        ensures
            r == spec_model_ids(self@).contains(model_id@),
    {
        let n = self.data.len();
        let mut i: usize = 0;
        while i < n
            invariant
                n == self.data@.len(),
                i <= n,
                forall|k: int| 0 <= k < i ==> self.data@[k].id@ != model_id@,
            decreases n - i,
        {
            if str_eq(self.data[i].id.as_str(), model_id) {
                proof {
                    assert(spec_model_ids(self@)[i as int] == model_id@);
                }
                return true;
            }
            i = i + 1;
        }
        proof {
            assert(forall|k: int|
                0 <= k < spec_model_ids(self@).len() ==> spec_model_ids(self@)[k]
                    != model_id@);
        }
        false
    }

    /// Every listed model as a catalog member, in listing order; the first
    /// identifier outside the catalog is the error, and there is one
    /// exactly when the result is an error.
    pub fn models(&self) -> (r: Result<Vec<Model>, VeniceError>)
        ensures
            match r {
                Ok(v) => v@.len() == self.data@.len() && forall|k: int|
                    0 <= k < v@.len() ==> spec_model_of_id(self.data@[k].id@) == Some(v@[k]),
                Err(e) => e matches VeniceError::UnknownModel(u) && exists|k: int|
                    0 <= k < self.data@.len() && spec_model_of_id(self.data@[k].id@) is None && u@
                        == self.data@[k].id@,
            },
    {
        let mut out: Vec<Model> = Vec::new();
        let n = self.data.len();
        let mut i: usize = 0;
        while i < n
            invariant
                n == self.data@.len(),
                i <= n,
                out@.len() == i,
                forall|k: int|
                    0 <= k < i ==> spec_model_of_id(self.data@[k].id@) == Some(out@[k]),
            decreases n - i,
        {
            match Model::from_id(self.data[i].id.as_str()) {
                Ok(m) => out.push(m),
                Err(e) => {
                    return Err(e);
                },
            }
            i = i + 1;
        }
        Ok(out)
    }
}


/// Whether some response text reads, by [`spec_parse_models_response`], to
/// exactly this listing: what the endpoint methods below promise of every
/// listing they hand out.
pub open spec fn wire_listing(sr: SpecModelsResponse) -> bool {
    exists|t: Seq<char>| spec_parse_models_response(t) == Some(sr)
}

impl crate::API {
    /// Fetches the model listing. The reply is read by
    /// [`ModelsResponse::parse`]; a malformed one is a `Decode` error,
    /// never a halt.
    pub fn api_models(&self) -> (r: Result<ModelsResponse, VeniceError>)
        ensures
            r matches Ok(resp) ==> wire_listing(resp@),
            r matches Err(e) ==> !(e matches VeniceError::UnknownModel(_)),
    {
        match self.call("models") {
            Ok(text) => {
                let parsed = ModelsResponse::parse(text.as_str());
                proof {
                    if parsed is Ok {
                        assert(spec_parse_models_response(text@) == Some(parsed->Ok_0@));
                        assert(wire_listing(parsed->Ok_0@));
                    }
                }
                parsed
            },
            Err(e) => Err(e),
        }
    }

    /// Fetches the listing and hands back its identifiers: exactly
    /// [`spec_model_ids`] of a wire listing, one for each listed model, in
    /// the server's order.
    pub fn model_ids(&self) -> (r: Result<Vec<String>, VeniceError>)
        ensures
            r matches Ok(ids) ==> exists|sr: SpecModelsResponse|
                #[trigger] wire_listing(sr) && ids.deep_view() == spec_model_ids(sr),
            r matches Err(e) ==> !(e matches VeniceError::UnknownModel(_)),
    {
        match self.api_models() {
            Ok(resp) => {
                let ids = resp.model_ids();
                proof {
                    assert(wire_listing(resp@) && ids.deep_view() == spec_model_ids(resp@));
                }
                Ok(ids)
            },
            Err(e) => Err(e),
        }
    }

    /// Whether the server lists exactly this identifier: membership in
    /// [`spec_model_ids`] of a wire listing, by
    /// [`ModelsResponse::has_model`]'s match.
    pub fn has_model(&self, model_id: &str) -> (r: Result<bool, VeniceError>)
        ensures
            r matches Ok(b) ==> exists|sr: SpecModelsResponse|
                #[trigger] wire_listing(sr) && b == spec_model_ids(sr).contains(model_id@),
            r matches Err(e) ==> !(e matches VeniceError::UnknownModel(_)),
    {
        match self.api_models() {
            Ok(resp) => {
                let found = resp.has_model(model_id);
                proof {
                    assert(wire_listing(resp@) && found == spec_model_ids(resp@).contains(
                        model_id@,
                    ));
                }
                Ok(found)
            },
            Err(e) => Err(e),
        }
    }

    /// Fetches the listing and maps every identifier through the catalog:
    /// on success, each member of the result is the catalog member of the
    /// corresponding identifier of a wire listing; an identifier outside
    /// the catalog is an `UnknownModel` error carrying it, never a halt.
    pub fn models(&self) -> (r: Result<Vec<Model>, VeniceError>)
        ensures
            r matches Ok(v) ==> exists|sr: SpecModelsResponse|
                #[trigger] wire_listing(sr) && v@.len() == sr.data.len() && (forall|k: int|
                    0 <= k < v@.len() ==> spec_model_of_id(sr.data[k].id) == Some(v@[k])),
            r matches Err(e) ==> (e matches VeniceError::UnknownModel(u) ==> exists|
                sr: SpecModelsResponse,
            |
                #[trigger] wire_listing(sr) && (exists|k: int|
                    0 <= k < sr.data.len() && spec_model_of_id(sr.data[k].id) is None && u@
                        == sr.data[k].id)),
    {
        match self.api_models() {
            Ok(resp) => {
                let out = resp.models();
                proof {
                    match &out {
                        Ok(v) => {
                            assert(wire_listing(resp@) && v@.len() == resp@.data.len() && (forall|
                                k: int,
                            |
                                0 <= k < v@.len() ==> spec_model_of_id(resp@.data[k].id) == Some(
                                    v@[k],
                                )));
                        },
                        Err(e) => {
                            let u = e->UnknownModel_0;
                            let k0 = choose|k: int|
                                0 <= k < resp.data@.len() && spec_model_of_id(resp.data@[k].id@)
                                    is None && u@ == resp.data@[k].id@;
                            assert(0 <= k0 < resp@.data.len() && spec_model_of_id(
                                resp@.data[k0].id,
                            ) is None && u@ == resp@.data[k0].id);
                            assert(wire_listing(resp@) && (exists|k: int|
                                0 <= k < resp@.data.len() && spec_model_of_id(resp@.data[k].id)
                                    is None && u@ == resp@.data[k].id));
                        },
                    }
                }
                out
            },
            Err(e) => Err(e),
        }
    }
}

} // verus!

