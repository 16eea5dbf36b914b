//! The model router: which capabilities a request needs, in which order the
//! providers are tried, which model of a provider is chosen, and the finite
//! fallback chain that ends in a decision or an explicit failure.

use vstd::prelude::*;
use crate::error::{ErrorKind, ErrorView, ObError, err_of};
use crate::providers::ModelInfo;
use crate::web::{endpoint_is_loopback, is_loopback_url};
use crate::text::{
    chars_of, concat, contains, contains_str, first_index, has_text, join, joined, lowercase, owned,
    to_lower, views_of,
};

verus! {

/// The outcome of routing: provider, model, why, what was required, and
/// every `provider:model` pair tried on the way.
pub struct RouteDecision {
    pub provider_id: String,
    pub model: String,
    pub reason: String,
    pub required_capabilities: Vec<String>,
    pub fallback_chain: Vec<String>,
}

/// What routing needs to know before any provider is asked.
pub struct RoutePlan {
    pub private: bool,
    pub required: Vec<String>,
    pub order: Vec<String>,
}

/// A request is private when Local Only is on or the text asks for privacy.
pub open spec fn is_private(lower: Seq<char>, local_only: bool) -> bool {
    ||| local_only
    ||| contains(lower, "private"@)
    ||| contains(lower, "confidential"@)
    ||| contains(lower, "secret"@)
    ||| contains(lower, "local only"@)
}

/// A request needs vision when it has attachments or speaks of images.
pub open spec fn wants_vision(lower: Seq<char>, has_attachments: bool) -> bool {
    ||| has_attachments
    ||| contains(lower, "screen"@)
    ||| contains(lower, "image"@)
    ||| contains(lower, "photo"@)
    ||| contains(lower, "screenshot"@)
}

/// A request needs a coding model when it speaks of code.
pub open spec fn wants_coding(lower: Seq<char>) -> bool {
    ||| contains(lower, "code"@)
    ||| contains(lower, "rust"@)
    ||| contains(lower, "typescript"@)
    ||| contains(lower, "debug"@)
    ||| contains(lower, "build"@)
    ||| contains(lower, "repository"@)
}

/// A request needs tool calling when it asks for an action.
pub open spec fn wants_tools(lower: Seq<char>) -> bool {
    ||| contains(lower, "tool"@)
    ||| contains(lower, "open "@)
    ||| contains(lower, "create "@)
    ||| contains(lower, "organize"@)
    ||| contains(lower, "run "@)
}

/// `s` if `b`, else nothing.
pub open spec fn when(b: bool, s: Seq<Seq<char>>) -> Seq<Seq<char>> {
    if b {
        s
    } else {
        Seq::empty()
    }
}

/// The capabilities a request needs: chat always, then vision, coding and
/// tool calling as the request asks for them.
pub open spec fn required_caps(lower: Seq<char>, has_attachments: bool) -> Seq<Seq<char>> {
    seq!["chat"@] + when(wants_vision(lower, has_attachments), seq!["vision"@]) + when(
        wants_coding(lower),
        seq!["coding"@],
    ) + when(wants_tools(lower), seq!["tool_calling"@])
}

/// The order in which providers are tried: private requests only local
/// providers; vision first Gemini; coding local first; otherwise Ollama,
/// then Gemini, then an OpenAI-compatible endpoint.
pub open spec fn provider_order(private: bool, vision: bool, coding: bool) -> Seq<Seq<char>> {
    if private {
        seq!["ollama"@, "openai-compatible"@]
    } else if vision {
        seq!["gemini"@, "ollama"@, "openai-compatible"@]
    } else if coding {
        seq!["ollama"@, "openai-compatible"@, "gemini"@]
    } else {
        seq!["ollama"@, "gemini"@, "openai-compatible"@]
    }
}

/// Works out privacy, the required capabilities and the provider order of a request.
pub fn plan_route(text: &str, attachments: &Vec<String>, local_only: bool) -> (r: RoutePlan)
    ensures
        r.private == is_private(lowercase(text@), local_only),
        views_of(r.required@) == required_caps(lowercase(text@), attachments.len() > 0),
        views_of(r.order@) == provider_order(
            is_private(lowercase(text@), local_only),
            wants_vision(lowercase(text@), attachments.len() > 0),
            wants_coding(lowercase(text@)),
        ),
{
    let lower_s = to_lower(text);
    let lower = chars_of(lower_s.as_str());
    let private = local_only || contains_str(&lower, "private") || contains_str(&lower, "confidential")
        || contains_str(&lower, "secret") || contains_str(&lower, "local only");
    let vision = attachments.len() > 0 || contains_str(&lower, "screen") || contains_str(&lower, "image")
        || contains_str(&lower, "photo") || contains_str(&lower, "screenshot");
    let coding = contains_str(&lower, "code") || contains_str(&lower, "rust") || contains_str(
        &lower,
        "typescript",
    ) || contains_str(&lower, "debug") || contains_str(&lower, "build") || contains_str(
        &lower,
        "repository",
    );
    let tools = contains_str(&lower, "tool") || contains_str(&lower, "open ") || contains_str(
        &lower,
        "create ",
    ) || contains_str(&lower, "organize") || contains_str(&lower, "run ");
    let mut required: Vec<String> = Vec::new();
    required.push(owned("chat"));
    if vision {
        required.push(owned("vision"));
    }
    if coding {
        required.push(owned("coding"));
    }
    if tools {
        required.push(owned("tool_calling"));
    }
    let mut order: Vec<String> = Vec::new();
    if private {
        order.push(owned("ollama"));
        order.push(owned("openai-compatible"));
    } else if vision {
        order.push(owned("gemini"));
        order.push(owned("ollama"));
        order.push(owned("openai-compatible"));
    } else if coding {
        order.push(owned("ollama"));
        order.push(owned("openai-compatible"));
        order.push(owned("gemini"));
    } else {
        order.push(owned("ollama"));
        order.push(owned("gemini"));
        order.push(owned("openai-compatible"));
    }
    assert(views_of(required@) =~= required_caps(lowercase(text@), attachments.len() > 0));
    assert(views_of(order@) =~= provider_order(private, vision, coding));
    RoutePlan { private, required, order }
}

/// A model offers every required capability; chat is assumed of every model.
pub open spec fn satisfies(m: ModelInfo, required: Seq<Seq<char>>) -> bool {
    forall|i: int|
        0 <= i < required.len() ==> (#[trigger] required[i]) == "chat"@ || views_of(
            m.capabilities@,
        ).contains(required[i])
}

/// Positions of models with this identifier.
pub open spec fn with_id(models: Seq<ModelInfo>, id: Seq<char>) -> spec_fn(int) -> bool {
    |k: int| models[k].id@ == id
}

/// Positions of models that satisfy the request.
pub open spec fn capable(models: Seq<ModelInfo>, required: Seq<Seq<char>>) -> spec_fn(int) -> bool {
    |k: int| satisfies(models[k], required)
}

/// The model a provider contributes: its active model when that is
/// installed, else its first model that satisfies the request, else its
/// first model, if it has any.
pub open spec fn chosen_model(active: Option<Seq<char>>, models: Seq<ModelInfo>, required: Seq<Seq<char>>) -> Option<int> {
    let by_active = match active {
        Some(a) => first_index(models.len() as int, with_id(models, a)),
        None => None,
    };
    match by_active {
        Some(k) => Some(k),
        None => match first_index(models.len() as int, capable(models, required)) {
            Some(k) => Some(k),
            None => if models.len() > 0 {
                Some(0)
            } else {
                None
            },
        },
    }
}

/// The reason given for a decision.
pub open spec fn route_reason(private: bool, required: Seq<Seq<char>>) -> Seq<char> {
    if private {
        "Private/local-only routing"@
    } else {
        "Capability match: "@ + joined(required, ", "@)
    }
}

/// Whether `m` offers every required capability.
fn model_satisfies(m: &ModelInfo, required: &Vec<String>) -> (r: bool)
    ensures
        r == satisfies(*m, views_of(required@)),
{
    let chat = chars_of("chat");
    let mut i: usize = 0;
    while i < required.len()
        invariant
            i <= required.len(),
            chat@ == "chat"@,
            forall|j: int|
                0 <= j < i ==> (#[trigger] views_of(required@)[j]) == "chat"@ || views_of(
                    m.capabilities@,
                ).contains(views_of(required@)[j]),
        decreases required.len() - i,
    {
        let cap = chars_of(required[i].as_str());
        if !crate::text::same_chars(&cap, &chat) && !has_text(&m.capabilities, &cap) {
            assert(views_of(required@)[i as int] == cap@);
            return false;
        }
        i = i + 1;
    }
    true
}

/// The index of the model with this identifier, if installed.
fn find_model(models: &Vec<ModelInfo>, id: &str) -> (r: Option<usize>)
    ensures
        r matches Some(k) ==> k < models@.len() && first_index(models@.len() as int, with_id(models@, id@)) == Some(k as int),
        r is None ==> first_index(models@.len() as int, with_id(models@, id@)) is None,
{
    let want = chars_of(id);
    let ghost p = with_id(models@, id@);
    let mut i: usize = 0;
    while i < models.len()
        invariant
            i <= models.len(),
            want@ == id@,
            p == with_id(models@, id@),
            forall|j: int| 0 <= j < i ==> !#[trigger] p(j),
        decreases models.len() - i,
    {
        let have = chars_of(models[i].id.as_str());
        if crate::text::same_chars(&have, &want) {
            proof {
                crate::text::lemma_first_index_is(models@.len() as int, p, i as int);
            }
            return Some(i);
        }
        i = i + 1;
    }
    proof {
        crate::text::lemma_first_index_none(models@.len() as int, p);
    }
    None
}

/// The index of the first model that satisfies the request, if any.
fn first_satisfying(models: &Vec<ModelInfo>, required: &Vec<String>) -> (r: Option<usize>)
    ensures
        r matches Some(k) ==> k < models@.len() && first_index(models@.len() as int, capable(models@, views_of(required@))) == Some(k as int),
        r is None ==> first_index(models@.len() as int, capable(models@, views_of(required@))) is None,
{
    let ghost p = capable(models@, views_of(required@));
    let mut i: usize = 0;
    while i < models.len()
        invariant
            i <= models.len(),
            p == capable(models@, views_of(required@)),
            forall|j: int| 0 <= j < i ==> !#[trigger] p(j),
        decreases models.len() - i,
    {
        if model_satisfies(&models[i], required) {
            proof {
                crate::text::lemma_first_index_is(models@.len() as int, p, i as int);
            }
            return Some(i);
        }
        i = i + 1;
    }
    proof {
        crate::text::lemma_first_index_none(models@.len() as int, p);
    }
    None
}

/// The spec view of an optional text.
pub open spec fn opt_view(a: Option<&str>) -> Option<Seq<char>> {
    match a {
        Some(t) => Some(t@),
        None => None,
    }
}

/// Picks the model a provider contributes (see `chosen_model`).
fn choose_model(active_model: Option<&str>, models: &Vec<ModelInfo>, required: &Vec<String>) -> (r: Option<usize>)
    ensures
        r matches Some(k) ==> k < models@.len() && chosen_model(opt_view(active_model), models@, views_of(required@)) == Some(k as int),
        r is None ==> chosen_model(opt_view(active_model), models@, views_of(required@)) is None,
{
    let by_active = match active_model {
        Some(a) => find_model(models, a),
        None => None,
    };
    match by_active {
        Some(k) => Some(k),
        None => match first_satisfying(models, required) {
            Some(k) => Some(k),
            None => if models.len() > 0 {
                Some(0)
            } else {
                None
            },
        },
    }
}

/// A copy of a list of strings.
fn copy_strings(v: &Vec<String>) -> (r: Vec<String>)
    ensures
        views_of(r@) == views_of(v@),
{
    let mut out: Vec<String> = Vec::new();
    let mut i: usize = 0;
    while i < v.len()
        invariant
            i <= v.len(),
            views_of(out@) == views_of(v@).subrange(0, i as int),
        decreases v.len() - i,
    {
        let ghost prev = views_of(out@);
        out.push(v[i].clone());
        assert(views_of(out@) =~= prev.push(v@[i as int]@));
        assert(views_of(v@).subrange(0, i + 1) =~= views_of(v@).subrange(0, i as int).push(v@[i as int]@));
        i = i + 1;
    }
    assert(views_of(v@).subrange(0, v.len() as int) =~= views_of(v@));
    out
}

/// The reason given for a decision under this plan.
fn reason_for(plan: &RoutePlan) -> (r: String)
    ensures
        r@ == route_reason(plan.private, views_of(plan.required@)),
{
    if plan.private {
        owned("Private/local-only routing")
    } else {
        let list = join(&plan.required, ", ");
        concat("Capability match: ", list.as_str())
    }
}

/// A provider's endpoint may serve the request: private and Local Only
/// requests go only to endpoints on this machine; others go anywhere.
pub open spec fn endpoint_admitted(private: bool, endpoint: Seq<char>) -> bool {
    !private || is_loopback_url(endpoint)
}

/// Whether routing asks a provider for its models at all: it must be
/// enabled, and a private request asks only providers on this machine.
pub fn provider_eligible(plan: &RoutePlan, enabled: bool, endpoint: &str) -> (r: bool)
    ensures
        r == (enabled && endpoint_admitted(plan.private, endpoint@)),
{
    enabled && (!plan.private || endpoint_is_loopback(endpoint))
}

/// One step of routing: provider `id`, enabled, reached at `endpoint` and
/// with the listed models, is considered. A private request skips a provider
/// whose endpoint is not on this machine. Otherwise, when the provider
/// contributes a model, `id:model` joins the fallback chain; when that model
/// satisfies the request, the decision is returned.
pub fn consider_provider(
    plan: &RoutePlan,
    id: &str,
    endpoint: &str,
    active_model: Option<&str>,
    models: &Vec<ModelInfo>,
    fallback: &mut Vec<String>,
) -> (r: Option<RouteDecision>)
    ensures
        r is Some && plan.private ==> is_loopback_url(endpoint@),
        !endpoint_admitted(plan.private, endpoint@) ==> final(fallback)@ == old(fallback)@ && r is None,
        endpoint_admitted(plan.private, endpoint@) ==> ({
            let chosen = chosen_model(opt_view(active_model), models@, views_of(plan.required@));
            match chosen {
                None => final(fallback)@ == old(fallback)@ && r is None,
                Some(k) => {
                    &&& 0 <= k < models@.len()
                    &&& views_of(final(fallback)@) == views_of(old(fallback)@).push(
                        id@ + ":"@ + models@[k].id@,
                    )
                    &&& (r is Some <==> satisfies(models@[k], views_of(plan.required@)))
                    &&& (r matches Some(d) ==> {
                        &&& d.provider_id@ == id@
                        &&& d.model@ == models@[k].id@
                        &&& d.reason@ == route_reason(plan.private, views_of(plan.required@))
                        &&& views_of(d.required_capabilities@) == views_of(plan.required@)
                        &&& views_of(d.fallback_chain@) == views_of(final(fallback)@)
                    })
                },
            }
        }),
{
    if plan.private && !endpoint_is_loopback(endpoint) {
        return None;
    }
    match choose_model(active_model, models, &plan.required) {
        None => None,
        Some(k) => {
            let with_colon = concat(id, ":");
            let entry = concat(with_colon.as_str(), models[k].id.as_str());
            let ghost before = views_of(fallback@);
            fallback.push(entry);
            assert(views_of(fallback@) =~= before.push(id@ + ":"@ + models@[k as int].id@));
            if model_satisfies(&models[k], &plan.required) {
                Some(
                    RouteDecision {
                        provider_id: owned(id),
                        model: models[k].id.clone(),
                        reason: reason_for(plan),
                        required_capabilities: copy_strings(&plan.required),
                        fallback_chain: copy_strings(fallback),
                    },
                )
            } else {
                None
            }
        },
    }
}

/// The failure reported when no enabled provider offers a suitable model.
pub fn no_route(plan: &RoutePlan) -> (e: ObError)
    ensures
        e@ == err_of(
            ErrorKind::RequiresConfiguration,
            "No enabled model satisfies: "@ + joined(views_of(plan.required@), ", "@)
                + ". Configure Ollama, Gemini, or an OpenAI-compatible endpoint."@,
        ),
{
    let list = join(&plan.required, ", ");
    let head = concat("No enabled model satisfies: ", list.as_str());
    let text = concat(head.as_str(), ". Configure Ollama, Gemini, or an OpenAI-compatible endpoint.");
    ObError::RequiresConfiguration(text)
}

/// Private and Local Only requests are only ever offered to local providers:
/// Gemini, the cloud provider, is never in their order.
pub proof fn law_private_requests_stay_local(lower: Seq<char>, local_only: bool, has_attachments: bool)
    requires
        is_private(lower, local_only),
    ensures
        !provider_order(
            is_private(lower, local_only),
            wants_vision(lower, has_attachments),
            wants_coding(lower),
        ).contains("gemini"@),
{
    reveal_strlit("gemini");
    reveal_strlit("ollama");
    reveal_strlit("openai-compatible");
    let o = seq!["ollama"@, "openai-compatible"@];
    assert(o[0] != "gemini"@) by {
        assert(o[0][0] != "gemini"@[0]);
    }
    assert(o[1] != "gemini"@) by {
        assert(o[1][0] != "gemini"@[0]);
    }
}

/// Local Only makes every request private.
pub proof fn law_local_only_is_private(lower: Seq<char>)
    ensures
        is_private(lower, true),
{
}

/// Every request requires chat first, and each provider is tried at most once.
pub proof fn law_required_starts_with_chat(lower: Seq<char>, has_attachments: bool)
    ensures
        required_caps(lower, has_attachments)[0] == "chat"@,
        required_caps(lower, has_attachments).len() >= 1,
        provider_order(is_private(lower, false), wants_vision(lower, has_attachments), wants_coding(lower)).len() <= 3,
{
}

proof fn lemma_one_contains(b: bool, x: Seq<char>, y: Seq<char>)
    ensures
        (when(b, seq![x])).contains(y) <==> (b && x == y),
{
    vstd::seq_lib::lemma_seq_contains_after_push(Seq::<Seq<char>>::empty(), x, y);
    vstd::seq_lib::lemma_seq_empty_contains_nothing(y);
}

/// What a request needs and where it is sent follow from its words. It
/// always needs chat; it needs vision exactly when it has attachments or
/// speaks of a screen, an image, a photo or a screenshot; coding exactly
/// when it speaks of code, Rust, TypeScript, debugging, a build or a
/// repository; tool calling exactly when it speaks of a tool or asks to
/// open, create, organize or run something. It is private exactly under
/// Local Only or when it speaks of something private, confidential, secret
/// or local only. Private requests try Ollama then an OpenAI-compatible
/// endpoint; vision requests Gemini first; coding requests the local
/// providers first; all others Ollama, then Gemini, then an
/// OpenAI-compatible endpoint.
pub proof fn law_route_plan_follows_the_words(text: Seq<char>, has_attachments: bool, local_only: bool)
    ensures
        ({
            let l = lowercase(text);
            let private = local_only || contains(l, "private"@) || contains(l, "confidential"@)
                || contains(l, "secret"@) || contains(l, "local only"@);
            let vision = has_attachments || contains(l, "screen"@) || contains(l, "image"@)
                || contains(l, "photo"@) || contains(l, "screenshot"@);
            let coding = contains(l, "code"@) || contains(l, "rust"@) || contains(l, "typescript"@)
                || contains(l, "debug"@) || contains(l, "build"@) || contains(l, "repository"@);
            let tools = contains(l, "tool"@) || contains(l, "open "@) || contains(l, "create "@)
                || contains(l, "organize"@) || contains(l, "run "@);
            let required = required_caps(l, has_attachments);
            let order = provider_order(is_private(l, local_only), wants_vision(l, has_attachments), wants_coding(l));
            &&& required[0] == "chat"@
            &&& (required.contains("vision"@) <==> vision)
            &&& (required.contains("coding"@) <==> coding)
            &&& (required.contains("tool_calling"@) <==> tools)
            &&& (is_private(l, local_only) <==> private)
            &&& (private ==> order == seq!["ollama"@, "openai-compatible"@])
            &&& (!private && vision ==> order == seq!["gemini"@, "ollama"@, "openai-compatible"@])
            &&& (!private && !vision && coding ==> order == seq!["ollama"@, "openai-compatible"@, "gemini"@])
            &&& (!private && !vision && !coding ==> order == seq!["ollama"@, "gemini"@, "openai-compatible"@])
        }),
{
    reveal_strlit("chat");
    reveal_strlit("vision");
    reveal_strlit("coding");
    reveal_strlit("tool_calling");
    let l = lowercase(text);
    let v = wants_vision(l, has_attachments);
    let c = wants_coding(l);
    let t = wants_tools(l);
    assert("chat"@ != "vision"@) by { assert("chat"@.len() != "vision"@.len()); }
    assert("chat"@ != "coding"@) by { assert("chat"@.len() != "coding"@.len()); }
    assert("chat"@ != "tool_calling"@) by { assert("chat"@.len() != "tool_calling"@.len()); }
    assert("vision"@ != "coding"@) by { assert("vision"@[0] != "coding"@[0]); }
    assert("vision"@ != "tool_calling"@) by { assert("vision"@.len() != "tool_calling"@.len()); }
    assert("coding"@ != "tool_calling"@) by { assert("coding"@.len() != "tool_calling"@.len()); }
    let a = seq!["chat"@];
    let b = when(v, seq!["vision"@]);
    let d = when(c, seq!["coding"@]);
    let e = when(t, seq!["tool_calling"@]);
    assert(required_caps(l, has_attachments) == a + b + d + e);
    assert((a + b + d + e)[0] == "chat"@);
    let names = seq!["vision"@, "coding"@, "tool_calling"@];
    assert forall|y: Seq<char>| names.contains(y) implies ((a + b + d + e).contains(y) <==> (v && y == "vision"@) || (c && y == "coding"@) || (t && y == "tool_calling"@)) by {
        vstd::seq_lib::lemma_seq_concat_contains_all_elements(a + b + d, e, y);
        vstd::seq_lib::lemma_seq_concat_contains_all_elements(a + b, d, y);
        vstd::seq_lib::lemma_seq_concat_contains_all_elements(a, b, y);
        lemma_one_contains(true, "chat"@, y);
        assert(a == when(true, seq!["chat"@]));
        lemma_one_contains(v, "vision"@, y);
        lemma_one_contains(c, "coding"@, y);
        lemma_one_contains(t, "tool_calling"@, y);
    }
    assert(names[0] == "vision"@ && names[1] == "coding"@ && names[2] == "tool_calling"@);
    assert(names.contains("vision"@) && names.contains("coding"@) && names.contains("tool_calling"@));
}

} // verus!
