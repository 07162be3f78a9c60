//! Providers: the OpenRouter model catalog narrowed to first-class vendors
//! and sorted by id, and the choice of the provider that serves a one-off
//! request.

use vstd::prelude::*;

use crate::errors::{api_error, api_error_msg, ApiError};
use crate::order::{chars_lt, lemma_seq_lt_total, lemma_seq_lt_transitive, seq_lt};
use crate::text::{chars_of, concat3, starts_with, starts_with_chars};

verus! {

/// One model of the catalog.
#[derive(Debug, Clone)]
pub struct OpenRouterModel {
    pub id: String,
    pub name: String,
}

/// The catalog answer.
#[derive(Debug, Clone)]
pub struct OpenRouterModelsResponse {
    pub models: Vec<OpenRouterModel>,
}

/// A model as the upstream catalog lists it.
#[derive(Debug)]
pub struct UpstreamModel {
    pub id: String,
    pub name: Option<String>,
}

/// Vendor prefixes of the first-class providers.
pub open spec fn first_class_vendors() -> Seq<Seq<char>> {
    seq!["openai/"@, "anthropic/"@, "google/"@, "perplexity/"@, "x-ai/"@, "mistralai/"@]
}

/// A model id of a first-class vendor.
pub open spec fn is_first_class(id: Seq<char>) -> bool {
    exists|i: int| 0 <= i < first_class_vendors().len() && starts_with(id, #[trigger] first_class_vendors()[i])
}

/// The first-class vendor prefixes, written out.
pub open spec fn has_first_class_prefix(id: Seq<char>) -> bool {
    ||| starts_with(id, "openai/"@)
    ||| starts_with(id, "anthropic/"@)
    ||| starts_with(id, "google/"@)
    ||| starts_with(id, "perplexity/"@)
    ||| starts_with(id, "x-ai/"@)
    ||| starts_with(id, "mistralai/"@)
}

/// Law: a model id is first-class exactly when it starts with one of
/// `openai/`, `anthropic/`, `google/`, `perplexity/`, `x-ai/`, `mistralai/`.
pub proof fn lemma_first_class_prefixes(id: Seq<char>)
    ensures
        is_first_class(id) == has_first_class_prefix(id),
{
    let v = first_class_vendors();
    assert(v[0] == "openai/"@);
    assert(v[1] == "anthropic/"@);
    assert(v[2] == "google/"@);
    assert(v[3] == "perplexity/"@);
    assert(v[4] == "x-ai/"@);
    assert(v[5] == "mistralai/"@);
    if has_first_class_prefix(id) {
        if starts_with(id, "openai/"@) {
            assert(starts_with(id, v[0]));
        } else if starts_with(id, "anthropic/"@) {
            assert(starts_with(id, v[1]));
        } else if starts_with(id, "google/"@) {
            assert(starts_with(id, v[2]));
        } else if starts_with(id, "perplexity/"@) {
            assert(starts_with(id, v[3]));
        } else if starts_with(id, "x-ai/"@) {
            assert(starts_with(id, v[4]));
        } else {
            assert(starts_with(id, v[5]));
        }
    }
}

/// Whether `id` belongs to a first-class vendor.
pub fn first_class(id: &str) -> (r: bool)
    ensures
        r == is_first_class(id@),
        r == has_first_class_prefix(id@),
{
    proof {
        lemma_first_class_prefixes(id@);
    }
    let v = chars_of(id);
    let prefixes: [&str; 6] = ["openai/", "anthropic/", "google/", "perplexity/", "x-ai/", "mistralai/"];
    let mut i: usize = 0;
    while i < 6
        invariant
            i <= 6,
            v@ == id@,
            forall|k: int| 0 <= k < 6 ==> (#[trigger] prefixes@[k])@ == first_class_vendors()[k],
            forall|k: int| 0 <= k < i ==> !starts_with(id@, #[trigger] first_class_vendors()[k]),
        decreases 6 - i,
    {
        let p = chars_of(prefixes[i]);
        if starts_with_chars(&v, &p) {
            assert(starts_with(id@, first_class_vendors()[i as int]));
            return true;
        }
        i = i + 1;
    }
    false
}

/// Item `i` of `ids` comes before item `j` in ascending id order, items with
/// the same id in their original order.
pub open spec fn id_before(ids: Seq<Seq<char>>, i: int, j: int) -> bool {
    seq_lt(ids[i], ids[j]) || (ids[i] == ids[j] && i < j)
}

/// The order that sorts `ids` ascending, stably.
pub fn ascending_order(ids: &Vec<Vec<char>>) -> (order: Vec<usize>)
    ensures
        order@.len() == ids@.len(),
        forall|a: int| 0 <= a < order@.len() ==> (#[trigger] order@[a]) < ids@.len(),
        forall|x: usize| x < ids@.len() ==> #[trigger] order@.contains(x),
        forall|a: int, b: int| 0 <= a < b < order@.len() ==> id_before(crate::text::vecs_view(ids@), (#[trigger] order@[a]) as int, (#[trigger] order@[b]) as int),
{
    let ghost t = crate::text::vecs_view(ids@);
    let mut order: Vec<usize> = Vec::new();
    let mut i: usize = 0;
    while i < ids.len()
        invariant
            t == crate::text::vecs_view(ids@),
            t.len() == ids@.len(),
            i <= t.len(),
            order@.len() == i,
            forall|a: int| 0 <= a < order@.len() ==> (#[trigger] order@[a]) < i,
            forall|x: usize| x < i ==> #[trigger] order@.contains(x),
            forall|a: int, b: int| 0 <= a < b < order@.len() ==> id_before(t, (#[trigger] order@[a]) as int, (#[trigger] order@[b]) as int),
        decreases t.len() - i,
    {
        let mut p: usize = 0;
        while p < order.len()
            invariant
                t == crate::text::vecs_view(ids@),
                t.len() == ids@.len(),
                i < t.len(),
                p <= order@.len(),
                forall|a: int| 0 <= a < order@.len() ==> (#[trigger] order@[a]) < i,
                forall|a: int| 0 <= a < p ==> !seq_lt(t[i as int], t[(#[trigger] order@[a]) as int]),
            ensures
                p <= order@.len(),
                forall|a: int| 0 <= a < p ==> !seq_lt(t[i as int], t[(#[trigger] order@[a]) as int]),
                p < order@.len() ==> seq_lt(t[i as int], t[order@[p as int] as int]),
            decreases order@.len() - p,
        {
            assert(t[i as int] == ids@[i as int]@);
            assert(t[order@[p as int] as int] == ids@[order@[p as int] as int]@);
            if chars_lt(&ids[i], &ids[order[p]]) {
                break;
            }
            p = p + 1;
        }
        let ghost old_order = order@;
        order.insert(p, i);
        proof {
            let no = order@;
            assert(no == old_order.insert(p as int, i));
            assert forall|a: int| 0 <= a < no.len() implies (#[trigger] no[a]) < i + 1 by {
                if a < p {
                    assert(no[a] == old_order[a]);
                } else if a > p {
                    assert(no[a] == old_order[a - 1]);
                }
            }
            assert forall|x: usize| x < i + 1 implies #[trigger] no.contains(x) by {
                if x == i {
                    assert(no[p as int] == x);
                } else {
                    assert(old_order.contains(x));
                    let w = choose|w: int| 0 <= w < old_order.len() && old_order[w] == x;
                    if w < p {
                        assert(no[w] == x);
                    } else {
                        assert(no[w + 1] == x);
                    }
                }
            }
            assert forall|a: int, b: int| 0 <= a < b < no.len() implies id_before(t, (#[trigger] no[a]) as int, (#[trigger] no[b]) as int) by {
                if b == p {
                    assert(no[a] == old_order[a]);
                    let oa = old_order[a] as int;
                    assert(!seq_lt(t[i as int], t[oa]));
                    lemma_seq_lt_total(t[i as int], t[oa]);
                } else if a == p {
                    assert(no[b] == old_order[b - 1]);
                    let ob = old_order[b - 1] as int;
                    let op = old_order[p as int] as int;
                    if b - 1 > p {
                        assert(id_before(t, op, ob));
                        if seq_lt(t[op], t[ob]) {
                            lemma_seq_lt_transitive(t[i as int], t[op], t[ob]);
                        }
                    }
                } else {
                    let oa = if a < p { a } else { a - 1 };
                    let ob = if b < p { b } else { b - 1 };
                    assert(no[a] == old_order[oa]);
                    assert(no[b] == old_order[ob]);
                }
            }
        }
        i = i + 1;
    }
    order
}

/// A catalog row built from an upstream model: its name, or its id when it
/// has none.
pub open spec fn catalog_row(m: OpenRouterModel, u: UpstreamModel) -> bool {
    &&& m.id@ == u.id@
    &&& m.name@ == (match u.name {
        Some(n) => n@,
        None => u.id@,
    })
}

/// The positions of the first-class models of `up`, in upstream order.
pub open spec fn kept_indices(up: Seq<UpstreamModel>) -> Seq<int>
    decreases up.len(),
{
    if up.len() == 0 {
        Seq::empty()
    } else if is_first_class(up.last().id@) {
        kept_indices(up.drop_last()).push(up.len() - 1)
    } else {
        kept_indices(up.drop_last())
    }
}

/// `models` lists the first-class models of `up` as catalog rows in the
/// order `order` (positions into `kept_indices(up)`): ascending by id, models
/// with the same id in upstream order.
pub open spec fn catalog_order(models: Seq<OpenRouterModel>, up: Seq<UpstreamModel>, order: Seq<int>) -> bool {
    let kept = kept_indices(up);
    &&& models.len() == kept.len()
    &&& order.len() == kept.len()
    &&& forall|x: int| 0 <= x < kept.len() ==> #[trigger] order.contains(x)
    &&& forall|k: int| 0 <= k < order.len() ==> 0 <= #[trigger] order[k] < kept.len()
        && catalog_row(models[k], up[kept[order[k]]])
    &&& forall|a: int, b: int| 0 <= a < b < order.len() ==> (seq_lt(
        up[kept[(#[trigger] order[a])]].id@,
        up[kept[(#[trigger] order[b])]].id@,
    ) || (up[kept[order[a]]].id@ == up[kept[order[b]]].id@ && order[a] < order[b]))
}

/// The catalog: the upstream models of first-class vendors, named by their
/// name (or id), sorted by id with ties in upstream order.
pub fn catalog(upstream: &Vec<UpstreamModel>) -> (r: OpenRouterModelsResponse)
    ensures
        exists|order: Seq<int>| #[trigger] catalog_order(r.models@, upstream@, order),
{
    let mut rows: Vec<OpenRouterModel> = Vec::new();
    let mut ids: Vec<Vec<char>> = Vec::new();
    let ghost mut kept: Seq<int> = Seq::empty();
    let mut j: usize = 0;
    while j < upstream.len()
        invariant
            j <= upstream@.len(),
            rows@.len() == kept.len(),
            ids@.len() == kept.len(),
            kept == kept_indices(upstream@.take(j as int)),
            forall|a: int| 0 <= a < kept.len() ==> 0 <= #[trigger] kept[a] < j,
            forall|a: int| 0 <= a < kept.len() ==> catalog_row(#[trigger] rows@[a], upstream@[kept[a]]),
            forall|a: int| 0 <= a < kept.len() ==> (#[trigger] ids@[a])@ == upstream@[kept[a]].id@,
        decreases upstream@.len() - j,
    {
        let m = &upstream[j];
        proof {
            assert(upstream@.take(j + 1).drop_last() == upstream@.take(j as int));
            assert(upstream@.take(j + 1).last() == upstream@[j as int]);
        }
        if first_class(m.id.as_str()) {
            let name = match &m.name {
                Some(n) => n.clone(),
                None => m.id.clone(),
            };
            let ghost old_rows = rows@;
            let ghost old_ids = ids@;
            let row = OpenRouterModel { id: m.id.clone(), name };
            assert(catalog_row(row, upstream@[j as int]));
            rows.push(row);
            ids.push(chars_of(m.id.as_str()));
            proof {
                kept = kept.push(j as int);
                assert forall|a: int| 0 <= a < kept.len() implies catalog_row(#[trigger] rows@[a], upstream@[kept[a]]) by {
                    if a < old_rows.len() {
                        assert(rows@[a] == old_rows[a]);
                    }
                }
                assert forall|a: int| 0 <= a < kept.len() implies (#[trigger] ids@[a])@ == upstream@[kept[a]].id@ by {
                    if a < old_ids.len() {
                        assert(ids@[a] == old_ids[a]);
                    }
                }
            }
        }
        j = j + 1;
    }
    let order = ascending_order(&ids);
    let mut models: Vec<OpenRouterModel> = Vec::new();
    let mut k: usize = 0;
    while k < order.len()
        invariant
            k <= order@.len(),
            order@.len() == ids@.len(),
            ids@.len() == rows@.len(),
            forall|a: int| 0 <= a < order@.len() ==> (#[trigger] order@[a]) < ids@.len(),
            models@.len() == k,
            forall|a: int| 0 <= a < k ==> #[trigger] models@[a] == rows@[order@[a] as int],
        decreases order@.len() - k,
    {
        let src = &rows[order[k]];
        models.push(OpenRouterModel { id: src.id.clone(), name: src.name.clone() });
        k = k + 1;
    }
    let ghost ord: Seq<int> = Seq::new(order@.len(), |a: int| order@[a] as int);
    proof {
        assert(upstream@.take(upstream@.len() as int) == upstream@);
        assert forall|x: int| 0 <= x < kept.len() implies #[trigger] ord.contains(x) by {
            assert(order@.contains(x as usize));
            let w = choose|w: int| 0 <= w < order@.len() && order@[w] == x as usize;
            assert(ord[w] == x);
        }
        assert forall|kk: int| 0 <= kk < ord.len() implies 0 <= #[trigger] ord[kk] < kept.len()
            && catalog_row(models@[kk], upstream@[kept[ord[kk]]]) by {
            assert(models@[kk] == rows@[order@[kk] as int]);
            assert(catalog_row(rows@[ord[kk]], upstream@[kept[ord[kk]]]));
        }
        assert forall|a: int, b: int| 0 <= a < b < ord.len() implies (seq_lt(
            upstream@[kept[(#[trigger] ord[a])]].id@,
            upstream@[kept[(#[trigger] ord[b])]].id@,
        ) || (upstream@[kept[ord[a]]].id@ == upstream@[kept[ord[b]]].id@ && ord[a] < ord[b])) by {
            assert(id_before(crate::text::vecs_view(ids@), order@[a] as int, order@[b] as int));
            assert(crate::text::vecs_view(ids@)[ord[a]] == ids@[ord[a]]@);
            assert(crate::text::vecs_view(ids@)[ord[b]] == ids@[ord[b]]@);
        }
        assert(catalog_order(models@, upstream@, ord));
    }
    let r = OpenRouterModelsResponse { models };
    assert(catalog_order(r.models@, upstream@, ord));
    r
}

/// 502 when the upstream catalog cannot be used.
pub fn catalog_unavailable(message: String) -> (e: ApiError)
    ensures
        e.status == 502,
        e.error@ == "openrouter_catalog_unavailable"@,
        e.message@ == message@,
{
    api_error_msg(502, "openrouter_catalog_unavailable", message)
}

/// How rebuilding the provider registry from the current secrets went.
#[derive(Debug)]
pub enum RegistryRefresh {
    /// The API booted without a configuration; no rebuild was attempted.
    NoConfig,
    /// The registry was rebuilt; whether it holds the requested provider.
    Rebuilt { has_provider: bool },
    /// The secret store failed, with its description.
    SecretStoreFailed { message: String },
    /// The rebuild task failed, with its description.
    RefreshFailed { message: String },
}

/// Which registry serves a request.
#[derive(Debug, Clone, Copy, PartialEq, Eq, Structural)]
pub enum ProviderSource {
    /// The freshly rebuilt registry.
    Rebuilt,
    /// The registry built at boot.
    Boot,
}

/// The provider that serves a one-off request for `requested`: the rebuilt
/// registry's when it has it, else the boot registry's when it has it. A
/// failed rebuild without a boot fallback is 500; without a configuration
/// there is no registry (503); otherwise the provider has no key (400).
pub fn provider_source(refresh: RegistryRefresh, boot_has_provider: bool, requested: &str) -> (r: Result<
    ProviderSource,
    ApiError,
>)
    ensures
        match refresh {
            RegistryRefresh::Rebuilt { has_provider: true } => r == Ok::<ProviderSource, ApiError>(ProviderSource::Rebuilt),
            _ => boot_has_provider ==> r == Ok::<ProviderSource, ApiError>(ProviderSource::Boot),
        },
        !boot_has_provider ==> match refresh {
            RegistryRefresh::SecretStoreFailed { message } => r matches Err(e) && e.status == 500
                && e.error@ == "secret_store_error"@ && e.message@ == message@,
            RegistryRefresh::RefreshFailed { message } => r matches Err(e) && e.status == 500
                && e.error@ == "provider_registry_refresh_failed"@ && e.message@ == message@,
            RegistryRefresh::NoConfig => r matches Err(e) && e.status == 503 && e.error@ == "no_registry"@
                && e.message@ == "API booted without a provider registry; configure a provider key first"@,
            RegistryRefresh::Rebuilt { has_provider: false } => r matches Err(e) && e.status == 400
                && e.error@ == "provider_not_configured"@
                && e.message@ == "provider `"@ + requested@ + "` has no configured API key"@,
            _ => true,
        },
{
    match refresh {
        RegistryRefresh::Rebuilt { has_provider } => {
            if has_provider {
                Ok(ProviderSource::Rebuilt)
            } else if boot_has_provider {
                Ok(ProviderSource::Boot)
            } else {
                Err(
                    api_error_msg(
                        400,
                        "provider_not_configured",
                        concat3("provider `", requested, "` has no configured API key"),
                    ),
                )
            }
        },
        RegistryRefresh::SecretStoreFailed { message } => {
            if boot_has_provider {
                Ok(ProviderSource::Boot)
            } else {
                Err(api_error_msg(500, "secret_store_error", message))
            }
        },
        RegistryRefresh::RefreshFailed { message } => {
            if boot_has_provider {
                Ok(ProviderSource::Boot)
            } else {
                Err(api_error_msg(500, "provider_registry_refresh_failed", message))
            }
        },
        RegistryRefresh::NoConfig => {
            if boot_has_provider {
                Ok(ProviderSource::Boot)
            } else {
                Err(
                    api_error(
                        503,
                        "no_registry",
                        "API booted without a provider registry; configure a provider key first",
                    ),
                )
            }
        },
    }
}

} // verus!
