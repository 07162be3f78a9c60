//! Plugin load report and marketplace: the rows the dashboard renders, the
//! collapse of the registry index to one current version per plugin, the merge
//! with the installed-state audit rows, and the decisions of the install flow.

use vstd::prelude::*;

use crate::errors::{api_error, api_error_msg, ApiError};
use crate::json::JsonValue;
use crate::order::{chars_lt, lemma_seq_lt_asymmetric, lemma_seq_lt_total, lemma_seq_lt_transitive, seq_lt};
use crate::text::{chars_of, concat3};

verus! {

// ---------------------------------------------------------------------------
// Runtime load report
// ---------------------------------------------------------------------------

/// Activation status of a plugin found at startup.
#[derive(Debug, Clone, Copy, PartialEq, Eq, Structural)]
pub enum LoadStatus {
    Loaded,
    Skipped,
    LoadError,
}

/// Wire name of a load status.
pub open spec fn load_status_name(s: LoadStatus) -> Seq<char> {
    match s {
        LoadStatus::Loaded => "loaded"@,
        LoadStatus::Skipped => "skipped"@,
        LoadStatus::LoadError => "load_error"@,
    }
}

impl LoadStatus {
    /// `loaded | skipped | load_error`.
    pub fn as_str(&self) -> (r: &'static str)
        ensures
            r@ == load_status_name(*self),
    {
        match self {
            LoadStatus::Loaded => "loaded",
            LoadStatus::Skipped => "skipped",
            LoadStatus::LoadError => "load_error",
        }
    }
}

/// One row of the runtime load report.
#[derive(Debug, Clone)]
pub struct PluginStatusItem {
    pub id: String,
    pub version: String,
    pub kind: String,
    /// `loaded | skipped | load_error`.
    pub status: String,
    pub reason: String,
}

/// The report row of one discovered plugin.
pub fn plugin_status_item(
    id: String,
    version: String,
    kind: String,
    status: LoadStatus,
    reason: String,
) -> (item: PluginStatusItem)
    ensures
        item.id == id,
        item.version == version,
        item.kind == kind,
        item.status@ == load_status_name(status),
        item.reason == reason,
{
    PluginStatusItem { id, version, kind, status: status.as_str().to_string(), reason }
}

// ---------------------------------------------------------------------------
// Marketplace rows
// ---------------------------------------------------------------------------

/// One entry of the registry index.
#[derive(Debug)]
pub struct RegistryEntry {
    /// `namespace/name`.
    pub id: String,
    pub version: String,
    pub description: String,
    pub sha256: String,
    pub yanked: bool,
}

/// An identical copy of a registry entry.
pub fn copy_entry(e: &RegistryEntry) -> (r: RegistryEntry)
    ensures
        r == *e,
{
    RegistryEntry {
        id: e.id.clone(),
        version: e.version.clone(),
        description: e.description.clone(),
        sha256: e.sha256.clone(),
        yanked: e.yanked,
    }
}

/// What the dashboard shows of a plugin's manifest.
#[derive(Debug)]
pub struct ManifestMetadata {
    pub name: String,
    pub author: String,
    pub homepage: String,
    pub plugin_type: String,
    pub capabilities: JsonValue,
}

/// An active row of the installed-plugins audit table.
#[derive(Debug)]
pub struct InstallRecord {
    pub plugin_name: String,
    pub plugin_version: String,
    pub signature_verified: bool,
    pub capability_set: JsonValue,
}

/// One plugin as the marketplace page consumes it.
#[derive(Debug)]
pub struct MarketplacePlugin {
    /// `namespace/name`: the detail-route slug and the install id.
    pub slug: String,
    pub name: String,
    pub version: String,
    pub description: String,
    pub author: String,
    pub homepage: String,
    pub plugin_type: String,
    /// Verified publisher (root-signed namespace claim present).
    pub verified: bool,
    /// `signed` | `unsigned` | `revoked`.
    pub signature_status: String,
    pub capabilities: JsonValue,
    pub installed: bool,
    pub installed_version: Option<String>,
    pub update_available: bool,
}

/// The signature status an audit row reports.
pub open spec fn signature_status_name(verified: bool) -> Seq<char> {
    if verified {
        "signed"@
    } else {
        "unsigned"@
    }
}

/// Maps an audit row's verification flag to the UI signature status.
pub fn install_signature_status(row: &InstallRecord) -> (r: String)
    ensures
        r@ == signature_status_name(row.signature_verified),
{
    if row.signature_verified {
        "signed".to_string()
    } else {
        "unsigned".to_string()
    }
}

/// `p` is the marketplace row of registry entry `e`, with the manifest
/// metadata `meta` when it could be fetched and the install row `inst` when the
/// plugin is installed.
pub open spec fn is_registry_row(
    p: MarketplacePlugin,
    e: RegistryEntry,
    meta: Option<ManifestMetadata>,
    inst: Option<InstallRecord>,
) -> bool {
    &&& p.slug@ == e.id@
    &&& p.version == e.version
    &&& p.description == e.description
    &&& match meta {
        Some(m) => p.name == m.name && p.author == m.author && p.homepage == m.homepage
            && p.plugin_type == m.plugin_type,
        None => p.name@ == e.id@ && p.author@.len() == 0 && p.homepage@.len() == 0
            && p.plugin_type@ == "extractor"@,
    }
    &&& match inst {
        Some(row) => {
            &&& p.installed
            &&& p.installed_version == Some(row.plugin_version)
            &&& p.signature_status@ == signature_status_name(row.signature_verified)
            &&& p.verified == row.signature_verified
            &&& p.capabilities == row.capability_set
            &&& p.update_available == (row.plugin_version@ != e.version@)
        },
        None => {
            &&& !p.installed
            &&& p.installed_version is None
            &&& p.signature_status@ == "unsigned"@
            &&& !p.verified
            &&& match meta {
                Some(m) => p.capabilities == m.capabilities,
                None => p.capabilities matches JsonValue::Array(a) && a@.len() == 0,
            }
            &&& !p.update_available
        },
    }
}

/// `p` is the marketplace row of an installed plugin that the registry index
/// no longer lists.
pub open spec fn is_installed_only_row(p: MarketplacePlugin, row: InstallRecord) -> bool {
    &&& p.slug == row.plugin_name
    &&& p.name@ == row.plugin_name@
    &&& p.version@ == row.plugin_version@
    &&& p.description@.len() == 0
    &&& p.author@.len() == 0
    &&& p.homepage@.len() == 0
    &&& p.plugin_type@ == "extractor"@
    &&& p.verified == row.signature_verified
    &&& p.signature_status@ == signature_status_name(row.signature_verified)
    &&& p.capabilities == row.capability_set
    &&& p.installed
    &&& p.installed_version == Some(row.plugin_version)
    &&& !p.update_available
}

/// The marketplace row of a registry entry, merging install state. An entry
/// that is not installed reports the indeterminate `unsigned` trust state; an
/// installed one whose version differs from the registry's offers an upgrade.
pub fn into_marketplace_plugin(
    e: RegistryEntry,
    metadata: Option<ManifestMetadata>,
    inst: Option<InstallRecord>,
) -> (p: MarketplacePlugin)
    ensures
        is_registry_row(p, e, metadata, inst),
{
    let slug = e.id.clone();
    let ghost meta0 = metadata;
    let (installed, installed_version, signature_status, verified, manifest_caps, update_available) =
        match inst {
            Some(row) => {
                let st = install_signature_status(&row);
                let upd = row.plugin_version != e.version;
                (true, Some(row.plugin_version), st, row.signature_verified, Some(row.capability_set), upd)
            },
            None => (false, None, "unsigned".to_string(), false, None, false),
        };
    let (name, author, homepage, plugin_type, meta_caps) = match metadata {
        Some(m) => (m.name, m.author, m.homepage, m.plugin_type, Some(m.capabilities)),
        None => (slug.clone(), String::new(), String::new(), "extractor".to_string(), None),
    };
    let capabilities = match manifest_caps {
        Some(c) => c,
        None => match meta_caps {
            Some(c) => c,
            None => JsonValue::Array(Vec::new()),
        },
    };
    MarketplacePlugin {
        name,
        slug,
        version: e.version,
        description: e.description,
        author,
        homepage,
        plugin_type,
        verified,
        signature_status,
        capabilities,
        installed,
        installed_version,
        update_available,
    }
}

/// The marketplace row of an installed plugin absent from the registry index
/// (yanked, or a private install), built from the audit row alone.
pub fn installed_only_plugin(row: InstallRecord) -> (p: MarketplacePlugin)
    ensures
        is_installed_only_row(p, row),
{
    let status = install_signature_status(&row);
    MarketplacePlugin {
        name: row.plugin_name.clone(),
        slug: row.plugin_name,
        version: row.plugin_version.clone(),
        description: String::new(),
        author: String::new(),
        homepage: String::new(),
        plugin_type: "extractor".to_string(),
        verified: row.signature_verified,
        signature_status: status,
        capabilities: row.capability_set,
        installed: true,
        installed_version: Some(row.plugin_version),
        update_available: false,
    }
}

// ---------------------------------------------------------------------------
// One current version per plugin
// ---------------------------------------------------------------------------

/// Among the first `n` entries of the index, entry `i` is the one the registry
/// advertises for its plugin: its version is above that of every earlier entry
/// of the same plugin and not below that of any later one (the first entry of
/// the highest version, versions compared as strings).
pub open spec fn current_in(s: Seq<RegistryEntry>, n: int, i: int) -> bool {
    &&& 0 <= i < n <= s.len()
    &&& forall|j: int|
        0 <= j < n && j != i && #[trigger] s[j].id@ == s[i].id@ ==> if j < i {
            seq_lt(s[j].version@, s[i].version@)
        } else {
            !seq_lt(s[i].version@, s[j].version@)
        }
}

/// `x` is the current entry of its plugin in the whole index `s`.
pub open spec fn is_current_entry(s: Seq<RegistryEntry>, x: RegistryEntry) -> bool {
    exists|i: int| current_in(s, s.len() as int, i) && x == #[trigger] s[i]
}

/// Two current entries of the same plugin are the same entry.
proof fn lemma_current_unique(s: Seq<RegistryEntry>, n: int, i: int, k: int)
    requires
        current_in(s, n, i),
        current_in(s, n, k),
        s[i].id@ == s[k].id@,
    ensures
        i == k,
{
    if i < k {
        assert(s[i].id@ == s[k].id@);
        assert(seq_lt(s[i].version@, s[k].version@));
    } else if k < i {
        assert(s[k].id@ == s[i].id@);
        assert(seq_lt(s[k].version@, s[i].version@));
    }
}

/// The registry-current entry of every plugin of the index, one per plugin:
/// the highest version, the first such entry where versions repeat.
pub fn current_registry_entries(entries: &Vec<RegistryEntry>) -> (r: Vec<RegistryEntry>)
    ensures
        forall|a: int, b: int| 0 <= a < b < r@.len() ==> r@[a].id@ != r@[b].id@,
        forall|a: int| 0 <= a < r@.len() ==> is_current_entry(entries@, #[trigger] r@[a]),
        forall|i: int| #[trigger] current_in(entries@, entries@.len() as int, i) ==> exists|a: int| 0 <= a < r@.len() && r@[a] == entries@[i],
{
    let ghost s = entries@;
    let mut cur: Vec<RegistryEntry> = Vec::new();
    let ghost mut src: Seq<int> = Seq::empty();
    let mut n: usize = 0;
    while n < entries.len()
        invariant
            s == entries@,
            n <= s.len(),
            src.len() == cur@.len(),
            forall|a: int, b: int| 0 <= a < b < cur@.len() ==> cur@[a].id@ != cur@[b].id@,
            forall|a: int| 0 <= a < cur@.len() ==> 0 <= #[trigger] src[a] < n && cur@[a] == s[src[a]] && current_in(s, n as int, src[a]),
            forall|i: int| #[trigger] current_in(s, n as int, i) ==> exists|a: int| 0 <= a < src.len() && src[a] == i,
            forall|i: int| #![trigger s[i]] 0 <= i < n ==> exists|a: int| #![trigger cur@[a]] 0 <= a < cur@.len() && cur@[a].id@ == s[i].id@,
        decreases s.len() - n,
    {
        let e = &entries[n];
        let mut k: usize = 0;
        while k < cur.len() && cur[k].id != e.id
            invariant
                k <= cur@.len(),
                n < s.len(),
                *e == s[n as int],
                forall|a: int| 0 <= a < k ==> cur@[a].id@ != e.id@,
            decreases cur@.len() - k,
        {
            k = k + 1;
        }
        let ghost old_cur = cur@;
        let ghost old_src = src;
        let ghost nn = n as int;
        if k == cur.len() {
            // A plugin not seen before: its first entry is current.
            proof {
                assert forall|j: int| 0 <= j < nn implies s[j].id@ != s[nn].id@ by {
                    let a = choose|a: int| 0 <= a < old_cur.len() && #[trigger] old_cur[a].id@ == s[j].id@;
                    assert(old_cur[a].id@ != e.id@);
                }
            }
            cur.push(copy_entry(e));
            proof {
                src = src.push(nn);
                assert forall|a: int| 0 <= a < cur@.len() implies 0 <= #[trigger] src[a] < nn + 1 && cur@[a] == s[src[a]] && current_in(s, nn + 1, src[a]) by {
                    if a < old_cur.len() {
                        assert(old_src[a] == src[a]);
                        assert(current_in(s, nn, src[a]));
                        assert(s[nn].id@ != s[src[a]].id@);
                    }
                }
                assert forall|i: int| #[trigger] current_in(s, nn + 1, i) implies exists|a: int| 0 <= a < src.len() && src[a] == i by {
                    if i < nn {
                        assert(current_in(s, nn, i));
                        let a = choose|a: int| 0 <= a < old_src.len() && old_src[a] == i;
                        assert(src[a] == i);
                    } else {
                        assert(src[old_src.len() as int] == i);
                    }
                }
                assert forall|i: int| #![trigger s[i]] 0 <= i < nn + 1 implies exists|a: int| #![trigger cur@[a]] 0 <= a < cur@.len() && cur@[a].id@ == s[i].id@ by {
                    if i < nn {
                        let a = choose|a: int| 0 <= a < old_cur.len() && #[trigger] old_cur[a].id@ == s[i].id@;
                        assert(cur@[a].id@ == s[i].id@);
                    } else {
                        assert(cur@[old_cur.len() as int].id@ == s[i].id@);
                    }
                }
            }
        } else {
            let ghost i0 = src[k as int];
            assert(current_in(s, nn, i0));
            let ea = chars_of(e.version.as_str());
            let ca = chars_of(cur[k].version.as_str());
            if chars_lt(&ca, &ea) {
                // A higher version: this entry becomes current.
                cur.set(k, copy_entry(e));
                proof {
                    src = src.update(k as int, nn);
                    assert forall|j: int| 0 <= j < nn + 1 && j != nn && #[trigger] s[j].id@ == s[nn].id@ implies seq_lt(s[j].version@, s[nn].version@) by {
                        if j < i0 {
                            lemma_seq_lt_transitive(s[j].version@, s[i0].version@, s[nn].version@);
                        } else if j > i0 {
                            lemma_seq_lt_total(s[j].version@, s[i0].version@);
                            if seq_lt(s[j].version@, s[i0].version@) {
                                lemma_seq_lt_transitive(s[j].version@, s[i0].version@, s[nn].version@);
                            }
                        }
                    }
                    assert(current_in(s, nn + 1, nn));
                    assert forall|a: int| 0 <= a < cur@.len() implies 0 <= #[trigger] src[a] < nn + 1 && cur@[a] == s[src[a]] && current_in(s, nn + 1, src[a]) by {
                        if a != k {
                            assert(old_src[a] == src[a]);
                            assert(current_in(s, nn, src[a]));
                            assert(old_cur[a].id@ != old_cur[k as int].id@);
                            assert(s[nn].id@ != s[src[a]].id@);
                        }
                    }
                    assert forall|i: int| #[trigger] current_in(s, nn + 1, i) implies exists|a: int| 0 <= a < src.len() && src[a] == i by {
                        if i < nn {
                            assert(current_in(s, nn, i));
                            if s[i].id@ == s[nn].id@ {
                                lemma_current_unique(s, nn, i, i0);
                                assert(!seq_lt(s[i].version@, s[nn].version@));
                            }
                            let a = choose|a: int| 0 <= a < old_src.len() && old_src[a] == i;
                            if a == k {
                                assert(false);
                            }
                            assert(src[a] == i);
                        } else {
                            assert(src[k as int] == i);
                        }
                    }
                    assert forall|i: int| #![trigger s[i]] 0 <= i < nn + 1 implies exists|a: int| #![trigger cur@[a]] 0 <= a < cur@.len() && cur@[a].id@ == s[i].id@ by {
                        if i < nn {
                            let a = choose|a: int| 0 <= a < old_cur.len() && #[trigger] old_cur[a].id@ == s[i].id@;
                            assert(cur@[a].id@ == s[i].id@);
                        } else {
                            assert(cur@[k as int].id@ == s[i].id@);
                        }
                    }
                }
            } else {
                // Not above the current version: nothing changes.
                proof {
                    assert forall|a: int| 0 <= a < cur@.len() implies 0 <= #[trigger] src[a] < nn + 1 && cur@[a] == s[src[a]] && current_in(s, nn + 1, src[a]) by {
                        assert(current_in(s, nn, src[a]));
                        if a != k {
                            assert(old_cur[a].id@ != old_cur[k as int].id@);
                            assert(s[nn].id@ != s[src[a]].id@);
                        }
                    }
                    assert forall|i: int| #[trigger] current_in(s, nn + 1, i) implies exists|a: int| 0 <= a < src.len() && src[a] == i by {
                        if i < nn {
                            assert(current_in(s, nn, i));
                        } else {
                            assert(s[i0].id@ == s[nn].id@);
                            assert(!seq_lt(s[i0].version@, s[nn].version@));
                        }
                    }
                    assert forall|i: int| #![trigger s[i]] 0 <= i < nn + 1 implies exists|a: int| #![trigger cur@[a]] 0 <= a < cur@.len() && cur@[a].id@ == s[i].id@ by {
                        if i == nn {
                            assert(cur@[k as int].id@ == s[i].id@);
                        }
                    }
                }
            }
        }
        n = n + 1;
    }
    proof {
        assert forall|a: int| 0 <= a < cur@.len() implies is_current_entry(entries@, #[trigger] cur@[a]) by {
            let i = src[a];
            assert(current_in(s, n as int, i));
            assert(current_in(entries@, entries@.len() as int, i) && cur@[a] == entries@[i]);
        }
    }
    cur
}

// ---------------------------------------------------------------------------
// Merging the registry with the installed state
// ---------------------------------------------------------------------------

/// The install row that stands for plugin `name`: the last active row with
/// that name (later rows replace earlier ones).
pub open spec fn last_install(rows: Seq<InstallRecord>, name: Seq<char>) -> Option<InstallRecord>
    decreases rows.len(),
{
    if rows.len() == 0 {
        None
    } else if rows.last().plugin_name@ == name {
        Some(rows.last())
    } else {
        last_install(rows.drop_last(), name)
    }
}

/// The install row of each plugin that has one, once per plugin.
pub fn latest_installs(installed: Vec<InstallRecord>) -> (pool: Vec<InstallRecord>)
    ensures
        forall|a: int, b: int| 0 <= a < b < pool@.len() ==> pool@[a].plugin_name@ != pool@[b].plugin_name@,
        forall|a: int| 0 <= a < pool@.len() ==> last_install(installed@, (#[trigger] pool@[a]).plugin_name@) == Some(pool@[a]),
        forall|name: Seq<char>| #[trigger] last_install(installed@, name) is Some ==> exists|a: int| 0 <= a < pool@.len() && (#[trigger] pool@[a]).plugin_name@ == name,
{
    let ghost orig = installed@;
    let mut rest = installed;
    let mut pool: Vec<InstallRecord> = Vec::new();
    while rest.len() > 0
        invariant
            orig.len() >= rest@.len(),
            rest@ == orig.take(rest@.len() as int),
            forall|a: int, b: int| 0 <= a < b < pool@.len() ==> pool@[a].plugin_name@ != pool@[b].plugin_name@,
            forall|a: int| 0 <= a < pool@.len() ==> last_install(orig, (#[trigger] pool@[a]).plugin_name@) == Some(pool@[a]),
            forall|name: Seq<char>| (forall|a: int| 0 <= a < pool@.len() ==> (#[trigger] pool@[a]).plugin_name@ != name) ==> #[trigger] last_install(orig, name) == last_install(rest@, name),
        decreases rest@.len(),
    {
        let ghost before = rest@;
        let row = rest.pop().unwrap();
        proof {
            assert(before.drop_last() == rest@);
            assert(rest@ == orig.take(rest@.len() as int));
        }
        let mut k: usize = 0;
        while k < pool.len() && pool[k].plugin_name != row.plugin_name
            invariant
                k <= pool@.len(),
                forall|a: int| 0 <= a < k ==> (#[trigger] pool@[a]).plugin_name@ != row.plugin_name@,
            decreases pool@.len() - k,
        {
            k = k + 1;
        }
        if k == pool.len() {
            let ghost old_pool = pool@;
            proof {
                assert(last_install(before, row.plugin_name@) == Some(row));
                assert(last_install(orig, row.plugin_name@) == Some(row));
            }
            pool.push(row);
            proof {
                assert forall|a: int| 0 <= a < pool@.len() implies last_install(orig, (#[trigger] pool@[a]).plugin_name@) == Some(pool@[a]) by {
                    if a < old_pool.len() {
                        assert(pool@[a] == old_pool[a]);
                    }
                }
                assert forall|name: Seq<char>| (forall|a: int| 0 <= a < pool@.len() ==> (#[trigger] pool@[a]).plugin_name@ != name) implies #[trigger] last_install(orig, name) == last_install(rest@, name) by {
                    assert forall|a: int| 0 <= a < old_pool.len() implies (#[trigger] old_pool[a]).plugin_name@ != name by {
                        assert(pool@[a] == old_pool[a]);
                    }
                    assert(pool@[old_pool.len() as int] == row);
                }
            }
        } else {
            proof {
                assert forall|name: Seq<char>| (forall|a: int| 0 <= a < pool@.len() ==> (#[trigger] pool@[a]).plugin_name@ != name) implies #[trigger] last_install(orig, name) == last_install(rest@, name) by {
                    assert(pool@[k as int].plugin_name@ != name);
                }
            }
        }
    }
    proof {
        assert forall|name: Seq<char>| #[trigger] last_install(installed@, name) is Some implies exists|a: int| 0 <= a < pool@.len() && (#[trigger] pool@[a]).plugin_name@ == name by {
            if forall|a: int| 0 <= a < pool@.len() ==> (#[trigger] pool@[a]).plugin_name@ != name {
                assert(last_install(rest@, name) is None);
            }
        }
    }
    pool
}

/// Slugs strictly ascending.
pub open spec fn sorted_by_slug(r: Seq<MarketplacePlugin>) -> bool {
    forall|i: int, j: int| 0 <= i < j < r.len() ==> seq_lt((#[trigger] r[i]).slug@, (#[trigger] r[j]).slug@)
}

/// Inserts `p` into `v`, kept in ascending slug order.
fn insert_by_slug(v: &mut Vec<MarketplacePlugin>, p: MarketplacePlugin)
    requires
        sorted_by_slug(old(v)@),
        forall|x: MarketplacePlugin| #[trigger] old(v)@.contains(x) ==> x.slug@ != p.slug@,
    ensures
        sorted_by_slug(final(v)@),
        forall|x: MarketplacePlugin| #[trigger] final(v)@.contains(x) <==> (old(v)@.contains(x) || x == p),
{
    let ghost old_v = v@;
    let ps = chars_of(p.slug.as_str());
    let mut k: usize = 0;
    while k < v.len()
        invariant
            v@ == old_v,
            ps@ == p.slug@,
            k <= v@.len(),
            forall|i: int| 0 <= i < k ==> seq_lt((#[trigger] v@[i]).slug@, p.slug@),
        ensures
            v@ == old_v,
            k <= v@.len(),
            forall|i: int| 0 <= i < k ==> seq_lt((#[trigger] v@[i]).slug@, p.slug@),
            k < v@.len() ==> !seq_lt(v@[k as int].slug@, p.slug@),
        decreases v@.len() - k,
    {
        let vs = chars_of(v[k].slug.as_str());
        if !chars_lt(&vs, &ps) {
            break;
        }
        k = k + 1;
    }
    proof {
        if k < old_v.len() {
            assert(old_v.contains(old_v[k as int]));
            lemma_seq_lt_total(old_v[k as int].slug@, p.slug@);
        }
    }
    let ghost pv = p;
    v.insert(k, p);
    proof {
        let nv = v@;
        assert(nv == old_v.insert(k as int, pv));
        assert forall|i: int, j: int| 0 <= i < j < nv.len() implies seq_lt((#[trigger] nv[i]).slug@, (#[trigger] nv[j]).slug@) by {
            if j == k {
                assert(nv[i] == old_v[i]);
            } else if i == k {
                assert(nv[j] == old_v[j - 1]);
                if j - 1 > k {
                    lemma_seq_lt_transitive(pv.slug@, old_v[k as int].slug@, old_v[j - 1].slug@);
                }
            } else {
                let oi = if i < k { i } else { i - 1 };
                let oj = if j < k { j } else { j - 1 };
                assert(nv[i] == old_v[oi]);
                assert(nv[j] == old_v[oj]);
            }
        }
        assert forall|x: MarketplacePlugin| #[trigger] nv.contains(x) <==> (old_v.contains(x) || x == pv) by {
            if nv.contains(x) {
                let w = choose|w: int| 0 <= w < nv.len() && nv[w] == x;
                if w < k {
                    assert(old_v[w] == x);
                } else if w > k {
                    assert(old_v[w - 1] == x);
                }
            }
            if old_v.contains(x) {
                let w = choose|w: int| 0 <= w < old_v.len() && old_v[w] == x;
                if w < k {
                    assert(nv[w] == x);
                } else {
                    assert(nv[w + 1] == x);
                }
            }
            if x == pv {
                assert(nv[k as int] == x);
            }
        }
    }
}

/// `r` holds the marketplace row of registry entry `e`.
pub open spec fn has_registry_row(
    r: Seq<MarketplacePlugin>,
    e: RegistryEntry,
    meta: Option<ManifestMetadata>,
    inst: Option<InstallRecord>,
) -> bool {
    exists|x: MarketplacePlugin| #[trigger] r.contains(x) && is_registry_row(x, e, meta, inst)
}

/// No registry entry of `current` is plugin `name`.
pub open spec fn not_in_registry(current: Seq<(RegistryEntry, Option<ManifestMetadata>)>, name: Seq<char>) -> bool {
    forall|k: int| 0 <= k < current.len() ==> (#[trigger] current[k]).0.id@ != name
}

/// `x` is the row of one registry entry of `current`, or of an installed
/// plugin that `current` does not list.
pub open spec fn is_marketplace_row(
    x: MarketplacePlugin,
    current: Seq<(RegistryEntry, Option<ManifestMetadata>)>,
    installed: Seq<InstallRecord>,
) -> bool {
    ||| exists|k: int|
        #![trigger current[k]]
        0 <= k < current.len() && is_registry_row(x, current[k].0, current[k].1, last_install(installed, current[k].0.id@))
    ||| exists|row: InstallRecord|
        #[trigger] is_installed_only_row(x, row) && last_install(installed, row.plugin_name@) == Some(row)
            && not_in_registry(current, row.plugin_name@)
}

/// The marketplace listing: one row per registry-current entry (with its
/// manifest metadata when fetched), merged with the install row of the same
/// plugin, plus one row per installed plugin the registry no longer lists; in
/// ascending slug order.
#[verifier::spinoff_prover]
#[verifier::rlimit(60)]
pub fn assemble_marketplace(
    current: Vec<(RegistryEntry, Option<ManifestMetadata>)>,
    installed: Vec<InstallRecord>,
) -> (r: Vec<MarketplacePlugin>)
    requires
        forall|a: int, b: int| 0 <= a < b < current@.len() ==> current@[a].0.id@ != current@[b].0.id@,
    ensures
        sorted_by_slug(r@),
        forall|k: int| 0 <= k < current@.len() ==> has_registry_row(r@, (#[trigger] current@[k]).0, current@[k].1, last_install(installed@, current@[k].0.id@)),
        forall|row: InstallRecord| #[trigger] last_install(installed@, row.plugin_name@) == Some(row) && not_in_registry(current@, row.plugin_name@)
            ==> exists|x: MarketplacePlugin| #[trigger] r@.contains(x) && is_installed_only_row(x, row),
        forall|x: MarketplacePlugin| #[trigger] r@.contains(x) ==> is_marketplace_row(x, current@, installed@),
{
    let ghost oc = current@;
    let ghost inst = installed@;
    let mut pool = latest_installs(installed);
    let mut rest = current;
    let mut r: Vec<MarketplacePlugin> = Vec::new();
    while rest.len() > 0
        invariant
            rest@.len() <= oc.len(),
            rest@ == oc.take(rest@.len() as int),
            forall|a: int, b: int| 0 <= a < b < oc.len() ==> oc[a].0.id@ != oc[b].0.id@,
            forall|a: int, b: int| 0 <= a < b < pool@.len() ==> pool@[a].plugin_name@ != pool@[b].plugin_name@,
            forall|a: int| 0 <= a < pool@.len() ==> last_install(inst, (#[trigger] pool@[a]).plugin_name@) == Some(pool@[a]),
            forall|a: int, k: int| 0 <= a < pool@.len() && rest@.len() <= k < oc.len() ==> (#[trigger] oc[k]).0.id@ != (#[trigger] pool@[a]).plugin_name@,
            forall|name: Seq<char>| #[trigger] last_install(inst, name) is Some
                && (forall|k: int| rest@.len() <= k < oc.len() ==> (#[trigger] oc[k]).0.id@ != name)
                ==> exists|a: int| 0 <= a < pool@.len() && (#[trigger] pool@[a]).plugin_name@ == name,
            sorted_by_slug(r@),
            forall|x: MarketplacePlugin| #[trigger] r@.contains(x) ==> exists|k: int|
                #![trigger oc[k]]
                rest@.len() <= k < oc.len() && is_registry_row(x, oc[k].0, oc[k].1, last_install(inst, oc[k].0.id@)),
            forall|k: int| rest@.len() <= k < oc.len() ==> has_registry_row(r@, (#[trigger] oc[k]).0, oc[k].1, last_install(inst, oc[k].0.id@)),
        decreases rest@.len(),
    {
        let ghost before = rest@;
        let (e, meta) = rest.pop().unwrap();
        let ghost m = rest@.len() as int;
        proof {
            assert(before.drop_last() == rest@);
            assert(rest@ == oc.take(m));
            assert(oc[m] == (e, meta));
        }
        let mut k: usize = 0;
        while k < pool.len() && pool[k].plugin_name != e.id
            invariant
                k <= pool@.len(),
                forall|a: int| 0 <= a < k ==> (#[trigger] pool@[a]).plugin_name@ != e.id@,
            decreases pool@.len() - k,
        {
            k = k + 1;
        }
        let ghost old_pool = pool@;
        let found = if k < pool.len() {
            Some(pool.remove(k))
        } else {
            None
        };
        proof {
            if k < old_pool.len() {
                assert(found == Some(old_pool[k as int]));
                assert(last_install(inst, old_pool[k as int].plugin_name@) == Some(old_pool[k as int]));
            } else {
                if last_install(inst, e.id@) is Some {
                    assert forall|j: int| m + 1 <= j < oc.len() implies (#[trigger] oc[j]).0.id@ != e.id@ by {
                        assert(oc[m].0.id@ != oc[j].0.id@);
                    }
                    assert(oc[m].0.id@ == e.id@);
                    let a = choose|a: int| 0 <= a < old_pool.len() && (#[trigger] old_pool[a]).plugin_name@ == e.id@;
                    assert(false);
                }
            }
            assert(found == last_install(inst, e.id@));
            // The pool now excludes the entries processed so far.
            assert forall|a: int| 0 <= a < pool@.len() implies last_install(inst, (#[trigger] pool@[a]).plugin_name@) == Some(pool@[a]) by {
                let oa = if a < k { a } else { a + 1 };
                assert(pool@[a] == old_pool[oa]);
            }
            assert forall|a: int, b: int| 0 <= a < b < pool@.len() implies pool@[a].plugin_name@ != pool@[b].plugin_name@ by {
                let oa = if a < k { a } else { a + 1 };
                let ob = if b < k { b } else { b + 1 };
                assert(pool@[a] == old_pool[oa]);
                assert(pool@[b] == old_pool[ob]);
            }
            assert forall|a: int, j: int| 0 <= a < pool@.len() && m <= j < oc.len() implies (#[trigger] oc[j]).0.id@ != (#[trigger] pool@[a]).plugin_name@ by {
                let oa = if a < k { a } else { a + 1 };
                assert(pool@[a] == old_pool[oa]);
                if j == m {
                    if k < old_pool.len() {
                        assert(old_pool[oa].plugin_name@ != old_pool[k as int].plugin_name@);
                    } else {
                        assert(old_pool[oa].plugin_name@ != e.id@);
                    }
                }
            }
            assert forall|name: Seq<char>| #[trigger] last_install(inst, name) is Some
                && (forall|j: int| m <= j < oc.len() ==> (#[trigger] oc[j]).0.id@ != name)
                implies exists|a: int| 0 <= a < pool@.len() && (#[trigger] pool@[a]).plugin_name@ == name by {
                assert(oc[m].0.id@ != name);
                assert(forall|j: int| m + 1 <= j < oc.len() ==> (#[trigger] oc[j]).0.id@ != name);
                let a = choose|a: int| 0 <= a < old_pool.len() && (#[trigger] old_pool[a]).plugin_name@ == name;
                if k < old_pool.len() {
                    assert(a != k);
                    let na = if a < k { a } else { a - 1 };
                    assert(pool@[na] == old_pool[a]);
                } else {
                    assert(pool@[a] == old_pool[a]);
                }
            }
        }
        let ghost ev = e;
        let ghost mv = meta;
        let ghost fv = found;
        let p = into_marketplace_plugin(e, meta, found);
        let ghost pv = p;
        let ghost old_r = r@;
        proof {
            assert forall|x: MarketplacePlugin| #[trigger] old_r.contains(x) implies x.slug@ != pv.slug@ by {
                let j = choose|j: int|
                    #![trigger oc[j]]
                    m + 1 <= j < oc.len() && is_registry_row(x, oc[j].0, oc[j].1, last_install(inst, oc[j].0.id@));
                assert(oc[m].0.id@ != oc[j].0.id@);
            }
        }
        insert_by_slug(&mut r, p);
        proof {
            assert forall|x: MarketplacePlugin| #[trigger] r@.contains(x) implies exists|j: int|
                #![trigger oc[j]]
                m <= j < oc.len() && is_registry_row(x, oc[j].0, oc[j].1, last_install(inst, oc[j].0.id@)) by {
                if x == pv {
                    assert(is_registry_row(x, oc[m].0, oc[m].1, last_install(inst, oc[m].0.id@)));
                } else {
                    assert(old_r.contains(x));
                }
            }
            assert forall|j: int| m <= j < oc.len() implies has_registry_row(r@, (#[trigger] oc[j]).0, oc[j].1, last_install(inst, oc[j].0.id@)) by {
                if j == m {
                    assert(r@.contains(pv));
                } else {
                    assert(has_registry_row(old_r, oc[j].0, oc[j].1, last_install(inst, oc[j].0.id@)));
                    let x = choose|x: MarketplacePlugin| #[trigger] old_r.contains(x) && is_registry_row(x, oc[j].0, oc[j].1, last_install(inst, oc[j].0.id@));
                    assert(r@.contains(x));
                }
            }
        }
    }
    // Installed plugins the registry does not list.
    let ghost pool0 = pool@;
    proof {
        assert forall|t: int| 0 <= t < pool0.len() implies not_in_registry(oc, (#[trigger] pool0[t]).plugin_name@) by {
            assert forall|j: int| 0 <= j < oc.len() implies (#[trigger] oc[j]).0.id@ != pool0[t].plugin_name@ by {
                assert(oc[j].0.id@ != pool@[t].plugin_name@);
            }
        }
    }
    while pool.len() > 0
        invariant
            pool0.len() >= pool@.len(),
            pool@ == pool0.take(pool@.len() as int),
            forall|a: int, b: int| 0 <= a < b < pool0.len() ==> pool0[a].plugin_name@ != pool0[b].plugin_name@,
            forall|t: int| 0 <= t < pool0.len() ==> last_install(inst, (#[trigger] pool0[t]).plugin_name@) == Some(pool0[t]),
            forall|t: int| 0 <= t < pool0.len() ==> not_in_registry(oc, (#[trigger] pool0[t]).plugin_name@),
            sorted_by_slug(r@),
            forall|x: MarketplacePlugin| #[trigger] r@.contains(x) ==> (exists|k: int|
                #![trigger oc[k]]
                0 <= k < oc.len() && is_registry_row(x, oc[k].0, oc[k].1, last_install(inst, oc[k].0.id@)))
                || (exists|t: int| pool@.len() <= t < pool0.len() && is_installed_only_row(x, #[trigger] pool0[t])),
            forall|k: int| 0 <= k < oc.len() ==> has_registry_row(r@, (#[trigger] oc[k]).0, oc[k].1, last_install(inst, oc[k].0.id@)),
            forall|t: int| pool@.len() <= t < pool0.len() ==> exists|x: MarketplacePlugin| #[trigger] r@.contains(x) && is_installed_only_row(x, #[trigger] pool0[t]),
        decreases pool@.len(),
    {
        let ghost before = pool@;
        let row = pool.pop().unwrap();
        let ghost m = pool@.len() as int;
        proof {
            assert(before.drop_last() == pool@);
            assert(pool0[m] == row);
        }
        let ghost rv = row;
        let p = installed_only_plugin(row);
        let ghost pv = p;
        let ghost old_r = r@;
        proof {
            assert forall|x: MarketplacePlugin| #[trigger] old_r.contains(x) implies x.slug@ != pv.slug@ by {
                if exists|t: int| m + 1 <= t < pool0.len() && is_installed_only_row(x, #[trigger] pool0[t]) {
                    let t = choose|t: int| m + 1 <= t < pool0.len() && is_installed_only_row(x, #[trigger] pool0[t]);
                    assert(pool0[m].plugin_name@ != pool0[t].plugin_name@);
                } else {
                    let j = choose|j: int|
                        #![trigger oc[j]]
                        0 <= j < oc.len() && is_registry_row(x, oc[j].0, oc[j].1, last_install(inst, oc[j].0.id@));
                    assert(not_in_registry(oc, pool0[m].plugin_name@));
                    assert(oc[j].0.id@ != pool0[m].plugin_name@);
                }
            }
        }
        insert_by_slug(&mut r, p);
        proof {
            assert forall|x: MarketplacePlugin| #[trigger] r@.contains(x) implies (exists|k: int|
                #![trigger oc[k]]
                0 <= k < oc.len() && is_registry_row(x, oc[k].0, oc[k].1, last_install(inst, oc[k].0.id@)))
                || (exists|t: int| m <= t < pool0.len() && is_installed_only_row(x, #[trigger] pool0[t])) by {
                if x == pv {
                    assert(is_installed_only_row(x, pool0[m]));
                } else {
                    assert(old_r.contains(x));
                }
            }
            assert forall|k: int| 0 <= k < oc.len() implies has_registry_row(r@, (#[trigger] oc[k]).0, oc[k].1, last_install(inst, oc[k].0.id@)) by {
                let x = choose|x: MarketplacePlugin| #[trigger] old_r.contains(x) && is_registry_row(x, oc[k].0, oc[k].1, last_install(inst, oc[k].0.id@));
                assert(r@.contains(x));
            }
            assert forall|t: int| m <= t < pool0.len() implies exists|x: MarketplacePlugin| #[trigger] r@.contains(x) && is_installed_only_row(x, #[trigger] pool0[t]) by {
                if t == m {
                    assert(r@.contains(pv));
                } else {
                    let x = choose|x: MarketplacePlugin| #[trigger] old_r.contains(x) && is_installed_only_row(x, pool0[t]);
                    assert(r@.contains(x));
                }
            }
        }
    }
    proof {
        assert forall|row: InstallRecord| #[trigger] last_install(installed@, row.plugin_name@) == Some(row) && not_in_registry(current@, row.plugin_name@)
            implies exists|x: MarketplacePlugin| #[trigger] r@.contains(x) && is_installed_only_row(x, row) by {
            assert forall|j: int| 0 <= j < oc.len() implies (#[trigger] oc[j]).0.id@ != row.plugin_name@ by {
                assert(oc[j] == current@[j]);
            }
            assert(last_install(inst, row.plugin_name@) is Some);
            let t = choose|t: int| 0 <= t < pool0.len() && (#[trigger] pool0[t]).plugin_name@ == row.plugin_name@;
            assert(pool0[t] == row);
        }
        assert forall|x: MarketplacePlugin| #[trigger] r@.contains(x) implies is_marketplace_row(x, current@, installed@) by {
            if !(exists|k: int|
                #![trigger oc[k]]
                0 <= k < oc.len() && is_registry_row(x, oc[k].0, oc[k].1, last_install(inst, oc[k].0.id@))) {
                let t = choose|t: int| 0 <= t < pool0.len() && is_installed_only_row(x, #[trigger] pool0[t]);
                assert(is_installed_only_row(x, pool0[t]) && last_install(inst, pool0[t].plugin_name@) == Some(pool0[t]));
            }
        }
    }
    r
}

// ---------------------------------------------------------------------------
// Install, upgrade and removal
// ---------------------------------------------------------------------------

/// What fetching and verifying a registry artifact came to.
#[derive(Debug)]
pub enum FetchOutcome {
    /// The artifact verified; `signed` when its signature chains to a pinned root.
    Verified { signed: bool },
    /// The artifact carries no signature; `version` is the concrete version the
    /// registry resolved.
    Unsigned { version: String },
    /// The signature did not verify, for the given reason.
    VerificationFailed { reason: String },
    /// The registry index has no such plugin version.
    UnknownPlugin { id: String, version: String },
    /// The registry could not be reached, or the artifact was missing.
    Unreachable,
    /// Any other registry failure, with its description.
    Failed { reason: String },
}

/// The answer of an install or upgrade request.
#[derive(Debug)]
pub struct InstallResult {
    pub ok: bool,
    pub signature_status: String,
    pub audit_event_id: Option<String>,
    pub error_kind: Option<String>,
    pub message: String,
}

/// What the install handler does next.
#[derive(Debug)]
pub enum InstallStep {
    /// Answer with this result; nothing is recorded.
    Respond(InstallResult),
    /// Answer with this error.
    Refuse(ApiError),
    /// Record an acknowledged unsigned install of this version.
    RecordUnsigned { version: String },
    /// Record the verified install.
    RecordVerified { signed: bool },
}

/// A failed install that records nothing.
pub open spec fn is_install_failure(r: InstallResult, status: Seq<char>, kind: Seq<char>, message: Seq<char>) -> bool {
    &&& !r.ok
    &&& r.signature_status@ == status
    &&& r.audit_event_id is None
    &&& r.error_kind matches Some(k) && k@ == kind
    &&& r.message@ == message
}

fn install_failure(status: &str, kind: &str, message: String) -> (r: InstallResult)
    ensures
        is_install_failure(r, status@, kind@, message@),
{
    InstallResult {
        ok: false,
        signature_status: status.to_string(),
        audit_event_id: None,
        error_kind: Some(kind.to_string()),
        message,
    }
}

/// Decides what to do with the outcome of fetching and verifying the
/// registry-current artifact. An unsigned artifact is installed only when the
/// operator acknowledged it; a failed verification reports the `revoked`
/// trust state; an unknown plugin is 404; an unreachable registry is a
/// `network` failure; any other registry failure is 502.
pub fn install_step(outcome: FetchOutcome, acknowledge_unsigned: bool) -> (step: InstallStep)
    ensures
        match outcome {
            FetchOutcome::Verified { signed } => step == InstallStep::RecordVerified { signed },
            FetchOutcome::Unsigned { version } => if acknowledge_unsigned {
                step == InstallStep::RecordUnsigned { version }
            } else {
                step matches InstallStep::Respond(r) && is_install_failure(
                    r,
                    "unsigned"@,
                    "signing_failed"@,
                    "Unsigned plugin \u{2014} install not acknowledged."@,
                )
            },
            FetchOutcome::VerificationFailed { reason } => step matches InstallStep::Respond(r)
                && is_install_failure(r, "revoked"@, "signing_failed"@, "Signature verification failed: "@ + reason@),
            FetchOutcome::UnknownPlugin { id, version } => step matches InstallStep::Refuse(e) && e.status == 404
                && e.error@ == "unknown_plugin"@
                && e.message@ == "`"@ + id@ + "@"@ + version@ + "` is not in the registry index"@,
            FetchOutcome::Unreachable => step matches InstallStep::Respond(r) && is_install_failure(
                r,
                "unsigned"@,
                "network"@,
                "Couldn't reach the registry to complete the install."@,
            ),
            FetchOutcome::Failed { reason } => step matches InstallStep::Refuse(e) && e.status == 502
                && e.error@ == "registry_error"@ && e.message@ == reason@,
        },
{
    match outcome {
        FetchOutcome::Verified { signed } => InstallStep::RecordVerified { signed },
        FetchOutcome::Unsigned { version } => {
            if acknowledge_unsigned {
                InstallStep::RecordUnsigned { version }
            } else {
                InstallStep::Respond(
                    install_failure(
                        "unsigned",
                        "signing_failed",
                        "Unsigned plugin \u{2014} install not acknowledged.".to_string(),
                    ),
                )
            }
        },
        FetchOutcome::VerificationFailed { reason } => {
            let message = concat3("Signature verification failed: ", reason.as_str(), "");
            proof {
                reveal_strlit("");
            }
            InstallStep::Respond(install_failure("revoked", "signing_failed", message))
        },
        FetchOutcome::UnknownPlugin { id, version } => {
            let head = concat3("`", id.as_str(), "@");
            let message = concat3(head.as_str(), version.as_str(), "` is not in the registry index");
            InstallStep::Refuse(api_error_msg(404, "unknown_plugin", message))
        },
        FetchOutcome::Unreachable => InstallStep::Respond(
            install_failure(
                "unsigned",
                "network",
                "Couldn't reach the registry to complete the install.".to_string(),
            ),
        ),
        FetchOutcome::Failed { reason } => InstallStep::Refuse(api_error_msg(502, "registry_error", reason)),
    }
}

/// The answer once a verified install was recorded under `audit_event_id`.
pub fn recorded_install(signed: bool, audit_event_id: String) -> (r: InstallResult)
    ensures
        r.ok,
        r.signature_status@ == signature_status_name(signed),
        r.audit_event_id == Some(audit_event_id),
        r.error_kind is None,
        r.message@ == "Plugin installed. Restart the worker to load it."@,
{
    InstallResult {
        ok: true,
        signature_status: if signed { "signed" } else { "unsigned" }.to_string(),
        audit_event_id: Some(audit_event_id),
        error_kind: None,
        message: "Plugin installed. Restart the worker to load it.".to_string(),
    }
}

/// The answer once an acknowledged unsigned install was recorded under
/// `audit_event_id`.
pub fn recorded_unsigned_install(audit_event_id: String) -> (r: InstallResult)
    ensures
        r.ok,
        r.signature_status@ == "unsigned"@,
        r.audit_event_id == Some(audit_event_id),
        r.error_kind is None,
        r.message@ == "Unsigned plugin installed. Restart the worker to load it."@,
{
    InstallResult {
        ok: true,
        signature_status: "unsigned".to_string(),
        audit_event_id: Some(audit_event_id),
        error_kind: None,
        message: "Unsigned plugin installed. Restart the worker to load it.".to_string(),
    }
}

/// The answer of a removal that marked `removed` active installs of `id` as
/// removed: 404 `not_installed` when there was none.
pub fn removal_result(removed: u64, id: &str) -> (r: Result<(), ApiError>)
    ensures
        removed > 0 <==> r is Ok,
        r matches Err(e) ==> e.status == 404 && e.error@ == "not_installed"@
            && e.message@ == "no active install found for `"@ + id@ + "`"@,
{
    if removed == 0 {
        let message = concat3("no active install found for `", id, "`");
        return Err(api_error_msg(404, "not_installed", message));
    }
    Ok(())
}

} // verus!
