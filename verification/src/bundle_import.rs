//! `POST /v1/orgs/:org_id/import/bundle`: hosted import of an exported
//! bundle.
//!
//! The gzip body is decompressed here; the version is checked; and the
//! bundle is turned into the ordered list of idempotent inserts the handler
//! performs (project, then each of its prompts, each followed by its runs),
//! ending early at the first id that is not a UUID, as the handler does.
//! The inserts themselves and the JSON decoding happen at the edge.

use vstd::prelude::*;

use crate::text::{chars_of, concat3, starts_with, starts_with_chars};
use crate::wire::{parse_uuid, uuid_from_str, Timestamp};

verus! {

/// The bundle format written by `ogeo export bundle`.
#[derive(Debug)]
pub struct Bundle {
    pub bundle_version: String,
    pub exported_at: Timestamp,
    pub projects: Vec<BundleProject>,
}

#[derive(Debug)]
pub struct BundleProject {
    pub id: String,
    pub name: String,
    pub created_at: Timestamp,
    pub prompts: Vec<BundlePrompt>,
}

#[derive(Debug)]
pub struct BundlePrompt {
    pub id: String,
    pub name: String,
    pub text: String,
    pub tags: Vec<String>,
    pub created_at: Timestamp,
    pub runs: Vec<BundleRun>,
}

#[derive(Debug)]
pub struct BundleRun {
    pub id: String,
    pub provider: String,
    pub provider_model_version: String,
    pub status: String,
    pub started_at: Timestamp,
    pub finished_at: Option<Timestamp>,
    pub created_at: Timestamp,
}

/// What an import did.
#[derive(Debug)]
pub struct ImportSummary {
    pub bundle_version: String,
    pub projects_imported: usize,
    pub prompts_imported: usize,
    pub runs_imported: usize,
    pub skipped_duplicate_ids: usize,
}

/// A refused import: the status and the `error` text of the JSON body.
#[derive(Debug)]
pub struct BundleError {
    pub status: u16,
    pub error: String,
}

// ---------------------------------------------------------------------------
// Decompression and version
// ---------------------------------------------------------------------------

/// What `flate2::read::GzDecoder` reads from the gzip stream `data` to its
/// end: the decompressed bytes, or the text of the I/O error it stops on.
pub uninterp spec fn gunzip_result(data: Seq<u8>) -> Result<Seq<u8>, Seq<char>>;

/// Decompresses a gzip stream with `flate2::read::GzDecoder` and
/// `read_to_end`; an error is reported by its `Display` text.
#[verifier::external_body]
fn gunzip(data: &[u8]) -> (r: Result<Vec<u8>, String>)
    ensures
        match gunzip_result(data@) {
            Ok(b) => r matches Ok(v) && v@ == b,
            Err(m) => r matches Err(e) && e@ == m,
        },
{
    let mut decoder = flate2::read::GzDecoder::new(data);
    let mut out: Vec<u8> = Vec::new();
    match std::io::Read::read_to_end(&mut decoder, &mut out) {
        Ok(_) => Ok(out),
        Err(e) => Err(e.to_string()),
    }
}

/// Decompresses the request body; a corrupt stream is refused 422.
pub fn decompress_bundle(body: &[u8]) -> (r: Result<Vec<u8>, BundleError>)
    ensures
        match gunzip_result(body@) {
            Ok(b) => r matches Ok(v) && v@ == b,
            Err(m) => r matches Err(e) && e.status == 422 && e.error@ == "decompression failed: "@ + m,
        },
{
    match gunzip(body) {
        Ok(v) => Ok(v),
        Err(m) => {
            proof {
                reveal_strlit("");
            }
            Err(BundleError { status: 422, error: concat3("decompression failed: ", m.as_str(), "") })
        },
    }
}

/// Only major version 1 bundles are imported.
pub fn check_bundle_version(version: &str) -> (r: Result<(), BundleError>)
    ensures
        starts_with(version@, "1."@) ==> r is Ok,
        !starts_with(version@, "1."@) ==> (r matches Err(e) && e.status == 422
            && e.error@ == "unsupported bundle_version: "@ + version@),
{
    let v = chars_of(version);
    let prefix = chars_of("1.");
    if starts_with_chars(&v, &prefix) {
        Ok(())
    } else {
        proof {
            reveal_strlit("");
        }
        Err(BundleError { status: 422, error: concat3("unsupported bundle_version: ", version, "") })
    }
}

// ---------------------------------------------------------------------------
// The import plan
// ---------------------------------------------------------------------------

/// One step of an import. Indices point into the bundle: project `p`, its
/// prompt `q`, that prompt's run `r`; ids are the parsed UUIDs.
#[derive(Debug)]
pub enum ImportOp {
    /// Insert project `p` (id `id`) into the org.
    Project { p: usize, id: u128 },
    /// Insert prompt `q` of project `p` under project `project`.
    Prompt { p: usize, q: usize, id: u128, project: u128 },
    /// Insert run `r` of prompt `q` of project `p` under prompt `prompt`.
    Run { p: usize, q: usize, r: usize, id: u128, prompt: u128 },
    /// Stop: answer 422 with this error text.
    Invalid { error: String },
}

/// An import step as plain values.
pub enum OpView {
    Project { p: int, id: u128 },
    Prompt { p: int, q: int, id: u128, project: u128 },
    Run { p: int, q: int, r: int, id: u128, prompt: u128 },
    Invalid { error: Seq<char> },
}

pub open spec fn op_view(op: ImportOp) -> OpView {
    match op {
        ImportOp::Project { p, id } => OpView::Project { p: p as int, id },
        ImportOp::Prompt { p, q, id, project } => OpView::Prompt { p: p as int, q: q as int, id, project },
        ImportOp::Run { p, q, r, id, prompt } => OpView::Run { p: p as int, q: q as int, r: r as int, id, prompt },
        ImportOp::Invalid { error } => OpView::Invalid { error: error@ },
    }
}

pub open spec fn ops_view(ops: Seq<ImportOp>) -> Seq<OpView> {
    ops.map_values(|o: ImportOp| op_view(o))
}

/// Whether a plan has stopped at an invalid id.
pub open spec fn stopped(ops: Seq<OpView>) -> bool {
    ops.len() > 0 && ops.last() is Invalid
}

/// The steps for the runs of prompt `q` of project `p`.
pub open spec fn run_ops(runs: Seq<BundleRun>, p: int, q: int, prompt: u128) -> Seq<OpView>
    decreases runs.len(),
{
    if runs.len() == 0 {
        Seq::empty()
    } else {
        let prev = run_ops(runs.drop_last(), p, q, prompt);
        if stopped(prev) {
            prev
        } else {
            match uuid_from_str(runs.last().id@) {
                Some(id) => prev.push(OpView::Run { p, q, r: runs.len() - 1, id, prompt }),
                None => prev.push(OpView::Invalid { error: "invalid run id: "@ + runs.last().id@ }),
            }
        }
    }
}

/// The steps for the prompts of project `p`, each followed by its runs.
pub open spec fn prompt_ops(prompts: Seq<BundlePrompt>, p: int, project: u128) -> Seq<OpView>
    decreases prompts.len(),
{
    if prompts.len() == 0 {
        Seq::empty()
    } else {
        let prev = prompt_ops(prompts.drop_last(), p, project);
        if stopped(prev) {
            prev
        } else {
            let q = prompts.len() - 1;
            match uuid_from_str(prompts.last().id@) {
                Some(id) => prev.push(OpView::Prompt { p, q, id, project }) + run_ops(prompts.last().runs@, p, q, id),
                None => prev.push(OpView::Invalid { error: "invalid prompt id: "@ + prompts.last().id@ }),
            }
        }
    }
}

/// The steps for the projects, each followed by its prompts.
pub open spec fn project_ops(projects: Seq<BundleProject>) -> Seq<OpView>
    decreases projects.len(),
{
    if projects.len() == 0 {
        Seq::empty()
    } else {
        let prev = project_ops(projects.drop_last());
        if stopped(prev) {
            prev
        } else {
            let p = projects.len() - 1;
            match uuid_from_str(projects.last().id@) {
                Some(id) => prev.push(OpView::Project { p, id }) + prompt_ops(projects.last().prompts@, p, id),
                None => prev.push(OpView::Invalid { error: "invalid project id: "@ + projects.last().id@ }),
            }
        }
    }
}

/// A run step names run `r` of the given prompt's runs, by its id, under
/// that prompt.
pub open spec fn run_step_ok(op: OpView, runs: Seq<BundleRun>, p: int, q: int, prompt: u128) -> bool {
    match op {
        OpView::Run { p: p2, q: q2, r, id, prompt: pr } => p2 == p && q2 == q && 0 <= r < runs.len()
            && uuid_from_str(runs[r].id@) == Some(id) && pr == prompt,
        OpView::Invalid { .. } => true,
        _ => false,
    }
}

/// A step among a project's prompts names one of that project's prompts (or
/// one of that prompt's runs), by its id, under the project.
pub open spec fn prompt_step_ok(op: OpView, prompts: Seq<BundlePrompt>, p: int, project: u128) -> bool {
    match op {
        OpView::Prompt { p: p2, q, id, project: pj } => p2 == p && 0 <= q < prompts.len()
            && uuid_from_str(prompts[q].id@) == Some(id) && pj == project,
        OpView::Run { p: p2, q, r, id, prompt } => p2 == p && 0 <= q < prompts.len() && 0 <= r < prompts[q].runs@.len()
            && uuid_from_str(prompts[q].runs@[r].id@) == Some(id) && uuid_from_str(prompts[q].id@) == Some(prompt),
        OpView::Invalid { .. } => true,
        _ => false,
    }
}

/// A step of an import names the bundle's own rows: project `p` by its id;
/// prompt `q` of project `p` under that project; run `r` of that prompt under
/// that prompt.
pub open spec fn import_step_ok(op: OpView, projects: Seq<BundleProject>) -> bool {
    match op {
        OpView::Project { p, id } => 0 <= p < projects.len() && uuid_from_str(projects[p].id@) == Some(id),
        OpView::Prompt { p, q, id, project } => 0 <= p < projects.len() && uuid_from_str(projects[p].id@) == Some(project)
            && 0 <= q < projects[p].prompts@.len() && uuid_from_str(projects[p].prompts@[q].id@) == Some(id),
        OpView::Run { p, q, r, id, prompt } => 0 <= p < projects.len() && 0 <= q < projects[p].prompts@.len()
            && 0 <= r < projects[p].prompts@[q].runs@.len()
            && uuid_from_str(projects[p].prompts@[q].runs@[r].id@) == Some(id)
            && uuid_from_str(projects[p].prompts@[q].id@) == Some(prompt),
        OpView::Invalid { .. } => true,
    }
}

proof fn lemma_run_ops_ok(runs: Seq<BundleRun>, p: int, q: int, prompt: u128)
    ensures
        forall|i: int| 0 <= i < run_ops(runs, p, q, prompt).len() ==> run_step_ok(#[trigger] run_ops(runs, p, q, prompt)[i], runs, p, q, prompt),
    decreases runs.len(),
{
    if runs.len() > 0 {
        let d = runs.drop_last();
        lemma_run_ops_ok(d, p, q, prompt);
        let prev = run_ops(d, p, q, prompt);
        assert forall|i: int| 0 <= i < run_ops(runs, p, q, prompt).len() implies run_step_ok(#[trigger] run_ops(runs, p, q, prompt)[i], runs, p, q, prompt) by {
            if i < prev.len() {
                assert(run_ops(runs, p, q, prompt)[i] == prev[i]);
                assert(run_step_ok(prev[i], d, p, q, prompt));
                if let OpView::Run { r, .. } = prev[i] {
                    assert(d[r] == runs[r]);
                }
            } else {
                assert(runs.last() == runs[runs.len() - 1]);
            }
        }
    }
}

proof fn lemma_prompt_ops_ok(prompts: Seq<BundlePrompt>, p: int, project: u128)
    ensures
        forall|i: int| 0 <= i < prompt_ops(prompts, p, project).len() ==> prompt_step_ok(#[trigger] prompt_ops(prompts, p, project)[i], prompts, p, project),
    decreases prompts.len(),
{
    if prompts.len() > 0 {
        let d = prompts.drop_last();
        lemma_prompt_ops_ok(d, p, project);
        let prev = prompt_ops(d, p, project);
        let q = prompts.len() - 1;
        let last = prompts[q];
        assert(prompts.last() == last);
        if !stopped(prev) {
            if let Some(id) = uuid_from_str(last.id@) {
                lemma_run_ops_ok(last.runs@, p, q, id);
            }
        }
        assert forall|i: int| 0 <= i < prompt_ops(prompts, p, project).len() implies prompt_step_ok(#[trigger] prompt_ops(prompts, p, project)[i], prompts, p, project) by {
            let ops = prompt_ops(prompts, p, project);
            if i < prev.len() {
                assert(ops[i] == prev[i]);
                assert(prompt_step_ok(prev[i], d, p, project));
                match prev[i] {
                    OpView::Prompt { q: q2, .. } => {
                        assert(d[q2] == prompts[q2]);
                    },
                    OpView::Run { q: q2, .. } => {
                        assert(d[q2] == prompts[q2]);
                    },
                    _ => {},
                }
            } else if !stopped(prev) {
                match uuid_from_str(last.id@) {
                    Some(id) => {
                        let pv = prev.push(OpView::Prompt { p, q, id, project });
                        let rv = run_ops(last.runs@, p, q, id);
                        assert(ops == pv + rv);
                        if i > prev.len() {
                            assert(ops[i] == rv[i - pv.len()]);
                            assert(run_step_ok(rv[i - pv.len()], last.runs@, p, q, id));
                        }
                    },
                    None => {},
                }
            }
        }
    }
}

/// Law: every step of an import names the bundle's own rows: a project by its
/// index and id, a prompt by its index within its own project and its id
/// (inserted under that project's id), a run by its index within its own
/// prompt and its id (inserted under that prompt's id).
pub proof fn lemma_import_steps_name_their_rows(projects: Seq<BundleProject>)
    ensures
        forall|i: int| 0 <= i < project_ops(projects).len() ==> import_step_ok(#[trigger] project_ops(projects)[i], projects),
    decreases projects.len(),
{
    if projects.len() > 0 {
        let d = projects.drop_last();
        lemma_import_steps_name_their_rows(d);
        let prev = project_ops(d);
        let p = projects.len() - 1;
        let last = projects[p];
        assert(projects.last() == last);
        if !stopped(prev) {
            if let Some(id) = uuid_from_str(last.id@) {
                lemma_prompt_ops_ok(last.prompts@, p, id);
            }
        }
        assert forall|i: int| 0 <= i < project_ops(projects).len() implies import_step_ok(#[trigger] project_ops(projects)[i], projects) by {
            let ops = project_ops(projects);
            if i < prev.len() {
                assert(ops[i] == prev[i]);
                assert(import_step_ok(prev[i], d));
                match prev[i] {
                    OpView::Project { p: p2, .. } => {
                        assert(d[p2] == projects[p2]);
                    },
                    OpView::Prompt { p: p2, .. } => {
                        assert(d[p2] == projects[p2]);
                    },
                    OpView::Run { p: p2, .. } => {
                        assert(d[p2] == projects[p2]);
                    },
                    _ => {},
                }
            } else if !stopped(prev) {
                match uuid_from_str(last.id@) {
                    Some(id) => {
                        let pv = prev.push(OpView::Project { p, id });
                        let rv = prompt_ops(last.prompts@, p, id);
                        assert(ops == pv + rv);
                        if i > prev.len() {
                            assert(ops[i] == rv[i - pv.len()]);
                            assert(prompt_step_ok(rv[i - pv.len()], last.prompts@, p, id));
                        }
                    },
                    None => {},
                }
            }
        }
    }
}

proof fn lemma_stopped_concat(a: Seq<OpView>, b: Seq<OpView>)
    ensures
        stopped(a + b) == (if b.len() == 0 { stopped(a) } else { stopped(b) }),
{
    if b.len() > 0 {
        assert((a + b).last() == b.last());
    } else {
        assert(a + b =~= a);
    }
}

fn invalid_op(prefix: &str, id: &str) -> (op: ImportOp)
    ensures
        op_view(op) == (OpView::Invalid { error: prefix@ + id@ }),
{
    proof {
        reveal_strlit("");
    }
    let e = concat3(prefix, id, "");
    assert(e@ =~= prefix@ + id@);
    ImportOp::Invalid { error: e }
}

fn push_op(out: &mut Vec<ImportOp>, op: ImportOp)
    ensures
        ops_view(final(out)@) == ops_view(old(out)@).push(op_view(op)),
{
    let ghost v = op_view(op);
    out.push(op);
    assert(ops_view(out@) =~= ops_view(old(out)@).push(v));
}

fn plan_runs(runs: &Vec<BundleRun>, p: usize, q: usize, prompt: u128, out: &mut Vec<ImportOp>) -> (ok: bool)
    ensures
        ops_view(final(out)@) == ops_view(old(out)@) + run_ops(runs@, p as int, q as int, prompt),
        ok == !stopped(run_ops(runs@, p as int, q as int, prompt)),
{
    let ghost start = ops_view(out@);
    let mut i: usize = 0;
    assert(runs@.subrange(0, 0) =~= Seq::<BundleRun>::empty());
    assert(ops_view(out@) =~= start + run_ops(runs@.subrange(0, 0), p as int, q as int, prompt));
    while i < runs.len()
        invariant
            i <= runs.len(),
            start == ops_view(old(out)@),
            ops_view(out@) == start + run_ops(runs@.subrange(0, i as int), p as int, q as int, prompt),
            !stopped(run_ops(runs@.subrange(0, i as int), p as int, q as int, prompt)),
        decreases runs.len() - i,
    {
        let ghost pre = runs@.subrange(0, i as int);
        let ghost next = runs@.subrange(0, i + 1);
        assert(next.drop_last() =~= pre);
        match parse_uuid(runs[i].id.as_str()) {
            Some(id) => {
                push_op(out, ImportOp::Run { p, q, r: i, id, prompt });
                assert(ops_view(out@) =~= start + run_ops(next, p as int, q as int, prompt));
            },
            None => {
                let op = invalid_op("invalid run id: ", runs[i].id.as_str());
                push_op(out, op);
                assert(ops_view(out@) =~= start + run_ops(next, p as int, q as int, prompt));
                proof {
                    lemma_run_ops_stuck(runs@, (i + 1) as nat, p as int, q as int, prompt);
                }
                return false;
            },
        }
        i = i + 1;
    }
    assert(runs@.subrange(0, runs.len() as int) =~= runs@);
    true
}

proof fn lemma_run_ops_stuck(runs: Seq<BundleRun>, k: nat, p: int, q: int, prompt: u128)
    requires
        k <= runs.len(),
        stopped(run_ops(runs.subrange(0, k as int), p, q, prompt)),
    ensures
        run_ops(runs, p, q, prompt) == run_ops(runs.subrange(0, k as int), p, q, prompt),
    decreases runs.len() - k,
{
    if k < runs.len() {
        let next = runs.subrange(0, (k + 1) as int);
        assert(next.drop_last() =~= runs.subrange(0, k as int));
        lemma_run_ops_stuck(runs, k + 1, p, q, prompt);
    } else {
        assert(runs.subrange(0, k as int) =~= runs);
    }
}

proof fn lemma_prompt_ops_stuck(prompts: Seq<BundlePrompt>, k: nat, p: int, project: u128)
    requires
        k <= prompts.len(),
        stopped(prompt_ops(prompts.subrange(0, k as int), p, project)),
    ensures
        prompt_ops(prompts, p, project) == prompt_ops(prompts.subrange(0, k as int), p, project),
    decreases prompts.len() - k,
{
    if k < prompts.len() {
        let next = prompts.subrange(0, (k + 1) as int);
        assert(next.drop_last() =~= prompts.subrange(0, k as int));
        lemma_prompt_ops_stuck(prompts, k + 1, p, project);
    } else {
        assert(prompts.subrange(0, k as int) =~= prompts);
    }
}

proof fn lemma_project_ops_stuck(projects: Seq<BundleProject>, k: nat)
    requires
        k <= projects.len(),
        stopped(project_ops(projects.subrange(0, k as int))),
    ensures
        project_ops(projects) == project_ops(projects.subrange(0, k as int)),
    decreases projects.len() - k,
{
    if k < projects.len() {
        let next = projects.subrange(0, (k + 1) as int);
        assert(next.drop_last() =~= projects.subrange(0, k as int));
        lemma_project_ops_stuck(projects, k + 1);
    } else {
        assert(projects.subrange(0, k as int) =~= projects);
    }
}

fn plan_prompts(prompts: &Vec<BundlePrompt>, p: usize, project: u128, out: &mut Vec<ImportOp>) -> (ok: bool)
    ensures
        ops_view(final(out)@) == ops_view(old(out)@) + prompt_ops(prompts@, p as int, project),
        ok == !stopped(prompt_ops(prompts@, p as int, project)),
{
    let ghost start = ops_view(out@);
    let mut i: usize = 0;
    assert(prompts@.subrange(0, 0) =~= Seq::<BundlePrompt>::empty());
    assert(ops_view(out@) =~= start + prompt_ops(prompts@.subrange(0, 0), p as int, project));
    while i < prompts.len()
        invariant
            i <= prompts.len(),
            start == ops_view(old(out)@),
            ops_view(out@) == start + prompt_ops(prompts@.subrange(0, i as int), p as int, project),
            !stopped(prompt_ops(prompts@.subrange(0, i as int), p as int, project)),
        decreases prompts.len() - i,
    {
        let ghost pre = prompts@.subrange(0, i as int);
        let ghost next = prompts@.subrange(0, i + 1);
        assert(next.drop_last() =~= pre);
        let prompt = &prompts[i];
        match parse_uuid(prompt.id.as_str()) {
            Some(id) => {
                push_op(out, ImportOp::Prompt { p, q: i, id, project });
                let ghost mid = ops_view(out@);
                let ok = plan_runs(&prompt.runs, p, i, id, out);
                let ghost pv = prompt_ops(pre, p as int, project).push(OpView::Prompt { p: p as int, q: i as int, id, project });
                let ghost rv = run_ops(prompt.runs@, p as int, i as int, id);
                assert(prompt_ops(next, p as int, project) == pv + rv);
                assert(ops_view(out@) =~= start + prompt_ops(next, p as int, project));
                proof {
                    lemma_stopped_concat(pv, rv);
                }
                if !ok {
                    proof {
                        lemma_prompt_ops_stuck(prompts@, (i + 1) as nat, p as int, project);
                    }
                    return false;
                }
            },
            None => {
                let op = invalid_op("invalid prompt id: ", prompt.id.as_str());
                push_op(out, op);
                assert(ops_view(out@) =~= start + prompt_ops(next, p as int, project));
                proof {
                    lemma_prompt_ops_stuck(prompts@, (i + 1) as nat, p as int, project);
                }
                return false;
            },
        }
        i = i + 1;
    }
    assert(prompts@.subrange(0, prompts.len() as int) =~= prompts@);
    true
}

/// The ordered inserts of an import, ending with the first invalid id, if
/// any.
pub fn plan_import(bundle: &Bundle) -> (ops: Vec<ImportOp>)
    ensures
        ops_view(ops@) == project_ops(bundle.projects@),
        forall|i: int| 0 <= i < ops@.len() ==> import_step_ok(#[trigger] ops_view(ops@)[i], bundle.projects@),
{
    proof {
        lemma_import_steps_name_their_rows(bundle.projects@);
    }
    let mut out: Vec<ImportOp> = Vec::new();
    let projects = &bundle.projects;
    let mut i: usize = 0;
    assert(projects@.subrange(0, 0) =~= Seq::<BundleProject>::empty());
    assert(ops_view(out@) =~= project_ops(projects@.subrange(0, 0)));
    while i < projects.len()
        invariant
            i <= projects.len(),
            *projects == bundle.projects,
            ops_view(out@) == project_ops(projects@.subrange(0, i as int)),
            forall|k: int| 0 <= k < project_ops(bundle.projects@).len()
                ==> import_step_ok(#[trigger] project_ops(bundle.projects@)[k], bundle.projects@),
            !stopped(project_ops(projects@.subrange(0, i as int))),
        decreases projects.len() - i,
    {
        let ghost pre = projects@.subrange(0, i as int);
        let ghost next = projects@.subrange(0, i + 1);
        assert(next.drop_last() =~= pre);
        let project = &projects[i];
        match parse_uuid(project.id.as_str()) {
            Some(id) => {
                push_op(&mut out, ImportOp::Project { p: i, id });
                let ok = plan_prompts(&project.prompts, i, id, &mut out);
                let ghost pv = project_ops(pre).push(OpView::Project { p: i as int, id });
                let ghost rv = prompt_ops(project.prompts@, i as int, id);
                assert(project_ops(next) == pv + rv);
                assert(ops_view(out@) =~= project_ops(next));
                proof {
                    lemma_stopped_concat(pv, rv);
                }
                if !ok {
                    proof {
                        lemma_project_ops_stuck(projects@, (i + 1) as nat);
                    }
                    return out;
                }
            },
            None => {
                let op = invalid_op("invalid project id: ", project.id.as_str());
                push_op(&mut out, op);
                assert(ops_view(out@) =~= project_ops(next));
                proof {
                    lemma_project_ops_stuck(projects@, (i + 1) as nat);
                }
                return out;
            },
        }
        i = i + 1;
    }
    assert(projects@.subrange(0, projects.len() as int) =~= projects@);
    out
}

// ---------------------------------------------------------------------------
// Tally
// ---------------------------------------------------------------------------

/// An empty tally for a bundle of the given version.
pub fn new_summary(bundle_version: String) -> (s: ImportSummary)
    ensures
        s.bundle_version == bundle_version,
        s.projects_imported == 0,
        s.prompts_imported == 0,
        s.runs_imported == 0,
        s.skipped_duplicate_ids == 0,
{
    ImportSummary {
        bundle_version,
        projects_imported: 0,
        prompts_imported: 0,
        runs_imported: 0,
        skipped_duplicate_ids: 0,
    }
}

/// Counts one executed insert: a row that already existed (no row affected)
/// is a skipped duplicate; otherwise it counts for its kind.
pub fn record_insert(summary: &mut ImportSummary, op: &ImportOp, rows_affected: u64)
    requires
        old(summary).projects_imported < usize::MAX,
        old(summary).prompts_imported < usize::MAX,
        old(summary).runs_imported < usize::MAX,
        old(summary).skipped_duplicate_ids < usize::MAX,
    ensures
        final(summary).bundle_version == old(summary).bundle_version,
        rows_affected == 0 && !(op is Invalid) ==> {
            &&& final(summary).skipped_duplicate_ids == old(summary).skipped_duplicate_ids + 1
            &&& final(summary).projects_imported == old(summary).projects_imported
            &&& final(summary).prompts_imported == old(summary).prompts_imported
            &&& final(summary).runs_imported == old(summary).runs_imported
        },
        rows_affected > 0 || op is Invalid ==> final(summary).skipped_duplicate_ids == old(summary).skipped_duplicate_ids,
        final(summary).projects_imported == old(summary).projects_imported + (if op is Project && rows_affected > 0 { 1int } else { 0 }),
        final(summary).prompts_imported == old(summary).prompts_imported + (if op is Prompt && rows_affected > 0 { 1int } else { 0 }),
        final(summary).runs_imported == old(summary).runs_imported + (if op is Run && rows_affected > 0 { 1int } else { 0 }),
{
    match op {
        ImportOp::Invalid { .. } => {},
        _ => {
            if rows_affected == 0 {
                summary.skipped_duplicate_ids = summary.skipped_duplicate_ids + 1;
            } else {
                match op {
                    ImportOp::Project { .. } => {
                        summary.projects_imported = summary.projects_imported + 1;
                    },
                    ImportOp::Prompt { .. } => {
                        summary.prompts_imported = summary.prompts_imported + 1;
                    },
                    _ => {
                        summary.runs_imported = summary.runs_imported + 1;
                    },
                }
            }
        },
    }
}

} // verus!
