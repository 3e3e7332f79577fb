//! External classic scripts that do not block the first paint: which fetches
//! to start, whether a fetched script still fits the page's budget, and how
//! the outcomes of several script runs add up.
use crate::text::{push_str, string_of, text_eq};
use vstd::prelude::*;

verus! {

/// Fetches that run at once, so a hostile page cannot multiply the per-response
/// allowance into a large transient allocation.
pub const MAX_PARALLEL_ASYNC_SCRIPT_FETCHES: usize = 4;

/// A script element of the loaded page.
pub struct PendingScript {
    pub source_url: String,
    pub node_id: u128,
    pub blocks_first_paint: bool,
    /// The script's code is already known (inline or fetched).
    pub has_code: bool,
}

/// One fetch: a URL and every script element that names it, in page order.
pub struct AsyncScriptRequest {
    pub source_url: String,
    pub node_ids: Vec<u128>,
}

/// A request's URL and element ids as plain values.
pub open spec fn request_view(r: AsyncScriptRequest) -> (Seq<char>, Seq<u128>) {
    (r.source_url@, r.node_ids@)
}

/// Index of the request for `url`, if there is one.
pub open spec fn request_index(rs: Seq<(Seq<char>, Seq<u128>)>, url: Seq<char>) -> Option<int>
    decreases rs.len(),
{
    if rs.len() == 0 {
        None
    } else if rs.last().0 == url {
        match request_index(rs.drop_last(), url) {
            Some(i) => Some(i),
            None => Some(rs.len() - 1),
        }
    } else {
        request_index(rs.drop_last(), url)
    }
}

/// The fetches for the scripts `s`: each script that neither blocks the first
/// paint nor has code joins the request for its URL, which is created, in
/// page order, by the first script naming it.
pub open spec fn grouped_requests(s: Seq<PendingScript>) -> Seq<(Seq<char>, Seq<u128>)>
    decreases s.len(),
{
    if s.len() == 0 {
        Seq::empty()
    } else {
        let rs = grouped_requests(s.drop_last());
        let script = s.last();
        if script.blocks_first_paint || script.has_code {
            rs
        } else {
            match request_index(rs, script.source_url@) {
                Some(i) => rs.update(i, (rs[i].0, rs[i].1.push(script.node_id))),
                None => rs.push((script.source_url@, seq![script.node_id])),
            }
        }
    }
}

proof fn lemma_request_index(rs: Seq<(Seq<char>, Seq<u128>)>, url: Seq<char>)
    ensures
        match request_index(rs, url) {
            Some(i) => 0 <= i < rs.len() && rs[i].0 == url && forall|j: int| 0 <= j < i ==> rs[j].0 != url,
            None => forall|j: int| 0 <= j < rs.len() ==> rs[j].0 != url,
        },
    decreases rs.len(),
{
    if rs.len() > 0 {
        lemma_request_index(rs.drop_last(), url);
        assert forall|j: int| 0 <= j < rs.len() - 1 implies rs.drop_last()[j] == rs[j] by {}
    }
}

/// Groups the page's non-blocking external scripts into fetches.
pub fn group_async_scripts(scripts: &Vec<PendingScript>) -> (requests: Vec<AsyncScriptRequest>)
    ensures
        requests@.map_values(|r: AsyncScriptRequest| request_view(r)) == grouped_requests(scripts@),
{
    let mut requests: Vec<AsyncScriptRequest> = Vec::new();
    let mut i: usize = 0;
    while i < scripts.len()
        invariant
            i <= scripts@.len(),
            requests@.map_values(|r: AsyncScriptRequest| request_view(r)) == grouped_requests(
                scripts@.take(i as int),
            ),
        decreases scripts@.len() - i,
    {
        let ghost before = requests@.map_values(|r: AsyncScriptRequest| request_view(r));
        proof {
            assert(scripts@.take(i + 1).drop_last() =~= scripts@.take(i as int));
            assert(scripts@.take(i + 1).last() == scripts@[i as int]);
            lemma_request_index(before, scripts@[i as int].source_url@);
        }
        let script = &scripts[i];
        if !script.blocks_first_paint && !script.has_code {
            let mut found: Option<usize> = None;
            let mut k: usize = 0;
            while k < requests.len() && found.is_none()
                invariant
                    k <= requests@.len(),
                    before == requests@.map_values(|r: AsyncScriptRequest| request_view(r)),
                    found is None ==> forall|j: int| 0 <= j < k ==> before[j].0 != script.source_url@,
                    found matches Some(f) ==> f < requests@.len() && before[f as int].0 == script.source_url@
                        && forall|j: int| 0 <= j < f ==> before[j].0 != script.source_url@,
                decreases requests@.len() - k + (if found is None { 1int } else { 0int }),
            {
                let same = text_eq(requests[k].source_url.as_str(), script.source_url.as_str());
                assert(before[k as int] == request_view(requests@[k as int]));
                if same {
                    found = Some(k);
                } else {
                    k = k + 1;
                }
            }
            match found {
                Some(f) => {
                    let ghost old_reqs = requests@;
                    let mut r = requests.remove(f);
                    r.node_ids.push(script.node_id);
                    requests.insert(f, r);
                    proof {
                        let idx = request_index(before, script.source_url@);
                        assert(idx == Some(f as int)) by {
                            match idx {
                                Some(j) => {
                                    if j < f {
                                    } else if j > f {
                                    }
                                },
                                None => {
                                    assert(before[f as int].0 == script.source_url@);
                                },
                            }
                        }
                        assert(requests@ =~= old_reqs.update(f as int, r));
                        assert(requests@.map_values(|r: AsyncScriptRequest| request_view(r)) =~= before.update(
                            f as int,
                            (before[f as int].0, before[f as int].1.push(script.node_id)),
                        ));
                    }
                },
                None => {
                    let mut ids: Vec<u128> = Vec::new();
                    ids.push(script.node_id);
                    requests.push(
                        AsyncScriptRequest { source_url: crate::text::string_from(script.source_url.as_str()), node_ids: ids },
                    );
                    proof {
                        assert(requests@.map_values(|r: AsyncScriptRequest| request_view(r)) =~= before.push(
                            (script.source_url@, seq![script.node_id]),
                        ));
                    }
                },
            }
        } else {
            proof {
                assert(requests@.map_values(|r: AsyncScriptRequest| request_view(r)) == before);
            }
        }
        i = i + 1;
    }
    proof {
        assert(scripts@.take(scripts@.len() as int) =~= scripts@);
    }
    requests
}

/// What running page scripts produced, as the browser consumes it.
pub struct ScriptOutcome {
    pub executed: usize,
    pub mutation_count: usize,
    pub errors: Vec<String>,
    pub console: Vec<String>,
    pub diagnostics: Vec<String>,
    /// A navigation the scripts asked for; the last one wins.
    pub navigation_url: Option<String>,
    pub cookie_updates: Vec<String>,
    pub runtime_stopped: bool,
    pub render_requested: bool,
}

/// Adds the outcome of a later run to `target`: counts add up, lists are
/// appended in order, a requested navigation replaces an earlier one, and the
/// flags stay set once set.
pub fn merge_script_outcome(target: &mut ScriptOutcome, source: ScriptOutcome)
    requires
        old(target).executed + source.executed <= usize::MAX,
        old(target).mutation_count + source.mutation_count <= usize::MAX,
    ensures
        final(target).executed == old(target).executed + source.executed,
        final(target).mutation_count == old(target).mutation_count + source.mutation_count,
        final(target).errors@ == old(target).errors@ + source.errors@,
        final(target).console@ == old(target).console@ + source.console@,
        final(target).diagnostics@ == old(target).diagnostics@ + source.diagnostics@,
        final(target).navigation_url == (if source.navigation_url is Some {
            source.navigation_url
        } else {
            old(target).navigation_url
        }),
        final(target).cookie_updates@ == old(target).cookie_updates@ + source.cookie_updates@,
        final(target).runtime_stopped == (old(target).runtime_stopped || source.runtime_stopped),
        final(target).render_requested == (old(target).render_requested || source.render_requested),
{
    let mut source = source;
    target.executed = target.executed + source.executed;
    target.mutation_count = target.mutation_count + source.mutation_count;
    target.errors.append(&mut source.errors);
    target.console.append(&mut source.console);
    target.diagnostics.append(&mut source.diagnostics);
    if source.navigation_url.is_some() {
        target.navigation_url = source.navigation_url;
    }
    target.cookie_updates.append(&mut source.cookie_updates);
    target.runtime_stopped = target.runtime_stopped || source.runtime_stopped;
    target.render_requested = target.render_requested || source.render_requested;
}

/// Whether a fetched async script runs: it does when the fetch succeeded with
/// `Ok(bytes)` and the bytes fit the remaining page budget, which shrinks by
/// them; otherwise the error names the script's URL and the reason.
pub fn admit_async_script(url: &str, fetched: Result<u64, String>, budget: u64) -> (r: Result<u64, String>)
    ensures
        match fetched {
            Ok(bytes) => if bytes <= budget {
                r == Ok::<u64, String>((budget - bytes) as u64)
            } else {
                r matches Err(e) && e@ == url@ + ": async script skipped because the page resource budget was exhausted"@
            },
            Err(error) => r matches Err(e) && e@ == url@ + ": async script could not be loaded: "@ + error@,
        },
{
    match fetched {
        Ok(bytes) => {
            if bytes <= budget {
                Ok(budget - bytes)
            } else {
                let mut v = crate::text::chars_of(url);
                push_str(&mut v, ": async script skipped because the page resource budget was exhausted");
                Err(string_of(v.as_slice()))
            }
        },
        Err(error) => {
            let mut v = crate::text::chars_of(url);
            push_str(&mut v, ": async script could not be loaded: ");
            push_str(&mut v, error.as_str());
            Err(string_of(v.as_slice()))
        },
    }
}

/// Whether a script that a running script loads on demand may be used: the
/// response must be a success and fit the remaining budget, which shrinks by
/// its size.
pub fn admit_loaded_script(success: bool, status: u16, size: u64, budget: u64) -> (r: Result<u64, String>)
    ensures
        !success ==> (r matches Err(e) && e@ == "server returned HTTP "@ + crate::text::decimal(status as nat)),
        success && size > budget ==> (r matches Err(e) && e@ == "page resource budget was exhausted"@),
        success && size <= budget ==> r == Ok::<u64, String>((budget - size) as u64),
{
    if !success {
        let mut v: Vec<char> = Vec::new();
        push_str(&mut v, "server returned HTTP ");
        assert(v@ =~= "server returned HTTP "@);
        crate::text::push_decimal(&mut v, status as u64);
        return Err(string_of(v.as_slice()));
    }
    if size > budget {
        return Err(crate::text::string_from("page resource budget was exhausted"));
    }
    Ok(budget - size)
}

} // verus!
