//! The API component: which requests it handles, which endpoint a request goes
//! to, and which elements and attributes it reports.
use vstd::prelude::*;
use crate::backend::{state_model, ElementModel};
use crate::filters::{AttributeIdMatcher, Filtering, SingleFilter};
use crate::state::{AttributeValue, State};
use crate::api_types::{ApiResponse, ServerError};
use crate::string_map::{entries_map, keys_distinct, lemma_entries_map_push, StringMap};
use crate::strutil::{starts_with, str_eq, to_owned, trim_end_char, trim_end_spec, trim_start_char, trim_start_spec};

verus! {

/// The default path of the API.
pub fn default_path() -> (r: String)
    ensures
        r@ == "/api/"@,
{
    to_owned("/api/")
}

/// The configuration of the API.
#[derive(Debug, PartialEq)]
pub struct Config {
    /// The path below which the API answers.
    pub path: String,
    /// Which attributes the API reports.
    pub attribute_filter: SingleFilter<AttributeIdMatcher>,
    /// Which elements the API reports.
    pub element_filter: SingleFilter<String>,
}

impl Default for Config {
    fn default() -> (r: Self)
        ensures
            r.path@ == "/api/"@,
            r.attribute_filter.whitelist@.len() == 0 && r.attribute_filter.blacklist@.len() == 0,
            r.element_filter.whitelist@.len() == 0 && r.element_filter.blacklist@.len() == 0,
    {
        Config { path: default_path(), attribute_filter: SingleFilter::default(), element_filter: SingleFilter::default() }
    }
}

/// The API's configuration nested under the key `frontend`.
#[derive(Debug, PartialEq, Default)]
pub struct ConfigWrapper {
    /// The configuration.
    pub frontend: Config,
}

/// Whether `rest` (what follows the API's prefix) is an endpoint of the API.
pub open spec fn is_endpoint(rest: Seq<char>) -> bool {
    ||| rest == ""@
    ||| rest == "/"@
    ||| rest == "/current"@
    ||| rest == "/history/attribute"@
    ||| rest == "/history/online"@
}

/// The API prefix as compared: the configured path without leading and trailing slashes.
pub open spec fn trimmed_prefix(prefix: Seq<char>) -> Seq<char> {
    trim_end_spec(trim_start_spec(prefix, '/'), '/')
}

/// Whether the API handles a request to `path` when configured with `prefix`:
/// the path without leading slashes starts with the trimmed prefix, and what
/// follows is an endpoint.
pub open spec fn handles_path(path: Seq<char>, prefix: Seq<char>) -> bool {
    let p = trim_start_spec(path, '/');
    let pre = trimmed_prefix(prefix);
    pre.is_prefix_of(p) && is_endpoint(p.skip(pre.len() as int))
}

/// Checks whether the API handles a request to `path` when configured with `prefix`.
pub fn should_handle_path(path: &str, prefix: &str) -> (r: bool)
    ensures
        r == handles_path(path@, prefix@),
{
    let path = trim_start_char(path, '/');
    let prefix = trim_end_char(trim_start_char(prefix, '/'), '/');
    if !starts_with(path, prefix) {
        return false;
    }
    let rest = path.substring_char(prefix.unicode_len(), path.unicode_len());
    proof {
        assert(rest@ =~= path@.skip(prefix@.len() as int));
    }
    str_eq(rest, "") || str_eq(rest, "/") || str_eq(rest, "/current") || str_eq(rest, "/history/attribute")
        || str_eq(rest, "/history/online")
}

/// An endpoint of the API.
#[derive(Clone, Copy, Debug, PartialEq, Eq, Structural)]
pub enum Endpoint {
    /// A welcome message.
    Welcome,
    /// The current state of all (reported) elements.
    Current,
    /// The history of an attribute.
    AttributeHistory,
    /// The online-state history of an element.
    OnlineHistory,
    /// A path that passed [`should_handle_path`] but has no handler.
    Unhandled,
}

/// The number of characters of the configured path that precede an endpoint:
/// its length, less a trailing slash.
pub open spec fn prefix_len(config_path: Seq<char>) -> int {
    if config_path.len() > 0 && config_path.last() == '/' {
        config_path.len() - 1
    } else {
        config_path.len() as int
    }
}

/// The endpoint named by `rest`.
pub open spec fn endpoint_of(rest: Seq<char>) -> Endpoint {
    if rest == "/"@ {
        Endpoint::Welcome
    } else if rest == "/current"@ {
        Endpoint::Current
    } else if rest == "/history/attribute"@ {
        Endpoint::AttributeHistory
    } else if rest == "/history/online"@ {
        Endpoint::OnlineHistory
    } else {
        Endpoint::Unhandled
    }
}

/// The endpoint that a request to `request_path` goes to: what follows the
/// configured path (less a trailing slash) in the request path.
pub fn endpoint(request_path: &str, config_path: &str) -> (r: Endpoint)
    requires
        prefix_len(config_path@) <= request_path@.len(),
    ensures
        r == endpoint_of(request_path@.skip(prefix_len(config_path@))),
{
    let mut n = config_path.unicode_len();
    if n > 0 && config_path.get_char(n - 1) == '/' {
        n = n - 1;
    }
    let rest = request_path.substring_char(n, request_path.unicode_len());
    proof {
        assert(rest@ =~= request_path@.skip(prefix_len(config_path@)));
    }
    if str_eq(rest, "/") {
        Endpoint::Welcome
    } else if str_eq(rest, "/current") {
        Endpoint::Current
    } else if str_eq(rest, "/history/attribute") {
        Endpoint::AttributeHistory
    } else if str_eq(rest, "/history/online") {
        Endpoint::OnlineHistory
    } else {
        Endpoint::Unhandled
    }
}

/// Every request that [`endpoint`] routes to a handler is one the API handles:
/// with the API configured at `/q` or `/q/` (`q` neither starting nor ending with
/// `/`), a request to `/q` followed by an endpoint's path is handled, and goes to
/// that endpoint.
pub proof fn law_routed_endpoints_are_handled(q: Seq<char>, trailing: bool, rest: Seq<char>)
    requires
        q.len() > 0,
        q[0] != '/',
        q.last() != '/',
        endpoint_of(rest) != Endpoint::Unhandled,
    ensures
        ({
            let prefix = if trailing { "/"@ + q + "/"@ } else { "/"@ + q };
            let path = "/"@ + q + rest;
            &&& handles_path(path, prefix)
            &&& prefix_len(prefix) <= path.len()
            &&& endpoint_of(path.skip(prefix_len(prefix))) == endpoint_of(rest)
        }),
{
    reveal_strlit("/");
    let prefix = if trailing { "/"@ + q + "/"@ } else { "/"@ + q };
    let path = "/"@ + q + rest;
    assert(path.drop_first() =~= q + rest);
    assert((q + rest)[0] == q[0]);
    assert(trim_start_spec(q + rest, '/') == q + rest);
    assert(trim_start_spec(path, '/') == q + rest);
    let tail = if trailing { q + "/"@ } else { q };
    assert(prefix.drop_first() =~= tail);
    assert(tail[0] == q[0]);
    assert(trim_start_spec(tail, '/') == tail);
    assert(trim_start_spec(prefix, '/') == tail);
    if trailing {
        assert(tail.drop_last() =~= q);
    }
    assert(trim_end_spec(q, '/') == q);
    assert(trimmed_prefix(prefix) == q);
    assert(q.is_prefix_of(q + rest)) by {
        assert((q + rest).subrange(0, q.len() as int) =~= q);
    }
    assert((q + rest).skip(q.len() as int) =~= rest);
    assert(path.skip(prefix_len(prefix)) =~= rest);
}

/// Whether a filter over strings allows the string with characters `id`.
pub open spec fn allows_id(f: SingleFilter<String>, id: Seq<char>) -> bool {
    crate::filters::decide(
        f.priority,
        exists|i: int| 0 <= i < f.whitelist@.len() && #[trigger] f.whitelist@[i]@ == id,
        exists|i: int| 0 <= i < f.blacklist@.len() && #[trigger] f.blacklist@[i]@ == id,
    )
}

/// Whether an attribute filter allows the attribute id with characters `id`.
pub open spec fn allows_attribute(f: SingleFilter<AttributeIdMatcher>, id: Seq<char>) -> bool {
    crate::filters::decide(
        f.priority,
        exists|i: int| 0 <= i < f.whitelist@.len() && #[trigger] f.whitelist@[i].matches_id(id),
        exists|i: int| 0 <= i < f.blacklist@.len() && #[trigger] f.blacklist@[i].matches_id(id),
    )
}

/// A filter over strings decides on a string by its characters.
pub proof fn lemma_allows_id(f: SingleFilter<String>, key: &String)
    ensures
        f.allows_spec(key) == allows_id(f, key@),
{
    let w = exists|i: int| 0 <= i < f.whitelist@.len() && #[trigger] f.whitelist@[i]@ == key@;
    let b = exists|i: int| 0 <= i < f.blacklist@.len() && #[trigger] f.blacklist@[i]@ == key@;
    if crate::filters::some_item_matches(f.whitelist@, key) {
        let i = choose|i: int| 0 <= i < f.whitelist@.len() && #[trigger] f.whitelist@[i].matches_value(key);
        assert(f.whitelist@[i]@ == key@);
    }
    if w {
        let i = choose|i: int| 0 <= i < f.whitelist@.len() && #[trigger] f.whitelist@[i]@ == key@;
        assert(f.whitelist@[i].matches_value(key));
    }
    if crate::filters::some_item_matches(f.blacklist@, key) {
        let i = choose|i: int| 0 <= i < f.blacklist@.len() && #[trigger] f.blacklist@[i].matches_value(key);
        assert(f.blacklist@[i]@ == key@);
    }
    if b {
        let i = choose|i: int| 0 <= i < f.blacklist@.len() && #[trigger] f.blacklist@[i]@ == key@;
        assert(f.blacklist@[i].matches_value(key));
    }
}

/// An attribute filter decides on an attribute id by its characters.
pub proof fn lemma_allows_attribute(f: SingleFilter<AttributeIdMatcher>, key: &String)
    ensures
        f.allows_spec(key) == allows_attribute(f, key@),
{
    let w = exists|i: int| 0 <= i < f.whitelist@.len() && #[trigger] f.whitelist@[i].matches_id(key@);
    let b = exists|i: int| 0 <= i < f.blacklist@.len() && #[trigger] f.blacklist@[i].matches_id(key@);
    if crate::filters::some_item_matches(f.whitelist@, key) {
        let i = choose|i: int| 0 <= i < f.whitelist@.len() && #[trigger] f.whitelist@[i].matches_value(key);
        assert(f.whitelist@[i].matches_id(key@));
    }
    if w {
        let i = choose|i: int| 0 <= i < f.whitelist@.len() && #[trigger] f.whitelist@[i].matches_id(key@);
        assert(f.whitelist@[i].matches_value(key));
    }
    if crate::filters::some_item_matches(f.blacklist@, key) {
        let i = choose|i: int| 0 <= i < f.blacklist@.len() && #[trigger] f.blacklist@[i].matches_value(key);
        assert(f.blacklist@[i].matches_id(key@));
    }
    if b {
        let i = choose|i: int| 0 <= i < f.blacklist@.len() && #[trigger] f.blacklist@[i].matches_id(key@);
        assert(f.blacklist@[i].matches_value(key));
    }
}

/// The states that the `/current` endpoint reports: the elements that the
/// element filter allows, each with the attributes that the attribute filter allows.
pub open spec fn reported_states(
    m: Map<Seq<char>, ElementModel>,
    element_filter: SingleFilter<String>,
    attribute_filter: SingleFilter<AttributeIdMatcher>,
) -> Map<Seq<char>, ElementModel> {
    Map::new(
        |k: Seq<char>| m.dom().contains(k) && allows_id(element_filter, k),
        |k: Seq<char>| reported_element(m[k], attribute_filter),
    )
}

/// An element as reported: only the attributes that the filter allows.
pub open spec fn reported_element(e: ElementModel, attribute_filter: SingleFilter<AttributeIdMatcher>) -> ElementModel {
    ElementModel {
        online: e.online,
        attributes: e.attributes.restrict(Set::new(|a: Seq<char>| allows_attribute(attribute_filter, a))),
    }
}

/// The state `st` with only the attributes that `attribute_filter` allows.
pub fn filter_attributes(st: &State, attribute_filter: &SingleFilter<AttributeIdMatcher>) -> (r: State)
    requires
        st.wf(),
    ensures
        r.wf(),
        state_model(r) == reported_element(state_model(*st), *attribute_filter),
{
    let entries = st.attributes.entries();
    proof { st.attributes.lemma_entries(); }
    let ghost allowed = Set::new(|a: Seq<char>| allows_attribute(*attribute_filter, a));
    let mut attributes: StringMap<AttributeValue> = StringMap::new();
    let mut i: usize = 0;
    while i < entries.len()
        invariant
            i <= entries@.len(),
            entries@ == st.attributes.entries_spec(),
            keys_distinct(entries@),
            attributes.wf(),
            allowed == Set::new(|a: Seq<char>| allows_attribute(*attribute_filter, a)),
            attributes@.map_values(|v: AttributeValue| v@) == entries_map(entries@.take(i as int)).map_values(|v: AttributeValue| v@).restrict(allowed),
        decreases entries@.len() - i,
    {
        let ghost before = attributes@;
        let ghost t = entries@.take(i as int);
        let ghost e = entries@[i as int];
        proof {
            assert(entries@.take(i + 1) =~= t.push(e));
            assert forall|j: int| 0 <= j < t.len() implies t[j].0@ != e.0@ by {
                assert(entries@[j].0@ != entries@[i as int].0@);
            }
            lemma_entries_map_push(t, e);
            crate::string_map::lemma_entries_map_absent(t, e.0@);
        }
        let key = &entries[i].0;
        let allow = attribute_filter.allows(key);
        proof {
            lemma_allows_attribute(*attribute_filter, key);
            assert(key@ == e.0@);
            assert(allowed.contains(key@) == allows_attribute(*attribute_filter, key@));
            assert(allow == allowed.contains(e.0@));
        }
        if allow {
            let value = entries[i].1.clone_value();
            let ghost stored = value;
            attributes.insert(key.clone(), value);
            proof {
                let lhs = attributes@.map_values(|v: AttributeValue| v@);
                let rhs = entries_map(entries@.take(i + 1)).map_values(|v: AttributeValue| v@).restrict(allowed);
                let bm = before.map_values(|v: AttributeValue| v@);
                let em = entries_map(t).map_values(|v: AttributeValue| v@).restrict(allowed);
                assert forall|k: Seq<char>| #[trigger] lhs.dom().contains(k) <==> rhs.dom().contains(k) by {
                    if k != e.0@ {
                        assert(bm.dom().contains(k) == before.dom().contains(k));
                        assert(em.dom().contains(k) == (entries_map(t).dom().contains(k) && allowed.contains(k)));
                    }
                }
                assert forall|k: Seq<char>| #[trigger] lhs.dom().contains(k) implies lhs[k] == rhs[k] by {
                    if k != e.0@ {
                        assert(bm.dom().contains(k) == before.dom().contains(k));
                        assert(bm[k] == em[k]);
                    }
                }
                assert(lhs =~= rhs);
            }
        } else {
            proof {
                let rhs = entries_map(entries@.take(i + 1)).map_values(|v: AttributeValue| v@).restrict(allowed);
                let em = entries_map(t).map_values(|v: AttributeValue| v@).restrict(allowed);
                let full = entries_map(entries@.take(i + 1)).map_values(|v: AttributeValue| v@);
                let base = entries_map(t).map_values(|v: AttributeValue| v@);
                assert(!allowed.contains(e.0@));
                assert forall|k: Seq<char>| #[trigger] rhs.dom().contains(k) <==> em.dom().contains(k) by {
                    if k != e.0@ {
                        assert(full.dom().contains(k) == base.dom().contains(k));
                    }
                }
                assert forall|k: Seq<char>| #[trigger] rhs.dom().contains(k) implies rhs[k] == em[k] by {
                    assert(k != e.0@);
                    assert(full[k] == base[k]);
                }
                assert(rhs =~= em);
            }
        }
        i = i + 1;
    }
    proof {
        assert(entries@.take(entries@.len() as int) =~= entries@);
    }
    let r = State { online: st.online, attributes };
    proof {
        assert(state_model(r).attributes =~= reported_element(state_model(*st), *attribute_filter).attributes);
    }
    r
}

/// The states reported by the `/current` endpoint.
pub fn current_states(
    states: &StringMap<State>,
    element_filter: &SingleFilter<String>,
    attribute_filter: &SingleFilter<AttributeIdMatcher>,
) -> (r: StringMap<State>)
    requires
        states.wf(),
        forall|k: Seq<char>| #[trigger] states@.dom().contains(k) ==> states@[k].wf(),
    ensures
        r.wf(),
        forall|k: Seq<char>| #[trigger] r@.dom().contains(k) ==> r@[k].wf(),
        r@.map_values(|s: State| state_model(s)) == reported_states(
            states@.map_values(|s: State| state_model(s)),
            *element_filter,
            *attribute_filter,
        ),
{
    let entries = states.entries();
    proof { states.lemma_entries(); }
    let ghost f = |s: State| state_model(s);
    let mut r: StringMap<State> = StringMap::new();
    let mut i: usize = 0;
    while i < entries.len()
        invariant
            i <= entries@.len(),
            entries@ == states.entries_spec(),
            keys_distinct(entries@),
            states@ == entries_map(entries@),
            forall|k: Seq<char>| #[trigger] states@.dom().contains(k) ==> states@[k].wf(),
            r.wf(),
            forall|k: Seq<char>| #[trigger] r@.dom().contains(k) ==> r@[k].wf(),
            r@.map_values(|s: State| state_model(s)) == reported_states(
                entries_map(entries@.take(i as int)).map_values(|s: State| state_model(s)),
                *element_filter,
                *attribute_filter,
            ),
        decreases entries@.len() - i,
    {
        let ghost before = r@;
        let ghost t = entries@.take(i as int);
        let ghost e = entries@[i as int];
        proof {
            assert(entries@.take(i + 1) =~= t.push(e));
            assert forall|j: int| 0 <= j < t.len() implies t[j].0@ != e.0@ by {
                assert(entries@[j].0@ != entries@[i as int].0@);
            }
            lemma_entries_map_push(t, e);
            crate::string_map::lemma_entries_map_absent(t, e.0@);
            crate::string_map::lemma_entries_map_at(entries@, i as int);
        }
        let key = &entries[i].0;
        let allow = element_filter.allows(key);
        proof {
            lemma_allows_id(*element_filter, key);
        }
        let ghost old_rep = reported_states(entries_map(t).map_values(|s: State| state_model(s)), *element_filter, *attribute_filter);
        let ghost new_rep = reported_states(entries_map(entries@.take(i + 1)).map_values(|s: State| state_model(s)), *element_filter, *attribute_filter);
        if allow {
            let st = filter_attributes(&entries[i].1, attribute_filter);
            let ghost stored = st;
            r.insert(key.clone(), st);
            proof {
                let lhs = r@.map_values(|s: State| state_model(s));
                let bm = before.map_values(|s: State| state_model(s));
                assert forall|k: Seq<char>| #[trigger] lhs.dom().contains(k) <==> new_rep.dom().contains(k) by {
                    if k != e.0@ {
                        assert(bm.dom().contains(k) == before.dom().contains(k));
                    }
                }
                assert forall|k: Seq<char>| #[trigger] lhs.dom().contains(k) implies lhs[k] == new_rep[k] by {
                    if k != e.0@ {
                        assert(bm.dom().contains(k) == before.dom().contains(k));
                        assert(bm[k] == old_rep[k]);
                    }
                }
                assert(lhs =~= new_rep);
                assert forall|k: Seq<char>| #[trigger] r@.dom().contains(k) implies r@[k].wf() by {
                    if k != e.0@ {
                        assert(before.dom().contains(k));
                    }
                }
            }
        } else {
            proof {
                assert(new_rep =~= old_rep);
            }
        }
        i = i + 1;
    }
    proof {
        assert(entries@.take(entries@.len() as int) =~= entries@);
    }
    r
}

/// The welcome message of the API's root.
pub fn welcome() -> (r: (u16, ApiResponse<String, ()>))
    ensures
        r.0 == 200,
        r.1 matches ApiResponse::Success(m) && m@ == "Welcome to the API!"@,
{
    (200, ApiResponse::Success(to_owned("Welcome to the API!")))
}

/// The answer to a history request: 404 when there is no history component,
/// 500 when it failed (with its message), else 200 with the history.
pub fn history_answer<V>(found: Option<Result<V, String>>) -> (r: (u16, ApiResponse<V, String>))
    ensures
        match found {
            None => r.0 == 404 && (r.1 matches ApiResponse::ClientError(m) && m@ == "invalid element/attribute id"@),
            Some(Err(e)) => r.0 == 500 && (r.1 matches ApiResponse::ServerError(se)
                && se.id@ == "history.internal"@ && se.message@ == e@),
            Some(Ok(v)) => r.0 == 200 && r.1 == ApiResponse::<V, String>::Success(v),
        },
{
    match found {
        None => (404, ApiResponse::ClientError(to_owned("invalid element/attribute id"))),
        Some(Err(e)) => (500, ApiResponse::ServerError(ServerError { id: to_owned("history.internal"), message: e })),
        Some(Ok(v)) => (200, ApiResponse::Success(v)),
    }
}

/// The answer for a path that passed [`should_handle_path`] without a handler.
pub fn unhandled_route() -> (r: (u16, ServerError))
    ensures
        r.0 == 500,
        r.1.id@ == "unhandled.route"@,
        r.1.message@ == "Route marked as handled without a handle registered!"@,
{
    (500, ServerError { id: to_owned("unhandled.route"), message: to_owned("Route marked as handled without a handle registered!") })
}

/// The error sent when a response could not be written as JSON.
pub fn serialization_failure(message: String) -> (r: (u16, ServerError))
    ensures
        r.0 == 500,
        r.1.id@ == "json.serialize"@,
        r.1.message == message,
{
    (500, ServerError { id: to_owned("json.serialize"), message })
}

} // verus!
