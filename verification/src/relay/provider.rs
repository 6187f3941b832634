//! The node service: what it is asked, and what is made of its answers.
use vstd::prelude::*;
use vstd::utf8::encode_utf8;

use crate::center::scaffolding_center;
use crate::json;
use crate::json::{Json, JsonValue};
use crate::relay::nodes;
use crate::text;

verus! {

/// Where the node service is.
pub const ENDPOINT: &'static str = "https://nodes.qomicex.top/api/nodes";

/// How the connector names itself where the application gives no name.
pub const DEFAULT_USER_AGENT: &'static str = "Qomicex.Connector/1.0";

// ---------------------------------------------------------------------------------------
// The region
// ---------------------------------------------------------------------------------------
/// The region that a locale such as `zh-CN` names: its second part in capitals, or `CN`.
pub open spec fn locale_region(locale: Option<Seq<char>>) -> Seq<char> {
    match locale {
        Some(name) => {
            let parts = text::split(name, '-');
            if parts.len() > 1 {
                text::upper(parts[1])
            } else {
                "CN"@
            }
        },
        None => "CN"@,
    }
}

/// The region that a locale names: its second part in capitals, or `CN`.
pub fn region_of_locale(locale: Option<String>) -> (region: String)
    ensures
        region@ == locale_region(text::optional_text(locale)),
{
    match locale {
        Some(name) => {
            let parts = text::split_text(name.as_str(), '-');
            if parts.len() > 1 {
                assert(text::texts(parts@)[1] == parts@[1]@);
                text::upper_text(parts[1].as_str())
            } else {
                "CN".to_owned()
            }
        },
        None => "CN".to_owned(),
    }
}

/// `sys_locale::get_locale`: the locale that the system is set to, of which nothing is known.
#[verifier::external_body]
fn system_locale() -> (locale: Option<String>) {
    sys_locale::get_locale()
}

/// The region that the system is set to.
pub fn detect_system_region() -> (region: String)
    ensures
        exists|locale: Option<Seq<char>>| region@ == #[trigger] locale_region(locale),
{
    let locale = system_locale();
    region_of_locale(locale)
}

// ---------------------------------------------------------------------------------------
// The list of nodes
// ---------------------------------------------------------------------------------------
/// The URL of a listed node: a text that is not blank.
pub open spec fn node_url(item: Json) -> Option<Seq<char>> {
    match item.get("url"@) {
        Some(value) => match value.as_text() {
            Some(url) => if text::trim(url).len() > 0 {
                Some(url)
            } else {
                None
            },
            None => None,
        },
        None => None,
    }
}

/// Whether a listed node lies in the preferred region; ASCII case does not matter.
pub open spec fn in_region(item: Json, preferred: Option<Seq<char>>) -> bool {
    match (preferred, item.get("region"@)) {
        (Some(wanted), Some(value)) => match value.as_text() {
            Some(region) => text::lower(region) == text::lower(wanted),
            None => false,
        },
        _ => false,
    }
}

/// The URLs of the listed nodes that lie in the preferred region, or of those that do not, in
/// their order.
pub open spec fn urls_where(items: Seq<Json>, preferred: Option<Seq<char>>, inside: bool) -> Seq<
    Seq<char>,
>
    decreases items.len(),
{
    if items.len() == 0 {
        Seq::empty()
    } else {
        let urls = urls_where(items.drop_last(), preferred, inside);
        match node_url(items.last()) {
            Some(url) => if in_region(items.last(), preferred) == inside {
                urls.push(url)
            } else {
                urls
            },
            None => urls,
        }
    }
}

/// The URLs that a document lists: those in the preferred region first, and each group in its
/// order. A document that is no array lists none.
pub open spec fn listed_urls(root: Json, preferred: Option<Seq<char>>) -> Seq<Seq<char>> {
    match root.as_array() {
        Some(items) => urls_where(items, preferred, true) + urls_where(items, preferred, false),
        None => Seq::empty(),
    }
}

/// The URLs that a text lists; a text that is no JSON lists none.
pub open spec fn listed_in(document: Seq<char>, preferred: Option<Seq<char>>) -> Seq<Seq<char>> {
    match json::json_parsed(encode_utf8(document)) {
        Ok(root) => listed_urls(root, preferred),
        Err(_) => Seq::empty(),
    }
}

/// The text that an optional reference holds.
pub open spec fn optional_str(string: Option<&str>) -> Option<Seq<char>> {
    match string {
        Some(s) => Some(s@),
        None => None,
    }
}

fn url_of_node(item: &JsonValue) -> (url: Option<String>)
    ensures
        text::optional_text(url) == node_url(item@),
{
    match item.get("url") {
        Some(value) => match value.as_text() {
            Some(url) => if text::is_blank(url) {
                None
            } else {
                Some(url.to_owned())
            },
            None => None,
        },
        None => None,
    }
}

fn is_in_region(item: &JsonValue, preferred: Option<&str>) -> (inside: bool)
    ensures
        inside == in_region(item@, optional_str(preferred)),
{
    match preferred {
        Some(wanted) => match item.get("region") {
            Some(value) => match value.as_text() {
                Some(region) => {
                    let a = text::lower_text(region);
                    let b = text::lower_text(wanted);
                    text::same_text(a.as_str(), b.as_str())
                },
                None => false,
            },
            None => false,
        },
        None => false,
    }
}

/// The URLs that a document lists, those in the preferred region first.
pub fn nodes_from_json(root: &JsonValue, preferred_region: Option<&str>) -> (urls: Vec<String>)
    ensures
        text::texts(urls@) == listed_urls(root@, optional_str(preferred_region)),
{
    let ghost wanted = optional_str(preferred_region);
    let mut preferred: Vec<String> = Vec::new();
    let mut rest: Vec<String> = Vec::new();
    match root {
        JsonValue::Array(items) => {
            let ghost all = root@->Array_0;
            assert(text::texts(preferred@) =~= urls_where(all.take(0), wanted, true));
            assert(text::texts(rest@) =~= urls_where(all.take(0), wanted, false));
            for i in 0..items.len()
                invariant
                    wanted == optional_str(preferred_region),
                    all == root@->Array_0,
                    *root == JsonValue::Array(*items),
                    text::texts(preferred@) == urls_where(all.take(i as int), wanted, true),
                    text::texts(rest@) == urls_where(all.take(i as int), wanted, false),
            {
                assert(all.take(i + 1).drop_last() =~= all.take(i as int));
                assert(all.take(i + 1).last() == items@[i as int]@);
                let ghost before = (preferred@, rest@);
                if let Some(url) = url_of_node(&items[i]) {
                    let ghost added = url@;
                    if is_in_region(&items[i], preferred_region) {
                        preferred.push(url);
                        assert(text::texts(preferred@) =~= text::texts(before.0).push(added));
                    } else {
                        rest.push(url);
                        assert(text::texts(rest@) =~= text::texts(before.1).push(added));
                    }
                }
            }
            assert(all.take(all.len() as int) =~= all);
        },
        _ => {},
    }
    let ghost parts = (text::texts(preferred@), text::texts(rest@));
    preferred.append(&mut rest);
    assert(text::texts(preferred@) =~= parts.0 + parts.1);
    assert(!(root is Array) ==> text::texts(preferred@) =~= Seq::empty());
    preferred
}

/// The URLs that a text lists as a JSON array of objects with a `url` and a `region`: those in
/// the preferred region first. A text that is no such list yields none.
pub fn parse_nodes(document: &str, preferred_region: Option<&str>) -> (urls: Vec<String>)
    ensures
        text::texts(urls@) == listed_in(document@, optional_str(preferred_region)),
{
    let bytes = text::utf8_bytes(document);
    match json::parse_json(bytes.as_slice()) {
        Ok(root) => nodes_from_json(&root, preferred_region),
        Err(_) => {
            let none: Vec<String> = Vec::new();
            assert(text::texts(none@) =~= Seq::empty());
            none
        },
    }
}

// ---------------------------------------------------------------------------------------
// Nodes that have to be looked up
// ---------------------------------------------------------------------------------------
/// Whether a node is given by an address that has to be asked for the node itself: it begins
/// with `http://` or `https://`, in any case.
pub open spec fn needs_lookup(node: Seq<char>) -> bool {
    "http://"@.is_prefix_of(text::lower(node)) || "https://"@.is_prefix_of(text::lower(node))
}

/// The node that the answer of an address names: its text without white space around it, where
/// anything is left of it.
pub open spec fn node_in_answer(answer: Option<Seq<char>>) -> Option<Seq<char>> {
    match answer {
        Some(body) => if text::trim(body).len() > 0 {
            Some(text::trim(body))
        } else {
            None
        },
        None => None,
    }
}

/// How many of the nodes have to be looked up.
pub open spec fn lookups(nodes: Seq<Seq<char>>) -> nat
    decreases nodes.len(),
{
    if nodes.len() == 0 {
        0
    } else if needs_lookup(nodes.last()) {
        lookups(nodes.drop_last()) + 1
    } else {
        lookups(nodes.drop_last())
    }
}

/// The nodes with those that have to be looked up replaced by what the answers name, in their
/// order. Those whose address was not answered, or whose answer names no node, are left out.
pub open spec fn looked_up(nodes: Seq<Seq<char>>, answers: Seq<Option<Seq<char>>>) -> Seq<
    Seq<char>,
>
    decreases nodes.len(),
{
    if nodes.len() == 0 {
        Seq::empty()
    } else {
        let before = looked_up(nodes.drop_last(), answers);
        if needs_lookup(nodes.last()) {
            let place = lookups(nodes.drop_last());
            if place < answers.len() {
                match node_in_answer(answers[place as int]) {
                    Some(node) => before.push(node),
                    None => before,
                }
            } else {
                before
            }
        } else {
            before.push(nodes.last())
        }
    }
}

/// The answers to the lookups, as texts.
pub open spec fn answer_texts(answers: Seq<Option<String>>) -> Seq<Option<Seq<char>>> {
    answers.map_values(|a: Option<String>| text::optional_text(a))
}

/// Whether a node is given by an address that has to be asked for the node itself.
pub fn is_http_url(node: &str) -> (is: bool)
    ensures
        is == needs_lookup(node@),
{
    let low = text::lower_text(node);
    text::begins_with(low.as_str(), "http://") || text::begins_with(low.as_str(), "https://")
}

/// The addresses that have to be asked, in their order.
pub fn addresses_to_ask(nodes: &Vec<String>) -> (addresses: Vec<String>)
    ensures
        text::texts(addresses@) == text::texts(nodes@).filter(|n: Seq<char>| needs_lookup(n)),
        addresses@.len() == lookups(text::texts(nodes@)),
{
    let ghost all = text::texts(nodes@);
    let mut addresses: Vec<String> = Vec::new();
    proof {
        reveal(Seq::filter);
    }
    assert(text::texts(addresses@) =~= all.take(0).filter(|n: Seq<char>| needs_lookup(n)));
    for i in 0..nodes.len()
        invariant
            all == text::texts(nodes@),
            text::texts(addresses@) == all.take(i as int).filter(|n: Seq<char>| needs_lookup(n)),
            addresses@.len() == lookups(all.take(i as int)),
    {
        proof {
            reveal(Seq::filter);
        }
        assert(all.take(i + 1).drop_last() =~= all.take(i as int));
        let ghost before = addresses@;
        if is_http_url(nodes[i].as_str()) {
            addresses.push(nodes[i].clone());
            assert(text::texts(addresses@) =~= text::texts(before).push(all[i as int]));
        }
    }
    assert(all.take(all.len() as int) =~= all);
    addresses
}

/// The node that the answer of an address names, where the address was answered.
pub fn node_from_answer(answer: &Option<String>) -> (node: Option<String>)
    ensures
        text::optional_text(node) == node_in_answer(text::optional_text(*answer)),
{
    match answer {
        Some(body) => {
            let inner = text::trimmed(body.as_str());
            if text::chars_of(inner.as_str()).len() > 0 {
                Some(inner)
            } else {
                None
            }
        },
        None => None,
    }
}

/// The nodes with those that had to be looked up replaced by what the answers name.
pub fn resolve_lookups(nodes: &Vec<String>, answers: &Vec<Option<String>>) -> (resolved: Vec<String>)
    requires
        answers@.len() == lookups(text::texts(nodes@)),
    ensures
        text::texts(resolved@) == looked_up(text::texts(nodes@), answer_texts(answers@)),
{
    let ghost all = text::texts(nodes@);
    let ghost given = answer_texts(answers@);
    let mut resolved: Vec<String> = Vec::new();
    let mut asked: usize = 0;
    assert(text::texts(resolved@) =~= looked_up(all.take(0), given));
    for i in 0..nodes.len()
        invariant
            all == text::texts(nodes@),
            given == answer_texts(answers@),
            asked <= i,
            asked == lookups(all.take(i as int)),
            text::texts(resolved@) == looked_up(all.take(i as int), given),
    {
        assert(all.take(i + 1).drop_last() =~= all.take(i as int));
        let ghost before = resolved@;
        if is_http_url(nodes[i].as_str()) {
            if asked < answers.len() {
                assert(given[asked as int] == text::optional_text(answers@[asked as int]));
                if let Some(node) = node_from_answer(&answers[asked]) {
                    let ghost named = node@;
                    resolved.push(node);
                    assert(text::texts(resolved@) =~= text::texts(before).push(named));
                }
            }
            asked += 1;
        } else {
            resolved.push(nodes[i].clone());
            assert(text::texts(resolved@) =~= text::texts(before).push(all[i as int]));
        }
    }
    assert(all.take(all.len() as int) =~= all);
    resolved
}

/// The nodes that are used: those that the service named, or the built-in ones where it could
/// not be asked or named none.
pub open spec fn nodes_used(fetched: Option<Seq<Seq<char>>>) -> Seq<Seq<char>> {
    match fetched {
        Some(named) => if named.len() > 0 {
            named
        } else {
            nodes::default_node_texts()
        },
        None => nodes::default_node_texts(),
    }
}

/// The nodes that are used: those that the service named, or the built-in ones where it could
/// not be asked or named none.
pub fn nodes_or_default(fetched: Option<Vec<String>>) -> (used: Vec<String>)
    ensures
        text::texts(used@) == nodes_used(scaffolding_center::optional_texts(fetched)),
        used@.len() > 0,
{
    let used = match fetched {
        Some(named) => if named.len() > 0 {
            named
        } else {
            nodes::default_nodes()
        },
        None => nodes::default_nodes(),
    };
    assert(text::texts(used@).len() > 0);
    used
}

// ---------------------------------------------------------------------------------------
// The provider
// ---------------------------------------------------------------------------------------
/// How the connector names itself: by the given name, or by the default one where it is missing
/// or blank.
pub open spec fn agent_name(given: Option<Seq<char>>) -> Seq<char> {
    match given {
        Some(name) => if text::trim(name).len() > 0 {
            name
        } else {
            DEFAULT_USER_AGENT@
        },
        None => DEFAULT_USER_AGENT@,
    }
}

/// How the node service is asked.
#[derive(Debug)]
pub struct RelayNodeProvider {
    user_agent: String,
    preferred_region: Option<String>,
    endpoint: String,
}

impl RelayNodeProvider {
    /// How the connector names itself.
    pub closed spec fn agent(&self) -> Seq<char> {
        self.user_agent@
    }

    /// The region whose nodes come first.
    pub closed spec fn region(&self) -> Option<Seq<char>> {
        text::optional_text(self.preferred_region)
    }

    /// Where the node service is.
    pub closed spec fn address(&self) -> Seq<char> {
        self.endpoint@
    }

    /// A provider with the given name, or the default one where it is missing or blank, and
    /// with the given region, or the one that the system is set to.
    pub fn new(user_agent: Option<String>, preferred_region: Option<String>) -> (provider: Self)
        ensures
            provider.agent() == agent_name(text::optional_text(user_agent)),
            provider.address() == ENDPOINT@,
            match preferred_region {
                Some(region) => provider.region() == Some(region@),
                None => exists|locale: Option<Seq<char>>|
                    provider.region() == Some(#[trigger] locale_region(locale)),
            },
    {
        let agent = match user_agent {
            Some(name) => if text::is_blank(name.as_str()) {
                DEFAULT_USER_AGENT.to_owned()
            } else {
                name
            },
            None => DEFAULT_USER_AGENT.to_owned(),
        };
        let region = match preferred_region {
            Some(region) => region,
            None => detect_system_region(),
        };
        RelayNodeProvider {
            user_agent: agent,
            preferred_region: Some(region),
            endpoint: ENDPOINT.to_owned(),
        }
    }

    /// The provider with the node service at another place.
    pub fn with_endpoint(self, endpoint: &str) -> (provider: Self)
        ensures
            provider.address() == endpoint@,
            provider.agent() == self.agent(),
            provider.region() == self.region(),
    {
        RelayNodeProvider {
            user_agent: self.user_agent,
            preferred_region: self.preferred_region,
            endpoint: endpoint.to_owned(),
        }
    }

    /// Where the node service is.
    pub fn endpoint(&self) -> (address: &str)
        ensures
            address@ == self.address(),
    {
        self.endpoint.as_str()
    }

    /// How the connector names itself.
    pub fn user_agent(&self) -> (agent: &str)
        ensures
            agent@ == self.agent(),
    {
        self.user_agent.as_str()
    }

    /// The nodes that the service's answer lists, in the order in which they are used.
    pub fn nodes_in(&self, document: &str) -> (urls: Vec<String>)
        ensures
            text::texts(urls@) == listed_in(document@, self.region()),
    {
        match &self.preferred_region {
            Some(region) => parse_nodes(document, Some(region.as_str())),
            None => parse_nodes(document, None),
        }
    }
}

// ---------------------------------------------------------------------------------------
// Laws
// ---------------------------------------------------------------------------------------
/// Which region is preferred changes the order of the nodes, and loses or adds none.
pub proof fn region_only_reorders(items: Seq<Json>, preferred: Option<Seq<char>>)
    ensures
        (urls_where(items, preferred, true) + urls_where(items, preferred, false)).to_multiset()
            == urls_where(items, None, false).to_multiset(),
        urls_where(items, None, true).len() == 0,
    decreases items.len(),
{
    broadcast use vstd::seq_lib::group_to_multiset_ensures;

    if items.len() > 0 {
        region_only_reorders(items.drop_last(), preferred);
        let inside = urls_where(items.drop_last(), preferred, true);
        let outside = urls_where(items.drop_last(), preferred, false);
        let all = urls_where(items.drop_last(), None, false);
        vstd::seq_lib::lemma_multiset_commutative(inside, outside);
        match node_url(items.last()) {
            Some(url) => {
                vstd::seq_lib::lemma_multiset_commutative(inside.push(url), outside);
                vstd::seq_lib::lemma_multiset_commutative(inside, outside.push(url));
            },
            None => {},
        }
    } else {
        assert(urls_where(items, preferred, true) + urls_where(items, preferred, false)
            =~= urls_where(items, None, false));
    }
}

/// A listed node is used where its URL holds any character that is no white space.
pub proof fn url_that_is_not_blank_is_used(item: Json, url: Seq<char>, i: int)
    requires
        item.get("url"@) == Some(Json::Text(url)),
        0 <= i < url.len(),
        !text::white_space(url[i]),
    ensures
        node_url(item) == Some(url),
{
    text::blank_is_all_white(url);
}

/// The built-in nodes can be connected to as they are: none of them has to be looked up.
pub proof fn default_nodes_need_no_lookup(i: int)
    requires
        0 <= i < nodes::default_node_texts().len(),
    ensures
        !needs_lookup(nodes::default_node_texts()[i]),
{
    reveal_strlit("tcp://cgk1.clusters.zeabur.com:22171");
    reveal_strlit("tcp://tcp.ap-northeast-1.clawcloudrun.com:45146");
    reveal_strlit("http://");
    reveal_strlit("https://");
    let node = nodes::default_node_texts()[i];
    assert(node[0] == 't');
    let low = text::lower(node);
    assert(low[0] == 't');
    if "http://"@.is_prefix_of(low) {
        assert("http://"@[0] == low.subrange(0, "http://"@.len() as int)[0]);
    }
    if "https://"@.is_prefix_of(low) {
        assert("https://"@[0] == low.subrange(0, "https://"@.len() as int)[0]);
    }
}

/// Where nothing has to be looked up, the nodes are used as they are listed.
pub proof fn nodes_without_lookup_stay(nodes: Seq<Seq<char>>, answers: Seq<Option<Seq<char>>>)
    requires
        forall|i: int| 0 <= i < nodes.len() ==> !needs_lookup(#[trigger] nodes[i]),
    ensures
        looked_up(nodes, answers) == nodes,
        lookups(nodes) == 0,
    decreases nodes.len(),
{
    if nodes.len() > 0 {
        nodes_without_lookup_stay(nodes.drop_last(), answers);
        assert(!needs_lookup(nodes[nodes.len() - 1]));
        assert(nodes.drop_last().push(nodes.last()) =~= nodes);
    } else {
        assert(looked_up(nodes, answers) =~= nodes);
    }
}

/// Whether a listed node says that it lies in a region: its region is a text that is the same as
/// the wanted one, character by character, but for the case of ASCII letters.
pub open spec fn lies_in(item: Json, wanted: Seq<char>) -> bool {
    item.get("region"@) matches Some(Json::Text(region)) && text::same_but_case(region, wanted)
}

/// Whether a listed node has a URL that is not blank.
pub open spec fn has_url(item: Json, url: Seq<char>) -> bool {
    &&& item.get("url"@) == Some(Json::Text(url))
    &&& exists|i: int| 0 <= i < url.len() && !text::white_space(#[trigger] url[i])
}

/// Whether a listed node lies in the preferred region, where there is one.
pub open spec fn is_preferred(item: Json, preferred: Option<Seq<char>>) -> bool {
    preferred matches Some(wanted) && lies_in(item, wanted)
}

/// A listed node counts as one of the preferred region exactly where its region is a text of the
/// same length and each character equals the one at its place up to ASCII case.
pub proof fn node_counts_by_its_region(item: Json, preferred: Option<Seq<char>>)
    ensures
        in_region(item, preferred) <==> is_preferred(item, preferred),
{
    if let (Some(wanted), Some(Json::Text(region))) = (preferred, item.get("region"@)) {
        text::lower_forgets_case_alone(region, wanted);
    }
}

/// A listed node is used exactly where its URL is a text that is not blank, and with that text as
/// it stands.
pub proof fn node_counts_by_its_url(item: Json, url: Seq<char>)
    ensures
        node_url(item) == Some(url) <==> has_url(item, url),
{
    text::blank_is_all_white(url);
    if let Some(Json::Text(other)) = item.get("url"@) {
        text::blank_is_all_white(other);
    }
}

/// Where the listed nodes of a group stand.
spec fn places_where(items: Seq<Json>, preferred: Option<Seq<char>>, inside: bool) -> Seq<int>
    decreases items.len(),
{
    if items.len() == 0 {
        Seq::empty()
    } else {
        let places = places_where(items.drop_last(), preferred, inside);
        if node_url(items.last()) is Some && in_region(items.last(), preferred) == inside {
            places.push(items.len() - 1)
        } else {
            places
        }
    }
}

proof fn places_are_where(items: Seq<Json>, preferred: Option<Seq<char>>, inside: bool)
    ensures
        ({
            let places = places_where(items, preferred, inside);
            let urls = urls_where(items, preferred, inside);
            &&& places.len() == urls.len()
            &&& forall|k: int|
                0 <= k < places.len() ==> {
                    &&& 0 <= #[trigger] places[k] < items.len()
                    &&& node_url(items[places[k]]) == Some(urls[k])
                    &&& in_region(items[places[k]], preferred) == inside
                }
            &&& forall|k: int, l: int|
                0 <= k < l < places.len() ==> #[trigger] places[k] < #[trigger] places[l]
            &&& forall|i: int|
                0 <= i < items.len() && node_url(#[trigger] items[i]) is Some && in_region(
                    items[i],
                    preferred,
                ) == inside ==> places.contains(i)
        }),
    decreases items.len(),
{
    if items.len() > 0 {
        let less = items.drop_last();
        places_are_where(less, preferred, inside);
        let before = places_where(less, preferred, inside);
        let places = places_where(items, preferred, inside);
        let last = items.len() - 1;
        assert forall|k: int| 0 <= k < places.len() implies {
            &&& 0 <= #[trigger] places[k] < items.len()
            &&& node_url(items[places[k]]) == Some(urls_where(items, preferred, inside)[k])
            &&& in_region(items[places[k]], preferred) == inside
        } by {
            if k < before.len() {
                assert(places[k] == before[k]);
                assert(less[before[k]] == items[before[k]]);
            }
        }
        assert forall|i: int|
            0 <= i < items.len() && node_url(#[trigger] items[i]) is Some && in_region(
                items[i],
                preferred,
            ) == inside implies places.contains(i) by {
            if i < last {
                assert(less[i] == items[i]);
                assert(before.contains(i));
                let k = choose|k: int| 0 <= k < before.len() && before[k] == i;
                assert(places[k] == i);
            } else {
                assert(places.last() == last);
            }
        }
    }
}

/// In the resulting list every node with a URL that is not blank stands once, with its URL. No
/// node of another region stands before one of the preferred region, and nodes that are alike in
/// this keep the order in which they are listed; without a preferred region all do.
pub proof fn preferred_nodes_come_first(items: Seq<Json>, preferred: Option<Seq<char>>) -> (places:
    Seq<int>)
    ensures
        ({
            let urls = listed_urls(Json::Array(items), preferred);
            &&& places.len() == urls.len()
            &&& forall|k: int|
                0 <= k < places.len() ==> 0 <= #[trigger] places[k] < items.len() && has_url(
                    items[places[k]],
                    urls[k],
                )
            &&& forall|k: int, l: int|
                0 <= k < l < places.len() ==> {
                    let first = items[#[trigger] places[k]];
                    let second = items[#[trigger] places[l]];
                    &&& places[k] != places[l]
                    &&& is_preferred(second, preferred) ==> is_preferred(first, preferred)
                    &&& is_preferred(second, preferred) == is_preferred(first, preferred)
                        ==> places[k] < places[l]
                }
            &&& forall|i: int, url: Seq<char>|
                0 <= i < items.len() && #[trigger] has_url(items[i], url) ==> places.contains(i)
        }),
{
    let inside = places_where(items, preferred, true);
    let outside = places_where(items, preferred, false);
    let places = inside + outside;
    let urls = listed_urls(Json::Array(items), preferred);
    places_are_where(items, preferred, true);
    places_are_where(items, preferred, false);
    assert forall|k: int| 0 <= k < places.len() implies {
        &&& 0 <= #[trigger] places[k] < items.len()
        &&& has_url(items[places[k]], urls[k])
        &&& is_preferred(items[places[k]], preferred) == (k < inside.len())
    } by {
        if k < inside.len() {
            assert(places[k] == inside[k]);
        } else {
            assert(places[k] == outside[k - inside.len()]);
        }
        node_counts_by_its_url(items[places[k]], urls[k]);
        node_counts_by_its_region(items[places[k]], preferred);
    }
    assert forall|k: int, l: int| 0 <= k < l < places.len() implies {
        let first = items[#[trigger] places[k]];
        let second = items[#[trigger] places[l]];
        &&& places[k] != places[l]
        &&& is_preferred(second, preferred) ==> is_preferred(first, preferred)
        &&& is_preferred(second, preferred) == is_preferred(first, preferred) ==> places[k]
            < places[l]
    } by {
        if l < inside.len() {
            assert(places[k] == inside[k] && places[l] == inside[l]);
        } else if k >= inside.len() {
            assert(places[k] == outside[k - inside.len()]);
            assert(places[l] == outside[l - inside.len()]);
        }
    }
    assert forall|i: int, url: Seq<char>|
        0 <= i < items.len() && #[trigger] has_url(items[i], url) implies places.contains(i) by {
        node_counts_by_its_url(items[i], url);
        if in_region(items[i], preferred) {
            assert(inside.contains(i));
            let k = choose|k: int| 0 <= k < inside.len() && inside[k] == i;
            assert(places[k] == i);
        } else {
            assert(outside.contains(i));
            let k = choose|k: int| 0 <= k < outside.len() && outside[k] == i;
            assert(places[inside.len() + k] == i);
        }
    }
    places
}

/// Only a document that is a JSON array lists nodes, and it lists those of its items.
pub proof fn only_arrays_list_nodes(document: Seq<char>, preferred: Option<Seq<char>>)
    ensures
        match json::json_parsed(encode_utf8(document)) {
            Ok(Json::Array(items)) => listed_in(document, preferred) == listed_urls(
                Json::Array(items),
                preferred,
            ),
            _ => listed_in(document, preferred).len() == 0,
        },
{
}

/// The region that a locale names stands behind its first dash and before the next one, and is
/// taken over in capitals. A locale without a dash, or none at all, counts as one of `CN`.
pub proof fn region_stands_behind_the_dash(
    language: Seq<char>,
    region: Seq<char>,
    more: Seq<char>,
)
    requires
        !language.contains('-'),
        !region.contains('-'),
    ensures
        ({
            let named = locale_region(Some(language.push('-') + region));
            &&& text::same_but_case(named, region)
            &&& forall|i: int| 0 <= i < named.len() ==> !('a' <= #[trigger] named[i] <= 'z')
        }),
        locale_region(Some(language.push('-') + (region.push('-') + more))) == locale_region(
            Some(language.push('-') + region),
        ),
        locale_region(Some(language)) == "CN"@,
        locale_region(None) == "CN"@,
{
    let tail = region.push('-') + more;
    text::first_piece_is_cut_off(language, region, '-');
    text::first_piece_is_cut_off(language, tail, '-');
    text::first_piece_is_cut_off(region, more, '-');
    assert(text::split(language.push('-') + region, '-')[1] == region);
    assert((seq![language] + (seq![region] + text::split(more, '-')))[1] == region);
    text::case_is_changed_alone(region);
}

/// A node has to be looked up exactly where it begins with `http://` or `https://`, in any case.
pub proof fn lookups_begin_with_a_scheme(node: Seq<char>)
    ensures
        needs_lookup(node) <==> {
            ||| node.len() >= 7 && text::same_but_case(node.take(7), "http://"@)
            ||| node.len() >= 8 && text::same_but_case(node.take(8), "https://"@)
        },
{
    reveal_strlit("http://");
    reveal_strlit("https://");
    let low = text::lower(node);
    assert(text::lower("http://"@) =~= "http://"@);
    assert(text::lower("https://"@) =~= "https://"@);
    if node.len() >= 7 {
        text::lower_forgets_case_alone(node.take(7), "http://"@);
        assert(text::lower(node.take(7)) =~= low.subrange(0, 7));
    }
    if node.len() >= 8 {
        text::lower_forgets_case_alone(node.take(8), "https://"@);
        assert(text::lower(node.take(8)) =~= low.subrange(0, 8));
    }
}

/// Answers behind those that are needed do not matter.
proof fn needed_answers_suffice(
    nodes: Seq<Seq<char>>,
    answers: Seq<Option<Seq<char>>>,
    more: Seq<Option<Seq<char>>>,
)
    requires
        lookups(nodes) <= answers.len(),
    ensures
        looked_up(nodes, answers + more) == looked_up(nodes, answers),
    decreases nodes.len(),
{
    if nodes.len() > 0 {
        needed_answers_suffice(nodes.drop_last(), answers, more);
    }
}

/// The nodes of two lists that stand one behind the other are looked up one behind the other,
/// each with the answers to its own lookups: every answer belongs to the node that asked for it,
/// and the order stays.
pub proof fn answers_belong_to_their_nodes(
    a: Seq<Seq<char>>,
    b: Seq<Seq<char>>,
    to_a: Seq<Option<Seq<char>>>,
    to_b: Seq<Option<Seq<char>>>,
)
    requires
        to_a.len() == lookups(a),
        to_b.len() >= lookups(b),
    ensures
        lookups(a + b) == lookups(a) + lookups(b),
        looked_up(a + b, to_a + to_b) == looked_up(a, to_a) + looked_up(b, to_b),
    decreases b.len(),
{
    if b.len() == 0 {
        assert(a + b =~= a);
        needed_answers_suffice(a, to_a, to_b);
        assert(looked_up(a, to_a) + looked_up(b, to_b) =~= looked_up(a, to_a));
    } else {
        answers_belong_to_their_nodes(a, b.drop_last(), to_a, to_b);
        assert((a + b).drop_last() =~= a + b.drop_last());
        assert(looked_up(a + b, to_a + to_b) =~= looked_up(a, to_a) + looked_up(b, to_b));
    }
}

/// What becomes of one node: one that need not be looked up stays as it is. One that has to be is
/// replaced by the answer without the white space around it, and left out where there is no
/// answer or nothing but white space in it.
pub proof fn node_is_replaced_by_its_answer(
    node: Seq<char>,
    before: Seq<char>,
    inner: Seq<char>,
    behind: Seq<char>,
)
    requires
        forall|i: int| 0 <= i < before.len() ==> text::white_space(#[trigger] before[i]),
        forall|i: int| 0 <= i < behind.len() ==> text::white_space(#[trigger] behind[i]),
        inner.len() > 0,
        !text::white_space(inner[0]),
        !text::white_space(inner.last()),
    ensures
        lookups(seq![node]) == if needs_lookup(node) {
            1nat
        } else {
            0nat
        },
        !needs_lookup(node) ==> looked_up(seq![node], Seq::empty()) == seq![node],
        needs_lookup(node) ==> {
            &&& looked_up(seq![node], seq![Some(before + inner + behind)]) == seq![inner]
            &&& looked_up(seq![node], seq![Some(before)]).len() == 0
            &&& looked_up(seq![node], seq![None]).len() == 0
        },
{
    let one = seq![node];
    assert(one.drop_last() =~= Seq::<Seq<char>>::empty());
    assert(one.last() == node);
    assert(lookups(one.drop_last()) == 0);
    text::white_space_is_cut_off(before, inner, behind);
    text::blank_is_all_white(before);
    single_node_is_looked_up(node, Seq::empty());
    single_node_is_looked_up(node, seq![Some(before + inner + behind)]);
    single_node_is_looked_up(node, seq![Some(before)]);
    single_node_is_looked_up(node, seq![None]);
}

proof fn single_node_is_looked_up(node: Seq<char>, answers: Seq<Option<Seq<char>>>)
    ensures
        looked_up(seq![node], answers) == (if !needs_lookup(node) {
            seq![node]
        } else if answers.len() > 0 && node_in_answer(answers[0]) is Some {
            seq![node_in_answer(answers[0])->0]
        } else {
            Seq::<Seq<char>>::empty()
        }),
{
    let one = seq![node];
    let none = one.drop_last();
    assert(none =~= Seq::<Seq<char>>::empty());
    assert(one.last() == node);
    assert(lookups(none) == 0);
    assert(looked_up(none, answers) =~= Seq::<Seq<char>>::empty());
    assert(Seq::<Seq<char>>::empty().push(node) =~= one);
    if answers.len() > 0 && node_in_answer(answers[0]) is Some {
        let named = node_in_answer(answers[0])->0;
        assert(Seq::<Seq<char>>::empty().push(named) =~= seq![named]);
    }
}

/// What the service names is used, all of it and in its order; only where it could not be asked
/// or named nothing are the two built-in nodes used.
pub proof fn named_nodes_are_used(fetched: Option<Seq<Seq<char>>>)
    ensures
        match fetched {
            Some(named) => if named.len() == 0 {
                nodes_used(fetched) == nodes::resolved(None, Seq::empty())
            } else {
                &&& nodes_used(fetched).len() == named.len()
                &&& forall|i: int|
                    0 <= i < named.len() ==> nodes_used(fetched)[i] == #[trigger] named[i]
            },
            None => nodes_used(fetched) == nodes::resolved(None, Seq::empty()),
        },
{
    assert(nodes::resolved(None, Seq::empty()) =~= nodes::default_node_texts());
}

/// The connector goes by the name that it was given, as it stands, where any of its characters is
/// no white space; else by its own.
pub proof fn given_name_is_used(name: Seq<char>)
    ensures
        (exists|i: int| 0 <= i < name.len() && !text::white_space(#[trigger] name[i]))
            ==> agent_name(Some(name)) == name,
        (forall|i: int| 0 <= i < name.len() ==> text::white_space(#[trigger] name[i]))
            ==> agent_name(Some(name)) == "Qomicex.Connector/1.0"@,
        agent_name(None) == "Qomicex.Connector/1.0"@,
{
    text::blank_is_all_white(name);
}

} // verus!
