//! Finding and installing agent extensions (npm packages) and skills (from
//! the ClawHub registry): the request URLs, reading the registries'
//! answers, how a download is unpacked, and the messages shown.

use vstd::prelude::*;
use crate::search_pager::SearchPager;
use crate::json::{json_get, json_str, json_str_member, json_u64, member, JsonValue, str_member};
use crate::text::{
    decimal, has_infix, has_prefix, has_suffix, push_decimal, push_str, string_of, text_contains,
    text_ends_with, text_starts_with, unsigned_value, parse_u64, text_result, opt_text_view, opt_str_view,
};

verus! {

/// The URL `url` with the query pair `key=value` appended, form-urlencoded,
/// as `url::Url::query_pairs_mut().append_pair` writes it; or the message of
/// the error `url::Url::parse` reports for `url`.
pub uninterp spec fn url_with_pair(url: Seq<char>, key: Seq<char>, value: Seq<char>) -> Result<Seq<char>, Seq<char>>;

/// `url::Url::parse` followed by `query_pairs_mut().append_pair(key, value)`
/// and `as_str`: the result depends on the three texts alone and is named,
/// not spelled out; a parse error gives its `Display` text.
#[verifier::external_body]
fn append_query_pair(url: &str, key: &str, value: &str) -> (r: Result<String, String>)
    ensures
        match r {
            Ok(u) => url_with_pair(url@, key@, value@) == Ok::<Seq<char>, Seq<char>>(u@),
            Err(e) => url_with_pair(url@, key@, value@) == Err::<Seq<char>, Seq<char>>(e@),
        },
{
    match url::Url::parse(url) {
        Ok(mut u) => {
            u.query_pairs_mut().append_pair(key, value);
            Ok(u.as_str().to_owned())
        },
        Err(e) => Err(e.to_string()),
    }
}

/// `url` with the `pairs` appended in order; a failure is reported as
/// `context` followed by the parser's message.
pub open spec fn url_with_pairs(url: Seq<char>, pairs: Seq<(Seq<char>, Seq<char>)>, context: Seq<char>) -> Result<Seq<char>, Seq<char>>
    decreases pairs.len(),
{
    if pairs.len() == 0 {
        Ok(url)
    } else {
        match url_with_pairs(url, pairs.drop_last(), context) {
            Err(e) => Err(e),
            Ok(u) => match url_with_pair(u, pairs.last().0, pairs.last().1) {
                Ok(v) => Ok(v),
                Err(e) => Err(context + e),
            },
        }
    }
}

/// The texts of query pairs.
pub open spec fn pair_views(pairs: Seq<(&str, &str)>) -> Seq<(Seq<char>, Seq<char>)> {
    pairs.map_values(|p: (&str, &str)| (p.0@, p.1@))
}

fn prefixed(context: &str, message: &str) -> (r: String)
    ensures
        r@ == context@ + message@,
{
    let mut out: Vec<char> = Vec::new();
    push_str(&mut out, context);
    push_str(&mut out, message);
    string_of(out.as_slice())
}

fn build_url(base: &str, pairs: &Vec<(&str, &str)>, context: &str) -> (r: Result<String, String>)
    ensures
        text_result(r) == url_with_pairs(
            base@, pair_views(pairs@), context@),
{
    let ghost views = pair_views(pairs@);
    let mut url = base.to_owned();
    assert(views.take(0) =~= Seq::<(Seq<char>, Seq<char>)>::empty());
    let mut k: usize = 0;
    while k < pairs.len()
        invariant
            k <= pairs.len(),
            views == pair_views(pairs@),
            url_with_pairs(base@, views.take(k as int), context@) == Ok::<Seq<char>, Seq<char>>(url@),
        decreases pairs.len() - k,
    {
        assert(views.take(k + 1).drop_last() =~= views.take(k as int));
        let (key, value) = pairs[k];
        match append_query_pair(url.as_str(), key, value) {
            Ok(u) => {
                url = u;
            },
            Err(e) => {
                let msg = prefixed(context, e.as_str());
                proof {
                    lemma_url_failure_sticks(base@, views, context@, k as int + 1);
                    assert(views.take(pairs@.len() as int) =~= views);
                }
                return Err(msg);
            },
        }
        k = k + 1;
    }
    assert(views.take(pairs@.len() as int) =~= views);
    Ok(url)
}

proof fn lemma_url_failure_sticks(base: Seq<char>, pairs: Seq<(Seq<char>, Seq<char>)>, context: Seq<char>, k: int)
    requires
        0 <= k <= pairs.len(),
        url_with_pairs(base, pairs.take(k), context) is Err,
    ensures
        url_with_pairs(base, pairs, context) == url_with_pairs(base, pairs.take(k), context),
    decreases pairs.len() - k,
{
    if k < pairs.len() {
        assert(pairs.take(k + 1).drop_last() =~= pairs.take(k));
        lemma_url_failure_sticks(base, pairs, context, k + 1);
    } else {
        assert(pairs.take(k) =~= pairs);
    }
}

/// The npm registry search: the `text` searched (a fixed package scope when
/// there is no query), twenty results a page, and the offset of the page.
pub open spec fn npm_search_url(query: Option<Seq<char>>, cursor: Option<Seq<char>>) -> Result<Seq<char>, Seq<char>> {
    url_with_pairs("https://registry.npmjs.org/-/v1/search"@, npm_search_pairs(query, cursor), "invalid search URL: "@)
}

/// The query pairs of an npm search.
pub open spec fn npm_search_pairs(query: Option<Seq<char>>, cursor: Option<Seq<char>>) -> Seq<(Seq<char>, Seq<char>)> {
    let text = match query { Some(q) => q, None => "@remnic/plugin-pi"@ };
    let pairs = seq![("text"@, text), ("size"@, "20"@)];
    match cursor { Some(c) => pairs.push(("from"@, c)), None => pairs }
}

/// The URL of one page of the npm search.
pub fn npm_search_request(query: Option<&str>, cursor: Option<&str>) -> (r: Result<String, String>)
    ensures
        text_result(r) == npm_search_url(
            opt_str_view(query),
            opt_str_view(cursor),
        ),
{
    let text = match query { Some(q) => q, None => "@remnic/plugin-pi" };
    let mut pairs: Vec<(&str, &str)> = Vec::new();
    pairs.push(("text", text));
    pairs.push(("size", "20"));
    if let Some(c) = cursor {
        pairs.push(("from", c));
    }
    assert(pair_views(pairs@) =~= npm_search_pairs(opt_str_view(query), opt_str_view(cursor)));
    build_url("https://registry.npmjs.org/-/v1/search", &pairs, "invalid search URL: ")
}

/// A package found on npm.
pub struct NpmPackage {
    pub name: String,
    pub description: Option<String>,
    pub version: String,
}

/// A package as name, description and version.
pub type NpmPackageView = (Seq<char>, Option<Seq<char>>, Seq<char>);

impl NpmPackage {
    pub open spec fn view(&self) -> NpmPackageView {
        (self.name@, match self.description { Some(d) => Some(d@), None => None }, self.version@)
    }
}

/// The package described by one search result: its `package` object must
/// exist and carry a name; the version defaults to `unknown`.
pub open spec fn npm_package_of(obj: JsonValue) -> Result<NpmPackageView, Seq<char>> {
    match json_get(obj, "package"@) {
        Some(JsonValue::Object(m)) => {
            let pkg = JsonValue::Object(m);
            match json_str_member(pkg, "name"@) {
                Some(name) => Ok((
                    name,
                    json_str_member(pkg, "description"@),
                    match json_str_member(pkg, "version"@) { Some(v) => v, None => "unknown"@ },
                )),
                None => Err("missing package name"@),
            }
        },
        _ => Err("missing package object"@),
    }
}

/// The packages of the search results in order, or the error of the first
/// result that is not a package.
pub open spec fn npm_packages(objs: Seq<JsonValue>) -> Result<Seq<NpmPackageView>, Seq<char>>
    decreases objs.len(),
{
    if objs.len() == 0 {
        Ok(Seq::empty())
    } else {
        match npm_packages(objs.drop_last()) {
            Err(e) => Err(e),
            Ok(ps) => match npm_package_of(objs.last()) {
                Err(e) => Err(e),
                Ok(p) => Ok(ps.push(p)),
            },
        }
    }
}

/// The offset of the next page: none after a short page or once the offset
/// reaches the total; otherwise this page's offset (the cursor read as a
/// number, zero when absent or unreadable) plus the results it brought.
pub open spec fn npm_next_cursor(count: nat, total: nat, cursor: Option<Seq<char>>) -> Option<Seq<char>> {
    if count < 20 {
        None
    } else {
        let from: nat = match cursor {
            Some(c) => match unsigned_value(c, u64::MAX as nat) { Some(v) => v, None => 0 },
            None => 0,
        };
        if from + count >= total { None } else { Some(decimal(from + count)) }
    }
}

/// What a search answer gives: the packages and the cursor of the next
/// page, or why the answer cannot be read. The total defaults to the
/// number of results.
pub open spec fn npm_search_result(response: JsonValue, cursor: Option<Seq<char>>) -> Result<(Seq<NpmPackageView>, Option<Seq<char>>), Seq<char>> {
    match json_get(response, "objects"@) {
        Some(JsonValue::Array(objs)) => {
            let count = objs@.len();
            let total: nat = match json_get(response, "total"@) {
                Some(t) => match json_u64(t) { Some(n) => n, None => count },
                None => count,
            };
            match npm_packages(objs@) {
                Ok(ps) => Ok((ps, npm_next_cursor(count, total, cursor))),
                Err(e) => Err(e),
            }
        },
        _ => Err("unexpected npm search response"@),
    }
}

fn read_npm_package(obj: &JsonValue) -> (r: Result<NpmPackage, String>)
    ensures
        match r {
            Ok(p) => npm_package_of(*obj) == Ok::<NpmPackageView, Seq<char>>(p.view()),
            Err(e) => npm_package_of(*obj) == Err::<NpmPackageView, Seq<char>>(e@),
        },
{
    let pkg = match obj.get("package") {
        Some(p) => match p.as_object() {
            Some(_) => p,
            None => return Err("missing package object".to_owned()),
        },
        None => return Err("missing package object".to_owned()),
    };
    let name = match str_member(pkg, "name") {
        Some(n) => n,
        None => return Err("missing package name".to_owned()),
    };
    let description = str_member(pkg, "description");
    let version = match str_member(pkg, "version") {
        Some(v) => v,
        None => "unknown".to_owned(),
    };
    Ok(NpmPackage { name, description, version })
}

/// Reads one page of an npm search answer; `cursor` is the offset the page
/// was asked for.
pub fn parse_npm_response(response: &JsonValue, cursor: Option<&str>) -> (r: Result<(Vec<NpmPackage>, Option<String>), String>)
    ensures
        match r {
            Ok((ps, next)) => npm_search_result(*response, opt_str_view(cursor))
                == Ok::<(Seq<NpmPackageView>, Option<Seq<char>>), Seq<char>>((
                    ps@.map_values(|p: NpmPackage| p.view()),
                    opt_text_view(next),
                )),
            Err(e) => npm_search_result(*response, opt_str_view(cursor))
                == Err::<(Seq<NpmPackageView>, Option<Seq<char>>), Seq<char>>(e@),
        },
{
    let objs = match response.get("objects") {
        Some(o) => match o.as_array() {
            Some(a) => a,
            None => return Err("unexpected npm search response".to_owned()),
        },
        None => return Err("unexpected npm search response".to_owned()),
    };
    let count = objs.len();
    let total: u64 = match response.get("total") {
        Some(t) => match t.as_u64() { Some(n) => n, None => count as u64 },
        None => count as u64,
    };
    let next = npm_next_cursor_of(count, total, cursor);
    let mut packages: Vec<NpmPackage> = Vec::new();
    let mut k: usize = 0;
    assert(objs@.take(0) =~= Seq::<JsonValue>::empty());
    assert(packages@.map_values(|p: NpmPackage| p.view()) =~= Seq::<NpmPackageView>::empty());
    while k < objs.len()
        invariant
            k <= objs.len(),
            json_get(*response, "objects"@) == Some(JsonValue::Array(*objs)),
            npm_packages(objs@.take(k as int)) == Ok::<Seq<NpmPackageView>, Seq<char>>(packages@.map_values(|p: NpmPackage| p.view())),
        decreases objs.len() - k,
    {
        assert(objs@.take(k + 1).drop_last() =~= objs@.take(k as int));
        assert(objs@.take(k + 1).last() == objs@[k as int]);
        match read_npm_package(&objs[k]) {
            Ok(p) => {
                let ghost before = packages@;
                packages.push(p);
                assert(packages@.map_values(|p: NpmPackage| p.view()) =~= before.map_values(|p: NpmPackage| p.view()).push(packages@.last().view()));
            },
            Err(e) => {
                proof {
                    lemma_npm_failure_sticks(objs@, k as int + 1);
                }
                return Err(e);
            },
        }
        k = k + 1;
    }
    assert(objs@.take(objs@.len() as int) =~= objs@);
    Ok((packages, next))
}

proof fn lemma_npm_failure_sticks(objs: Seq<JsonValue>, k: int)
    requires
        0 <= k <= objs.len(),
        npm_packages(objs.take(k)) is Err,
    ensures
        npm_packages(objs) == npm_packages(objs.take(k)),
    decreases objs.len() - k,
{
    if k < objs.len() {
        assert(objs.take(k + 1).drop_last() =~= objs.take(k));
        lemma_npm_failure_sticks(objs, k + 1);
    } else {
        assert(objs.take(k) =~= objs);
    }
}

fn npm_next_cursor_of(count: usize, total: u64, cursor: Option<&str>) -> (r: Option<String>)
    ensures
        match r {
            Some(s) => npm_next_cursor(count as nat, total as nat, opt_str_view(cursor)) == Some(s@),
            None => npm_next_cursor(count as nat, total as nat, opt_str_view(cursor)) is None,
        },
{
    if count < 20 {
        return None;
    }
    let from: u64 = match cursor {
        Some(c) => match parse_u64(c) { Some(v) => v, None => 0 },
        None => 0,
    };
    let next: u128 = from as u128 + count as u128;
    if next >= total as u128 {
        None
    } else {
        let mut out: Vec<char> = Vec::new();
        push_decimal(&mut out, next);
        Some(string_of(out.as_slice()))
    }
}

/// A skill listed on ClawHub.
pub struct ClawHubSkill {
    pub name: String,
    pub display_name: String,
    pub summary: Option<String>,
    pub owner_handle: String,
    pub version: Option<String>,
}

/// A skill as name, shown name, summary, owner and version.
pub type ClawHubSkillView = (Seq<char>, Seq<char>, Option<Seq<char>>, Seq<char>, Option<Seq<char>>);

impl ClawHubSkill {
    pub open spec fn view(&self) -> ClawHubSkillView {
        (
            self.name@,
            self.display_name@,
            match self.summary { Some(s) => Some(s@), None => None },
            self.owner_handle@,
            match self.version { Some(v) => Some(v@), None => None },
        )
    }
}

/// The text of `v`, when `v` is present and a string.
pub open spec fn opt_str(v: Option<JsonValue>) -> Option<Seq<char>> {
    match v { Some(x) => json_str(x), None => None }
}

/// The skill an entry of the registry describes. The name is `name`, or
/// `slug` when there is no `name`; the shown name defaults to it; the owner
/// is required; the version is that of `latestVersion`, or `version` when
/// there is no `latestVersion.version`.
pub open spec fn clawhub_skill_of(members: Seq<(String, JsonValue)>) -> Result<ClawHubSkillView, Seq<char>> {
    let name_value = match member(members, "name"@, 0) {
        Some(v) => Some(v),
        None => member(members, "slug"@, 0),
    };
    match opt_str(name_value) {
        None => Err("missing skill name"@),
        Some(name) => match opt_str(member(members, "ownerHandle"@, 0)) {
            None => Err("missing ownerHandle"@),
            Some(owner) => {
                let latest = match member(members, "latestVersion"@, 0) {
                    Some(l) => json_get(l, "version"@),
                    None => None,
                };
                let version_value = match latest { Some(v) => Some(v), None => member(members, "version"@, 0) };
                Ok((
                    name,
                    match opt_str(member(members, "displayName"@, 0)) { Some(d) => d, None => name },
                    opt_str(member(members, "summary"@, 0)),
                    owner,
                    opt_str(version_value),
                ))
            },
        },
    }
}

/// Whether the first member of `members` named `key` is at `j`.
pub open spec fn first_named(members: Seq<(String, JsonValue)>, key: Seq<char>, j: int) -> bool {
    &&& 0 <= j < members.len()
    &&& members[j].0@ == key
    &&& forall|i: int| 0 <= i < j ==> #[trigger] members[i].0@ != key
}

/// Whether no member of `members` is named `key`.
pub open spec fn none_named(members: Seq<(String, JsonValue)>, key: Seq<char>) -> bool {
    forall|i: int| 0 <= i < members.len() ==> #[trigger] members[i].0@ != key
}

proof fn lemma_member_first(members: Seq<(String, JsonValue)>, key: Seq<char>, k: int)
    requires
        0 <= k,
    ensures
        (forall|i: int| k <= i < members.len() ==> #[trigger] members[i].0@ != key) ==> member(members, key, k) is None,
        forall|j: int| k <= j < members.len() && #[trigger] members[j].0@ == key
            && (forall|i: int| k <= i < j ==> #[trigger] members[i].0@ != key)
            ==> member(members, key, k) == Some(members[j].1),
    decreases members.len() - k,
{
    if k < members.len() {
        lemma_member_first(members, key, k + 1);
        if members[k].0@ != key {
            assert forall|j: int| k <= j < members.len() && #[trigger] members[j].0@ == key
                && (forall|i: int| k <= i < j ==> #[trigger] members[i].0@ != key)
                implies member(members, key, k) == Some(members[j].1) by {
                assert(j != k);
            }
        } else {
            assert forall|j: int| k <= j < members.len() && #[trigger] members[j].0@ == key
                && (forall|i: int| k <= i < j ==> #[trigger] members[i].0@ != key)
                implies member(members, key, k) == Some(members[j].1) by {
                if j > k {
                    assert(members[k].0@ != key);
                }
            }
        }
    }
}

/// The summary of a registry entry's skill is its first `summary` member
/// when that is a string, and none when the entry has no `summary` member
/// or its first one is not a string.
pub proof fn lemma_clawhub_skill_summary(members: Seq<(String, JsonValue)>)
    ensures
        forall|j: int| #[trigger] first_named(members, "summary"@, j) && clawhub_skill_of(members) is Ok
            ==> clawhub_skill_of(members)->Ok_0.2 == match members[j].1 {
                JsonValue::Str(t) => Some(t@),
                _ => None,
            },
        none_named(members, "summary"@) && clawhub_skill_of(members) is Ok
            ==> clawhub_skill_of(members)->Ok_0.2 is None,
{
    lemma_member_first(members, "summary"@, 0);
    assert forall|j: int| #[trigger] first_named(members, "summary"@, j) && clawhub_skill_of(members) is Ok
        implies clawhub_skill_of(members)->Ok_0.2 == match members[j].1 {
            JsonValue::Str(t) => Some(t@),
            _ => None,
        } by {
        assert(member(members, "summary"@, 0) == Some(members[j].1));
    }
}

/// The shown name of a registry entry's skill is its first `displayName`
/// member when that is a string.
pub proof fn lemma_clawhub_skill_display_name(members: Seq<(String, JsonValue)>)
    ensures
        forall|j: int| #[trigger] first_named(members, "displayName"@, j) && members[j].1 is Str
            && clawhub_skill_of(members) is Ok
            ==> clawhub_skill_of(members)->Ok_0.1 == members[j].1->Str_0@,
{
    lemma_member_first(members, "displayName"@, 0);
    assert forall|j: int| #[trigger] first_named(members, "displayName"@, j) && members[j].1 is Str
        && clawhub_skill_of(members) is Ok
        implies clawhub_skill_of(members)->Ok_0.1 == members[j].1->Str_0@ by {
        assert(member(members, "displayName"@, 0) == Some(members[j].1));
    }
}

/// The version of a registry entry's skill is the `version` of its first
/// `latestVersion` member when that has one, else its first `version`
/// member; either way only a string counts.
pub proof fn lemma_clawhub_skill_version(members: Seq<(String, JsonValue)>)
    ensures
        forall|j: int| #[trigger] first_named(members, "latestVersion"@, j)
            && json_get(members[j].1, "version"@) is Some && clawhub_skill_of(members) is Ok
            ==> clawhub_skill_of(members)->Ok_0.4 == match json_get(members[j].1, "version"@)->Some_0 {
                JsonValue::Str(t) => Some(t@),
                _ => None,
            },
        forall|k: int| #[trigger] first_named(members, "version"@, k) && none_named(members, "latestVersion"@)
            && clawhub_skill_of(members) is Ok
            ==> clawhub_skill_of(members)->Ok_0.4 == match members[k].1 {
                JsonValue::Str(t) => Some(t@),
                _ => None,
            },
{
    lemma_member_first(members, "latestVersion"@, 0);
    lemma_member_first(members, "version"@, 0);
    assert forall|j: int| #[trigger] first_named(members, "latestVersion"@, j)
        && json_get(members[j].1, "version"@) is Some && clawhub_skill_of(members) is Ok
        implies clawhub_skill_of(members)->Ok_0.4 == match json_get(members[j].1, "version"@)->Some_0 {
            JsonValue::Str(t) => Some(t@),
            _ => None,
        } by {
        assert(member(members, "latestVersion"@, 0) == Some(members[j].1));
    }
    assert forall|k: int| #[trigger] first_named(members, "version"@, k) && none_named(members, "latestVersion"@)
        && clawhub_skill_of(members) is Ok
        implies clawhub_skill_of(members)->Ok_0.4 == match members[k].1 {
            JsonValue::Str(t) => Some(t@),
            _ => None,
        } by {
        assert(member(members, "latestVersion"@, 0) is None);
        assert(member(members, "version"@, 0) == Some(members[k].1));
    }
}

/// A registry entry names its skill and owner: the name is the first
/// `name` member and the owner the first `ownerHandle` member, both of
/// which must be strings; an entry without an `ownerHandle` member is
/// refused, and one whose first `name` and first `ownerHandle` members are
/// strings is accepted.
pub proof fn lemma_clawhub_skill_name_and_owner(members: Seq<(String, JsonValue)>)
    ensures
        forall|j: int| #[trigger] first_named(members, "ownerHandle"@, j) && clawhub_skill_of(members) is Ok
            ==> members[j].1 is Str && clawhub_skill_of(members)->Ok_0.3 == members[j].1->Str_0@,
        none_named(members, "ownerHandle"@) ==> clawhub_skill_of(members) is Err,
        forall|j: int| #[trigger] first_named(members, "name"@, j) && clawhub_skill_of(members) is Ok
            ==> members[j].1 is Str && clawhub_skill_of(members)->Ok_0.0 == members[j].1->Str_0@,
        forall|j: int, k: int| #[trigger] first_named(members, "name"@, j) && #[trigger] first_named(members, "ownerHandle"@, k)
            && members[j].1 is Str && members[k].1 is Str ==> clawhub_skill_of(members) is Ok,
{
    lemma_member_first(members, "ownerHandle"@, 0);
    lemma_member_first(members, "name"@, 0);
    assert forall|j: int| #[trigger] first_named(members, "ownerHandle"@, j) && clawhub_skill_of(members) is Ok
        implies members[j].1 is Str && clawhub_skill_of(members)->Ok_0.3 == members[j].1->Str_0@ by {
        assert(member(members, "ownerHandle"@, 0) == Some(members[j].1));
    }
    assert forall|j: int| #[trigger] first_named(members, "name"@, j) && clawhub_skill_of(members) is Ok
        implies members[j].1 is Str && clawhub_skill_of(members)->Ok_0.0 == members[j].1->Str_0@ by {
        assert(member(members, "name"@, 0) == Some(members[j].1));
    }
    assert forall|j: int, k: int| #[trigger] first_named(members, "name"@, j) && #[trigger] first_named(members, "ownerHandle"@, k)
        && members[j].1 is Str && members[k].1 is Str implies clawhub_skill_of(members) is Ok by {
        assert(member(members, "name"@, 0) == Some(members[j].1));
        assert(member(members, "ownerHandle"@, 0) == Some(members[k].1));
    }
}

fn opt_text(v: Option<&JsonValue>) -> (r: Option<String>)
    ensures
        match r {
            Some(s) => opt_str(match v { Some(x) => Some(*x), None => None }) == Some(s@),
            None => opt_str(match v { Some(x) => Some(*x), None => None }) is None,
        },
{
    match v {
        Some(x) => match x.as_str() {
            Some(s) => Some(s.clone()),
            None => None,
        },
        None => None,
    }
}

/// Reads a skill from the members of a registry entry.
pub fn parse_clawhub_skill(obj: &Vec<(String, JsonValue)>) -> (r: Result<ClawHubSkill, String>)
    ensures
        match r {
            Ok(s) => clawhub_skill_of(obj@) == Ok::<ClawHubSkillView, Seq<char>>(s.view()),
            Err(e) => clawhub_skill_of(obj@) == Err::<ClawHubSkillView, Seq<char>>(e@),
        },
{
    let name_value = match crate::json::object_member(obj, "name") {
        Some(v) => Some(v),
        None => crate::json::object_member(obj, "slug"),
    };
    let name = match opt_text(name_value) {
        Some(n) => n,
        None => return Err("missing skill name".to_owned()),
    };
    let owner_handle = match opt_text(crate::json::object_member(obj, "ownerHandle")) {
        Some(o) => o,
        None => return Err("missing ownerHandle".to_owned()),
    };
    let display_name = match opt_text(crate::json::object_member(obj, "displayName")) {
        Some(d) => d,
        None => name.clone(),
    };
    let summary = opt_text(crate::json::object_member(obj, "summary"));
    let latest = match crate::json::object_member(obj, "latestVersion") {
        Some(l) => l.get("version"),
        None => None,
    };
    let version_value = match latest {
        Some(v) => Some(v),
        None => crate::json::object_member(obj, "version"),
    };
    let version = opt_text(version_value);
    Ok(ClawHubSkill { name, display_name, summary, owner_handle, version })
}

/// Whether a skill request searches (a non-empty query) rather than lists.
pub open spec fn is_skill_search(query: Option<Seq<char>>) -> bool {
    match query { Some(q) => q.len() > 0, None => false }
}

/// The ClawHub request: a search for the query, twenty results, or a page
/// of the recommended skills, twenty a page, from the cursor.
pub open spec fn clawhub_url(query: Option<Seq<char>>, cursor: Option<Seq<char>>) -> Result<Seq<char>, Seq<char>> {
    if is_skill_search(query) {
        url_with_pairs(
            "https://clawhub.ai/api/v1/search"@,
            seq![("q"@, query.unwrap()), ("limit"@, "20"@)],
            "invalid search URL: "@,
        )
    } else {
        let pairs = seq![("limit"@, "20"@)];
        url_with_pairs(
            "https://clawhub.ai/api/v1/packages?family=skill&sort=recommended"@,
            match cursor { Some(c) => pairs.push(("cursor"@, c)), None => pairs },
            "invalid catalog URL: "@,
        )
    }
}

/// The URL of a ClawHub listing or search.
pub fn clawhub_request(query: Option<&str>, cursor: Option<&str>) -> (r: Result<String, String>)
    ensures
        text_result(r) == clawhub_url(
            opt_str_view(query),
            opt_str_view(cursor),
        ),
{
    let mut pairs: Vec<(&str, &str)> = Vec::new();
    let ghost qv = opt_str_view(query);
    let ghost cv = opt_str_view(cursor);
    match query {
        Some(q) if !q.is_empty() => {
            pairs.push(("q", q));
            pairs.push(("limit", "20"));
            assert(pair_views(pairs@) =~= seq![("q"@, qv.unwrap()), ("limit"@, "20"@)]);
            build_url("https://clawhub.ai/api/v1/search", &pairs, "invalid search URL: ")
        },
        _ => {
            pairs.push(("limit", "20"));
            if let Some(c) = cursor {
                pairs.push(("cursor", c));
            }
            assert(pair_views(pairs@) =~= match cv {
                Some(c) => seq![("limit"@, "20"@)].push(("cursor"@, c)),
                None => seq![("limit"@, "20"@)],
            });
            build_url("https://clawhub.ai/api/v1/packages?family=skill&sort=recommended", &pairs, "invalid catalog URL: ")
        },
    }
}

/// The skills of the entries in order, or the error of the first entry that
/// cannot be read; `not_object` is the error for an entry that is not an
/// object.
pub open spec fn clawhub_skills(items: Seq<JsonValue>, not_object: Seq<char>) -> Result<Seq<ClawHubSkillView>, Seq<char>>
    decreases items.len(),
{
    if items.len() == 0 {
        Ok(Seq::empty())
    } else {
        match clawhub_skills(items.drop_last(), not_object) {
            Err(e) => Err(e),
            Ok(ss) => match items.last() {
                JsonValue::Object(m) => match clawhub_skill_of(m@) {
                    Ok(s) => Ok(ss.push(s)),
                    Err(e) => Err(e),
                },
                _ => Err(not_object),
            },
        }
    }
}

/// What a ClawHub answer gives: for a search, the `results` and no next
/// page; for a listing, the `items` and the `nextCursor`.
pub open spec fn clawhub_result(response: JsonValue, search: bool) -> Result<(Seq<ClawHubSkillView>, Option<Seq<char>>), Seq<char>> {
    if search {
        match json_get(response, "results"@) {
            Some(JsonValue::Array(items)) => match clawhub_skills(items@, "invalid search result"@) {
                Ok(ss) => Ok((ss, None)),
                Err(e) => Err(e),
            },
            _ => Err("unexpected search response"@),
        }
    } else {
        match json_get(response, "items"@) {
            Some(JsonValue::Array(items)) => match clawhub_skills(items@, "invalid catalog item"@) {
                Ok(ss) => Ok((ss, json_str_member(response, "nextCursor"@))),
                Err(e) => Err(e),
            },
            _ => Err("unexpected catalog response"@),
        }
    }
}

proof fn lemma_skills_failure_sticks(items: Seq<JsonValue>, not_object: Seq<char>, k: int)
    requires
        0 <= k <= items.len(),
        clawhub_skills(items.take(k), not_object) is Err,
    ensures
        clawhub_skills(items, not_object) == clawhub_skills(items.take(k), not_object),
    decreases items.len() - k,
{
    if k < items.len() {
        assert(items.take(k + 1).drop_last() =~= items.take(k));
        lemma_skills_failure_sticks(items, not_object, k + 1);
    } else {
        assert(items.take(k) =~= items);
    }
}

fn read_skills(items: &Vec<JsonValue>, not_object: &str) -> (r: Result<Vec<ClawHubSkill>, String>)
    ensures
        match r {
            Ok(ss) => clawhub_skills(items@, not_object@) == Ok::<Seq<ClawHubSkillView>, Seq<char>>(ss@.map_values(|s: ClawHubSkill| s.view())),
            Err(e) => clawhub_skills(items@, not_object@) == Err::<Seq<ClawHubSkillView>, Seq<char>>(e@),
        },
{
    let mut skills: Vec<ClawHubSkill> = Vec::new();
    let mut k: usize = 0;
    assert(items@.take(0) =~= Seq::<JsonValue>::empty());
    assert(skills@.map_values(|s: ClawHubSkill| s.view()) =~= Seq::<ClawHubSkillView>::empty());
    while k < items.len()
        invariant
            k <= items.len(),
            clawhub_skills(items@.take(k as int), not_object@) == Ok::<Seq<ClawHubSkillView>, Seq<char>>(skills@.map_values(|s: ClawHubSkill| s.view())),
        decreases items.len() - k,
    {
        assert(items@.take(k + 1).drop_last() =~= items@.take(k as int));
        assert(items@.take(k + 1).last() == items@[k as int]);
        let parsed = match items[k].as_object() {
            Some(m) => parse_clawhub_skill(m),
            None => Err(not_object.to_owned()),
        };
        match parsed {
            Ok(s) => {
                let ghost before = skills@;
                skills.push(s);
                assert(skills@.map_values(|s: ClawHubSkill| s.view()) =~= before.map_values(|s: ClawHubSkill| s.view()).push(skills@.last().view()));
            },
            Err(e) => {
                proof { lemma_skills_failure_sticks(items@, not_object@, k as int + 1); }
                return Err(e);
            },
        }
        k = k + 1;
    }
    assert(items@.take(items@.len() as int) =~= items@);
    Ok(skills)
}

/// Reads a ClawHub answer to a search (`search`) or a listing.
pub fn parse_clawhub_response(response: &JsonValue, search: bool) -> (r: Result<(Vec<ClawHubSkill>, Option<String>), String>)
    ensures
        match r {
            Ok((ss, next)) => clawhub_result(*response, search)
                == Ok::<(Seq<ClawHubSkillView>, Option<Seq<char>>), Seq<char>>((
                    ss@.map_values(|s: ClawHubSkill| s.view()),
                    opt_text_view(next),
                )),
            Err(e) => clawhub_result(*response, search) == Err::<(Seq<ClawHubSkillView>, Option<Seq<char>>), Seq<char>>(e@),
        },
{
    if search {
        match response.get("results") {
            Some(v) => match v.as_array() {
                Some(items) => match read_skills(items, "invalid search result") {
                    Ok(ss) => Ok((ss, None)),
                    Err(e) => Err(e),
                },
                None => Err("unexpected search response".to_owned()),
            },
            None => Err("unexpected search response".to_owned()),
        }
    } else {
        match response.get("items") {
            Some(v) => match v.as_array() {
                Some(items) => match read_skills(items, "invalid catalog item") {
                    Ok(ss) => Ok((ss, str_member(response, "nextCursor"))),
                    Err(e) => Err(e),
                },
                None => Err("unexpected catalog response".to_owned()),
            },
            None => Err("unexpected catalog response".to_owned()),
        }
    }
}

/// The registry download of skill `slug` by `owner_handle`.
pub open spec fn skill_download_url(slug: Seq<char>, owner_handle: Seq<char>) -> Result<Seq<char>, Seq<char>> {
    url_with_pairs(
        "https://clawhub.ai/api/v1/download"@,
        seq![("slug"@, slug), ("ownerHandle"@, owner_handle)],
        "invalid registry URL: "@,
    )
}

/// The URL a skill is downloaded from.
pub fn skill_download_request(slug: &str, owner_handle: &str) -> (r: Result<String, String>)
    ensures
        text_result(r) == skill_download_url(slug@, owner_handle@),
{
    let mut pairs: Vec<(&str, &str)> = Vec::new();
    pairs.push(("slug", slug));
    pairs.push(("ownerHandle", owner_handle));
    assert(pair_views(pairs@) =~= seq![("slug"@, slug@), ("ownerHandle"@, owner_handle@)]);
    build_url("https://clawhub.ai/api/v1/download", &pairs, "invalid registry URL: ")
}

/// Whether a download answered with JSON: then it is a hand-off to an
/// archive elsewhere rather than the archive itself.
pub fn is_handoff(content_type: &str) -> (r: bool)
    ensures
        r == has_prefix(content_type@, "application/json"@),
{
    text_starts_with(content_type, "application/json")
}

/// Whether a fetched archive is a zip (by its content type or its URL)
/// rather than a gzipped tarball.
pub fn is_zip_archive(content_type: &str, archive_url: &str) -> (r: bool)
    ensures
        r == (has_infix(content_type@, "zip"@) || has_suffix(archive_url@, ".zip"@)),
{
    text_contains(content_type, "zip") || text_ends_with(archive_url, ".zip")
}

/// The outcome of `bun install`: standard output, then standard error on a
/// line of its own when there is any (a stream that is not UTF-8 counts as
/// empty); an error when bun failed.
pub open spec fn bun_outcome(stdout: Option<Seq<char>>, stderr: Option<Seq<char>>, success: bool) -> Result<Seq<char>, Seq<char>> {
    let out = match stdout { Some(s) => s, None => Seq::empty() };
    let text = match stderr {
        Some(e) => if e.len() == 0 { out } else if out.len() == 0 { e } else { out + "\n"@ + e },
        None => out,
    };
    if success { Ok(text) } else { Err("bun install failed: "@ + text) }
}

/// Combines what `bun install` printed into the message shown.
pub fn bun_install_outcome(stdout: Option<String>, stderr: Option<String>, success: bool) -> (r: Result<String, String>)
    ensures
        text_result(r) == bun_outcome(
            opt_text_view(stdout),
            opt_text_view(stderr),
            success,
        ),
{
    proof {
        reveal_strlit("\n");
        reveal_strlit("bun install failed: ");
    }
    let ghost sv = opt_text_view(stdout);
    let ghost ev = opt_text_view(stderr);
    let ghost out_v = match sv { Some(x) => x, None => Seq::<char>::empty() };
    let mut text: Vec<char> = Vec::new();
    if let Some(o) = &stdout {
        push_str(&mut text, o.as_str());
    }
    assert(text@ =~= out_v);
    if let Some(e) = &stderr {
        if !e.as_str().is_empty() {
            if text.len() > 0 {
                text.push('\n');
                push_str(&mut text, e.as_str());
                assert(text@ =~= out_v + "\n"@ + e@);
            } else {
                push_str(&mut text, e.as_str());
                assert(text@ =~= e@);
            }
        }
    }
    let ghost t = text@;
    if success {
        Ok(string_of(text.as_slice()))
    } else {
        let mut out: Vec<char> = Vec::new();
        push_str(&mut out, "bun install failed: ");
        let k0 = out.len();
        let mut k: usize = 0;
        while k < text.len()
            invariant
                k <= text.len(),
                out@ == "bun install failed: "@ + text@.take(k as int),
            decreases text.len() - k,
        {
            out.push(text[k]);
            assert(text@.take(k + 1) =~= text@.take(k as int).push(text@[k as int]));
            k = k + 1;
        }
        assert(text@.take(text@.len() as int) =~= text@);
        Err(string_of(out.as_slice()))
    }
}

/// `prefix` + `name` + `suffix`.
pub open spec fn quoted(prefix: Seq<char>, name: Seq<char>, suffix: Seq<char>) -> Seq<char> {
    prefix + name + suffix
}

fn concat3(a: &str, b: &str, c: &str) -> (r: String)
    ensures
        r@ == a@ + b@ + c@,
{
    let mut out: Vec<char> = Vec::new();
    push_str(&mut out, a);
    push_str(&mut out, b);
    push_str(&mut out, c);
    string_of(out.as_slice())
}

/// The notification after installing the extension or skill `name`: a
/// success with `Installed <kind> '<name>'`, or an error with `Failed to
/// install <kind> '<name>': <detail>`.
pub open spec fn install_notice_text(kind: Seq<char>, name: Seq<char>, outcome: Result<Seq<char>, Seq<char>>) -> (bool, Seq<char>) {
    match outcome {
        Ok(_) => (true, "Installed "@ + kind + " '"@ + name + "'"@),
        Err(detail) => (false, "Failed to install "@ + kind + " '"@ + name + "': "@ + detail),
    }
}

/// The notification shown after an install of `kind` (`extension` or
/// `skill`) named `name` ended with `outcome`: whether it succeeded, and
/// the text.
pub fn install_notice(kind: &str, name: &str, outcome: &Result<String, String>) -> (r: (bool, String))
    ensures
        (r.0, r.1@) == install_notice_text(kind@, name@, text_result(*outcome)),
{
    let mut out: Vec<char> = Vec::new();
    match outcome {
        Ok(_) => {
            push_str(&mut out, "Installed ");
            push_str(&mut out, kind);
            push_str(&mut out, " '");
            push_str(&mut out, name);
            push_str(&mut out, "'");
            (true, string_of(out.as_slice()))
        },
        Err(detail) => {
            push_str(&mut out, "Failed to install ");
            push_str(&mut out, kind);
            push_str(&mut out, " '");
            push_str(&mut out, name);
            push_str(&mut out, "': ");
            push_str(&mut out, detail.as_str());
            (false, string_of(out.as_slice()))
        },
    }
}

/// The message of a finished install: `Installed '<name>' to <target>`.
pub fn installed_message(name: &str, target: &str) -> (r: String)
    ensures
        r@ == "Installed '"@ + name@ + "' to "@ + target@,
{
    let mut out: Vec<char> = Vec::new();
    push_str(&mut out, "Installed '");
    push_str(&mut out, name);
    push_str(&mut out, "' to ");
    push_str(&mut out, target);
    string_of(out.as_slice())
}

/// The error when a skill of that name is already installed.
pub fn skill_exists_message(name: &str) -> (r: String)
    ensures
        r@ == quoted("A skill named '"@, name@, "' is already installed."@),
{
    concat3("A skill named '", name, "' is already installed.")
}

/// The name a local skill is shown under: its directory's name, or `skill`.
pub fn local_skill_display_name(dir_name: Option<String>) -> (r: String)
    ensures
        match dir_name {
            Some(n) => r == n,
            None => r@ == "skill"@,
        },
{
    match dir_name {
        Some(n) => n,
        None => "skill".to_owned(),
    }
}

/// The window that finds and installs extensions: its search pager and the
/// package being installed, if any.
pub struct InstallExtensionWindow {
    pub pager: SearchPager<NpmPackage>,
    pub installing: Option<String>,
}

impl InstallExtensionWindow {
    /// A window loading the first page of the default search.
    pub fn new() -> (r: Self)
        ensures
            r.pager.wf(),
            r.pager.loading,
            r.pager.search_generation == 1,
            r.installing is None,
    {
        InstallExtensionWindow { pager: SearchPager::new(), installing: None }
    }

    /// The install of `package_name` starts.
    pub fn install(&mut self, package_name: String)
        ensures
            final(self).installing == Some(package_name),
            final(self).pager == old(self).pager,
    {
        self.installing = Some(package_name);
    }

    /// The install of `package_name` ended with `outcome`: nothing is being
    /// installed any more; returns the notification.
    pub fn finish_install(&mut self, package_name: &str, outcome: &Result<String, String>) -> (r: (bool, String))
        ensures
            final(self).installing is None,
            final(self).pager == old(self).pager,
            (r.0, r.1@) == install_notice_text("extension"@, package_name@, text_result(*outcome)),
    {
        self.installing = None;
        install_notice("extension", package_name, outcome)
    }
}

/// The window that finds and installs skills.
pub struct InstallSkillWindow {
    pub pager: SearchPager<ClawHubSkill>,
    pub installing: Option<String>,
}

impl InstallSkillWindow {
    /// A window loading the first page of the catalog.
    pub fn new() -> (r: Self)
        ensures
            r.pager.wf(),
            r.pager.loading,
            r.pager.search_generation == 1,
            r.installing is None,
    {
        InstallSkillWindow { pager: SearchPager::new(), installing: None }
    }

    /// The install of the skill named `name` starts.
    pub fn install(&mut self, name: String)
        ensures
            final(self).installing == Some(name),
            final(self).pager == old(self).pager,
    {
        self.installing = Some(name);
    }

    /// An install (from the registry or a local folder) of the skill shown
    /// as `display_name` ended: nothing is being installed any more. Returns
    /// whether it succeeded (the skills panel then reloads) and the
    /// notification.
    pub fn finish_install(&mut self, display_name: &str, outcome: &Result<String, String>) -> (r: (bool, String))
        ensures
            final(self).installing is None,
            final(self).pager == old(self).pager,
            (r.0, r.1@) == install_notice_text("skill"@, display_name@, text_result(*outcome)),
    {
        self.installing = None;
        install_notice("skill", display_name, outcome)
    }
}

} // verus!
