use vstd::prelude::*;

use crate::json::{get_member, member, same_text, Json};
use crate::severity::Severity;

verus! {

/// The package part of a query to the OSV vulnerability database.
#[derive(Debug)]
pub struct OsvPackageQuery {
    pub name: Option<String>,
    pub ecosystem: Option<String>,
    pub purl: Option<String>,
}

/// A query to the OSV vulnerability database.
#[derive(Debug)]
pub struct OsvQuery {
    pub version: Option<String>,
    pub package: OsvPackageQuery,
}

/// What an `OsvPackageQuery` holds, as text.
pub struct PackageQueryView {
    pub name: Option<Seq<char>>,
    pub ecosystem: Option<Seq<char>>,
    pub purl: Option<Seq<char>>,
}

/// What an `OsvQuery` holds, as text.
pub struct QueryView {
    pub version: Option<Seq<char>>,
    pub package: PackageQueryView,
}

/// The text of an optional string.
pub open spec fn text_of(s: Option<String>) -> Option<Seq<char>> {
    match s {
        Some(t) => Some(t@),
        None => None,
    }
}

impl View for OsvPackageQuery {
    type V = PackageQueryView;

    open spec fn view(&self) -> PackageQueryView {
        PackageQueryView {
            name: text_of(self.name),
            ecosystem: text_of(self.ecosystem),
            purl: text_of(self.purl),
        }
    }
}

impl View for OsvQuery {
    type V = QueryView;

    open spec fn view(&self) -> QueryView {
        QueryView { version: text_of(self.version), package: self.package@ }
    }
}

/// The query that looks a package up by its package URL alone.
pub open spec fn purl_query(purl: Seq<char>) -> QueryView {
    QueryView {
        version: None,
        package: PackageQueryView { name: None, ecosystem: None, purl: Some(purl) },
    }
}

/// The query that looks up one version of a named package of an ecosystem.
pub open spec fn package_query(ecosystem: Seq<char>, name: Seq<char>, version: Seq<char>) -> QueryView {
    QueryView {
        version: Some(version),
        package: PackageQueryView { name: Some(name), ecosystem: Some(ecosystem), purl: None },
    }
}

impl OsvQuery {
    /// A query by package URL.
    pub fn for_purl(purl: &str) -> (q: OsvQuery)
        ensures
            q@ == purl_query(purl@),
    {
        OsvQuery {
            version: None,
            package: OsvPackageQuery { name: None, ecosystem: None, purl: Some(String::from_str(purl)) },
        }
    }

    /// A query by ecosystem, package name and version.
    pub fn for_package(ecosystem: &str, name: &str, version: &str) -> (q: OsvQuery)
        ensures
            q@ == package_query(ecosystem@, name@, version@),
    {
        OsvQuery {
            version: Some(String::from_str(version)),
            package: OsvPackageQuery {
                name: Some(String::from_str(name)),
                ecosystem: Some(String::from_str(ecosystem)),
                purl: None,
            },
        }
    }
}

/// The OSV ecosystem that a package-URL type names.
pub open spec fn ecosystem_of(kind: Seq<char>) -> Seq<char> {
    if kind == "maven"@ {
        "Maven"@
    } else if kind == "apk"@ {
        "Alpine"@
    } else if kind == "cargo"@ {
        "crates.io"@
    } else if kind == "deb"@ {
        "debian"@
    } else if kind == "gem"@ {
        "RubyGems"@
    } else if kind == "golang"@ {
        "Go"@
    } else if kind == "nuget"@ {
        "NuGet"@
    } else if kind == "pypi"@ {
        "PyPI"@
    } else {
        kind
    }
}

/// The eight renamed package-URL types are eight different texts.
proof fn lemma_renamed_types_differ()
    ensures
        "maven"@ != "apk"@, "maven"@ != "cargo"@, "maven"@ != "deb"@, "maven"@ != "gem"@,
        "maven"@ != "golang"@, "maven"@ != "nuget"@, "maven"@ != "pypi"@,
        "apk"@ != "cargo"@, "apk"@ != "deb"@, "apk"@ != "gem"@, "apk"@ != "golang"@,
        "apk"@ != "nuget"@, "apk"@ != "pypi"@,
        "cargo"@ != "deb"@, "cargo"@ != "gem"@, "cargo"@ != "golang"@, "cargo"@ != "nuget"@,
        "cargo"@ != "pypi"@,
        "deb"@ != "gem"@, "deb"@ != "golang"@, "deb"@ != "nuget"@, "deb"@ != "pypi"@,
        "gem"@ != "golang"@, "gem"@ != "nuget"@, "gem"@ != "pypi"@,
        "golang"@ != "nuget"@, "golang"@ != "pypi"@,
        "nuget"@ != "pypi"@,
{
    reveal_strlit("maven");
    reveal_strlit("apk");
    reveal_strlit("cargo");
    reveal_strlit("deb");
    reveal_strlit("gem");
    reveal_strlit("golang");
    reveal_strlit("nuget");
    reveal_strlit("pypi");
    assert("maven"@.len() == 5 && "apk"@.len() == 3 && "cargo"@.len() == 5 && "deb"@.len() == 3);
    assert("gem"@.len() == 3 && "golang"@.len() == 6 && "nuget"@.len() == 5 && "pypi"@.len() == 4);
    assert("maven"@[0] != "cargo"@[0]);
    assert("maven"@[0] != "nuget"@[0]);
    assert("cargo"@[0] != "nuget"@[0]);
    assert("apk"@[0] != "deb"@[0]);
    assert("apk"@[0] != "gem"@[0]);
    assert("deb"@[0] != "gem"@[0]);
}

/// Exactly eight package-URL types are renamed in OSV, each to its own
/// name; every other type is its own ecosystem name.
pub proof fn lemma_ecosystem_names(kind: Seq<char>)
    ensures
        kind == "maven"@ ==> ecosystem_of(kind) == "Maven"@,
        kind == "apk"@ ==> ecosystem_of(kind) == "Alpine"@,
        kind == "cargo"@ ==> ecosystem_of(kind) == "crates.io"@,
        kind == "deb"@ ==> ecosystem_of(kind) == "debian"@,
        kind == "gem"@ ==> ecosystem_of(kind) == "RubyGems"@,
        kind == "golang"@ ==> ecosystem_of(kind) == "Go"@,
        kind == "nuget"@ ==> ecosystem_of(kind) == "NuGet"@,
        kind == "pypi"@ ==> ecosystem_of(kind) == "PyPI"@,
        (kind != "maven"@ && kind != "apk"@ && kind != "cargo"@ && kind != "deb"@ && kind != "gem"@
            && kind != "golang"@ && kind != "nuget"@ && kind != "pypi"@) ==> ecosystem_of(kind) == kind,
{
    lemma_renamed_types_differ();
}

/// Namespace and name are joined with `:` for Maven and with `/` for every
/// other package-URL type.
pub proof fn lemma_separators(kind: Seq<char>)
    ensures
        kind == "maven"@ ==> separator_of(kind) == ":"@,
        kind != "maven"@ ==> separator_of(kind) == "/"@,
{
}

/// What stands between namespace and name of a package of the given type.
pub open spec fn separator_of(kind: Seq<char>) -> Seq<char> {
    if kind == "maven"@ {
        ":"@
    } else {
        "/"@
    }
}

/// Maps a package-URL type to the name of its OSV ecosystem; a type that
/// has no other name in OSV is its own ecosystem name.
pub fn ecosystem<'a>(kind: &'a str) -> (e: &'a str)
    ensures
        e@ == ecosystem_of(kind@),
        kind@ == "maven"@ ==> e@ == "Maven"@,
        kind@ == "apk"@ ==> e@ == "Alpine"@,
        kind@ == "cargo"@ ==> e@ == "crates.io"@,
        kind@ == "deb"@ ==> e@ == "debian"@,
        kind@ == "gem"@ ==> e@ == "RubyGems"@,
        kind@ == "golang"@ ==> e@ == "Go"@,
        kind@ == "nuget"@ ==> e@ == "NuGet"@,
        kind@ == "pypi"@ ==> e@ == "PyPI"@,
        (kind@ != "maven"@ && kind@ != "apk"@ && kind@ != "cargo"@ && kind@ != "deb"@ && kind@
            != "gem"@ && kind@ != "golang"@ && kind@ != "nuget"@ && kind@ != "pypi"@) ==> e@ == kind@,
{
    proof {
        lemma_renamed_types_differ();
    }
    if same_text(kind, "maven") {
        "Maven"
    } else if same_text(kind, "apk") {
        "Alpine"
    } else if same_text(kind, "cargo") {
        "crates.io"
    } else if same_text(kind, "deb") {
        "debian"
    } else if same_text(kind, "gem") {
        "RubyGems"
    } else if same_text(kind, "golang") {
        "Go"
    } else if same_text(kind, "nuget") {
        "NuGet"
    } else if same_text(kind, "pypi") {
        "PyPI"
    } else {
        kind
    }
}

/// The separator between namespace and name: `:` for Maven, `/` otherwise.
pub fn separator(kind: &str) -> (s: &'static str)
    ensures
        s@ == separator_of(kind@),
        kind@ == "maven"@ ==> s@ == ":"@,
        kind@ != "maven"@ ==> s@ == "/"@,
{
    if same_text(kind, "maven") {
        ":"
    } else {
        "/"
    }
}

/// The query that a JSON description of a package stands for: a string is
/// a package URL; an object names the package by its `name`, `type` and
/// `version` members, and its `namespace` member where it has one, all of
/// them strings. Anything else stands for no query.
pub open spec fn query_for(input: Json) -> Option<QueryView> {
    match input {
        Json::String(purl) => Some(purl_query(purl@)),
        Json::Object(members) => query_for_members(members@),
        _ => None,
    }
}

/// The query that an object with the given members stands for (see
/// `query_for`).
pub open spec fn query_for_members(m: Seq<(String, Json)>) -> Option<QueryView> {
    match (member(m, "name"@), member(m, "namespace"@), member(m, "type"@), member(m, "version"@)) {
        (
            Some(Json::String(name)),
            Some(Json::String(namespace)),
            Some(Json::String(kind)),
            Some(Json::String(version)),
        ) => Some(
            package_query(ecosystem_of(kind@), namespace@ + separator_of(kind@) + name@, version@),
        ),
        (
            Some(Json::String(name)),
            None,
            Some(Json::String(kind)),
            Some(Json::String(version)),
        ) => Some(package_query(ecosystem_of(kind@), name@, version@)),
        _ => None,
    }
}

/// A member added under another key leaves the lookup of `key` as it was.
proof fn lemma_member_ignores_other_key(m: Seq<(String, Json)>, p: int, e: (String, Json), key: Seq<char>)
    requires
        0 <= p <= m.len(),
        e.0@ != key,
    ensures
        member(m.insert(p, e), key) == member(m, key),
    decreases m.len(),
{
    if p == 0 {
        assert(m.insert(0, e).drop_first() =~= m);
    } else {
        assert(m.insert(p, e)[0] == m[0]);
        assert(m.insert(p, e).drop_first() =~= m.drop_first().insert(p - 1, e));
        lemma_member_ignores_other_key(m.drop_first(), p - 1, e, key);
    }
}

/// A member added under a key that the object did not have is found by a
/// lookup of that key.
proof fn lemma_member_finds_new_key(m: Seq<(String, Json)>, p: int, e: (String, Json))
    requires
        0 <= p <= m.len(),
        member(m, e.0@) is None,
    ensures
        member(m.insert(p, e), e.0@) == Some(e.1),
    decreases m.len(),
{
    if p == 0 {
        assert(m.insert(0, e)[0] == e);
    } else {
        assert(m.insert(p, e)[0] == m[0]);
        assert(m.insert(p, e).drop_first() =~= m.drop_first().insert(p - 1, e));
        lemma_member_finds_new_key(m.drop_first(), p - 1, e);
    }
}

/// Giving a package a namespace keeps its ecosystem and version, and puts
/// the namespace and the type's separator in front of its name.
pub proof fn lemma_namespace_prefixes_name(
    with_namespace: Vec<(String, Json)>,
    without: Vec<(String, Json)>,
    p: int,
    key: String,
    namespace: String,
)
    requires
        0 <= p <= without@.len(),
        key@ == "namespace"@,
        member(without@, "namespace"@) is None,
        with_namespace@ == without@.insert(p, (key, Json::String(namespace))),
        query_for(Json::Object(without)) is Some,
    ensures
        query_for(Json::Object(with_namespace)) matches Some(q) && {
            let plain = query_for(Json::Object(without))->0;
            &&& q.version == plain.version
            &&& q.package.ecosystem == plain.package.ecosystem
            &&& q.package.purl == plain.package.purl
            &&& plain.package.name matches Some(n) && q.package.name == Some(
                namespace@ + separator_of(member(without@, "type"@)->0->String_0@) + n,
            )
        },
{
    let e = (key, Json::String(namespace));
    reveal_strlit("namespace");
    reveal_strlit("name");
    reveal_strlit("type");
    reveal_strlit("version");
    assert("namespace"@.len() == 9 && "name"@.len() == 4 && "type"@.len() == 4 && "version"@.len() == 7);
    assert("name"@[0] != "type"@[0]);
    lemma_member_ignores_other_key(without@, p, e, "name"@);
    lemma_member_ignores_other_key(without@, p, e, "type"@);
    lemma_member_ignores_other_key(without@, p, e, "version"@);
    lemma_member_finds_new_key(without@, p, e);
}

/// Members other than `name`, `namespace`, `type` and `version`, wherever
/// they stand in the object, do not change the query that it stands for.
pub proof fn lemma_other_members_ignored(
    with_member: Vec<(String, Json)>,
    without: Vec<(String, Json)>,
    p: int,
    extra: (String, Json),
)
    requires
        0 <= p <= without@.len(),
        with_member@ == without@.insert(p, extra),
        extra.0@ != "name"@,
        extra.0@ != "namespace"@,
        extra.0@ != "type"@,
        extra.0@ != "version"@,
    ensures
        query_for(Json::Object(with_member)) == query_for(Json::Object(without)),
{
    lemma_member_ignores_other_key(without@, p, extra, "name"@);
    lemma_member_ignores_other_key(without@, p, extra, "namespace"@);
    lemma_member_ignores_other_key(without@, p, extra, "type"@);
    lemma_member_ignores_other_key(without@, p, extra, "version"@);
}

/// The view of an optional query.
pub open spec fn query_view(q: Option<OsvQuery>) -> Option<QueryView> {
    match q {
        Some(q) => Some(q@),
        None => None,
    }
}

fn query_of(input: &Json) -> (q: Option<OsvQuery>)
    ensures
        query_view(q) == query_for(*input),
{
    match input {
        Json::String(purl) => Some(OsvQuery::for_purl(purl.as_str())),
        Json::Object(members) => {
            let name = get_member(members, "name");
            let namespace = get_member(members, "namespace");
            let kind = get_member(members, "type");
            let version = get_member(members, "version");
            match (name, namespace, kind, version) {
                (
                    Some(Json::String(name)),
                    Some(Json::String(namespace)),
                    Some(Json::String(kind)),
                    Some(Json::String(version)),
                ) => {
                    let mut full = namespace.clone();
                    full.append(separator(kind.as_str()));
                    full.append(name.as_str());
                    Some(OsvQuery::for_package(ecosystem(kind.as_str()), full.as_str(), version.as_str()))
                },
                (
                    Some(Json::String(name)),
                    None,
                    Some(Json::String(kind)),
                    Some(Json::String(version)),
                ) => Some(OsvQuery::for_package(ecosystem(kind.as_str()), name.as_str(), version.as_str())),
                _ => None,
            }
        },
        _ => None,
    }
}

/// Turns a JSON description of a package into an OSV query (see `query_for`).
pub fn json_to_query(input: Json) -> (q: Option<OsvQuery>)
    ensures
        query_view(q) == query_for(input),
{
    query_of(&input)
}

/// The queries that a list of package descriptions stands for, in order;
/// an item that stands for no query adds none.
pub open spec fn batch_for(items: Seq<Json>) -> Seq<QueryView>
    decreases items.len(),
{
    if items.len() == 0 {
        Seq::empty()
    } else {
        match query_for(items.last()) {
            Some(q) => batch_for(items.drop_last()).push(q),
            None => batch_for(items.drop_last()),
        }
    }
}

/// The query that one package description stands for, as a function.
pub open spec fn query_fn() -> spec_fn(Json) -> Option<QueryView> {
    |j: Json| query_for(j)
}

/// The batch for a list holds, in order, exactly the queries that its items
/// stand for, item by item.
pub proof fn lemma_batch_is_item_queries(items: Seq<Json>)
    ensures
        batch_for(items) == items.filter_map(query_fn()),
    decreases items.len(),
{
    if items.len() > 0 {
        lemma_batch_is_item_queries(items.drop_last());
    }
}

/// The batch of a list is the batch of its first part followed by the
/// batch of the rest; a single item gives its query, or nothing.
pub proof fn lemma_batch_of_parts(a: Seq<Json>, b: Seq<Json>, x: Json)
    ensures
        batch_for(a + b) == batch_for(a) + batch_for(b),
        batch_for(seq![x]) == (match query_for(x) {
            Some(q) => seq![q],
            None => Seq::<QueryView>::empty(),
        }),
    decreases b.len(),
{
    assert(seq![x].drop_last() =~= Seq::<Json>::empty());
    assert(seq![x].last() == x);
    assert(batch_for(Seq::<Json>::empty()) =~= Seq::<QueryView>::empty());
    match query_for(x) {
        Some(q) => {
            assert(Seq::<QueryView>::empty().push(q) =~= seq![q]);
        },
        None => {},
    }
    if b.len() == 0 {
        assert(a + b =~= a);
        assert(batch_for(b) =~= Seq::<QueryView>::empty());
        assert(batch_for(a) + batch_for(b) =~= batch_for(a));
    } else {
        lemma_batch_of_parts(a, b.drop_last(), x);
        assert((a + b).drop_last() =~= a + b.drop_last());
        assert((a + b).last() == b.last());
        match query_for(b.last()) {
            Some(q) => {
                assert(batch_for(a) + batch_for(b.drop_last()).push(q) =~= (batch_for(a) + batch_for(
                    b.drop_last(),
                )).push(q));
            },
            None => {},
        }
    }
}

/// The views of a list of queries.
pub open spec fn queries_view(qs: Seq<OsvQuery>) -> Seq<QueryView> {
    qs.map_values(|q: OsvQuery| q@)
}

/// What a vulnerability scan of some input asks the OSV service.
#[derive(Debug)]
pub enum ScanPlan {
    /// One batch query for the items of a list.
    Batch(Vec<OsvQuery>),
    /// One query for a single package.
    Single(OsvQuery),
    /// The input describes no package: the scan has no result.
    Nothing,
}

/// Decides what to ask the OSV service for a scan of `input`: a list is
/// scanned as one batch of the queries its items stand for; any other
/// value is scanned as one package, where it stands for a query.
pub fn plan_scan(input: Json) -> (p: ScanPlan)
    ensures
        match input {
            Json::Array(items) => p matches ScanPlan::Batch(qs) && queries_view(qs@) == batch_for(items@)
                && queries_view(qs@) == items@.filter_map(query_fn()),
            _ => match query_for(input) {
                Some(q) => p matches ScanPlan::Single(s) && s@ == q,
                None => p is Nothing,
            },
        },
{
    match input {
        Json::Array(items) => {
            let mut queries: Vec<OsvQuery> = Vec::new();
            let n = items.len();
            let mut i: usize = 0;
            while i < n
                invariant
                    n == items@.len(),
                    i <= n,
                    queries_view(queries@) == batch_for(items@.take(i as int)),
                decreases n - i,
            {
                assert(items@.take(i + 1).drop_last() =~= items@.take(i as int));
                match query_of(&items[i]) {
                    Some(q) => {
                        queries.push(q);
                    },
                    None => {},
                }
                assert(queries_view(queries@) =~= batch_for(items@.take(i + 1)));
                i = i + 1;
            }
            assert(items@.take(n as int) =~= items@);
            proof {
                lemma_batch_is_item_queries(items@);
            }
            ScanPlan::Batch(queries)
        },
        other => match query_of(&other) {
            Some(q) => ScanPlan::Single(q),
            None => ScanPlan::Nothing,
        },
    }
}

/// The contents of a list of lists.
pub open spec fn contents<V>(lists: Seq<Vec<V>>) -> Seq<Seq<V>> {
    lists.map_values(|l: Vec<V>| l@)
}

/// Joins the vulnerabilities that a batch query found for each of its
/// queries into one list, query by query, in order.
pub fn batch_vulnerabilities<V>(results: Vec<Vec<V>>) -> (found: Vec<V>)
    ensures
        found@ == contents(results@).flatten(),
{
    let mut results = results;
    let mut found: Vec<V> = Vec::new();
    let ghost all = contents(results@).flatten();
    while results.len() > 0
        invariant
            found@ + contents(results@).flatten() == all,
        decreases results@.len(),
    {
        let ghost before = results@;
        let mut first = results.remove(0);
        assert(contents(before).drop_first() =~= contents(results@));
        assert(contents(before).first() == first@);
        found.append(&mut first);
        assert(found@ + contents(results@).flatten() =~= all);
    }
    assert(contents(results@) =~= Seq::<Seq<V>>::empty());
    assert(found@ =~= all);
    found
}

/// What a scan gives for the service's answer to its single query: the
/// answer where the lookup succeeded, no result where it failed.
pub fn single_result<T, E>(answer: Result<T, E>) -> (r: Option<T>)
    ensures
        match answer {
            Ok(v) => r == Some(v),
            Err(_) => r is None,
        },
{
    match answer {
        Ok(v) => Some(v),
        Err(_) => None,
    }
}

/// What a scan lists for the service's answer to its batch query: the
/// vulnerabilities found for all of its queries, in order, where the batch
/// succeeded; no result where it failed.
pub fn batch_result<V, E>(answer: Result<Vec<Vec<V>>, E>) -> (r: Option<Vec<V>>)
    ensures
        match answer {
            Ok(results) => r matches Some(found) && found@ == contents(results@).flatten(),
            Err(_) => r is None,
        },
{
    match answer {
        Ok(results) => Some(batch_vulnerabilities(results)),
        Err(_) => None,
    }
}

/// The details kept of a listed vulnerability: those fetched for it where
/// the fetch succeeded, else what the listing gave.
pub fn settle_details<V>(listed: V, fetched: Option<V>) -> (kept: V)
    ensures
        kept == (match fetched {
            Some(f) => f,
            None => listed,
        }),
{
    match fetched {
        Some(f) => f,
        None => listed,
    }
}

/// The policy function that looks packages up in the OSV vulnerability
/// database.
#[derive(Debug)]
pub struct ScanPurl;

impl ScanPurl {
    /// The result of the policy function for what the scan found: the
    /// findings replace the input; a scan that found nothing (no package
    /// described, or the service failed) fails with an error.
    pub fn outcome<T>(&self, found: Option<T>) -> (r: Result<T, Severity>)
        ensures
            match found {
                Some(v) => r == Ok::<T, Severity>(v),
                None => r == Err::<T, Severity>(Severity::Error),
            },
    {
        match found {
            Some(v) => Ok(v),
            None => Err(Severity::Error),
        }
    }

    /// Where the function stands in the evaluation order of a conjunction:
    /// it reaches out to the network, so it comes late.
    pub fn order(&self) -> (o: u8)
        ensures
            o == 200,
    {
        200
    }
}

} // verus!
