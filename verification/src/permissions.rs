//! Permissions given to a rig on the command line, turned into allow and deny lists.
use vstd::prelude::*;
use vstd::string::StringExecFns;

use crate::text::{chars_of, string_of_range};

verus! {

#[verifier::external_type_specification]
#[verifier::external_body]
pub struct ExUrl(url::Url);

/// A permission over URLs.
#[derive(Debug, PartialEq)]
pub enum UrlPermission {
    Any,
    Exact { exact: url::Url },
    Prefix { prefix: url::Url },
}

/// A permission over names (fonts, environment variables).
#[derive(Debug, PartialEq)]
pub enum StringPermission {
    Any,
    Exact { exact: String },
    Prefix { prefix: String },
    Suffix { suffix: String },
}

/// A permission over local components, which are only "any" or named exactly.
#[derive(Debug, PartialEq)]
pub enum LocalComponentPermission {
    Any,
    Exact { exact: String },
}

/// A permission over registry components; each part that is `None` matches anything.
/// The version requirement is held in semver's canonical text.
#[derive(Debug, PartialEq)]
pub struct RegistryComponentPermission {
    pub publisher: Option<String>,
    pub name: Option<String>,
    pub version: Option<String>,
}

/// One permission.
#[derive(Debug, PartialEq)]
pub enum Permission {
    All,
    Http(UrlPermission),
    Font(StringPermission),
    Env(StringPermission),
    HttpComponent(UrlPermission),
    LocalComponent(LocalComponentPermission),
    RegistryComponent(RegistryComponentPermission),
}

/// The allow and deny lists of a rig.
#[derive(Debug)]
pub struct Permissions {
    pub allow: Vec<Permission>,
    pub deny: Vec<Permission>,
}

/// Which permission a URL permission argument builds.
#[derive(Clone, Copy)]
pub enum UrlPermissionKind {
    Http,
    HttpComponent,
}

/// Which permission a name permission argument builds.
#[derive(Clone, Copy)]
pub enum StringPermissionKind {
    Font,
    Env,
}

pub open spec fn wrap_url(kind: UrlPermissionKind, p: UrlPermission) -> Permission {
    match kind {
        UrlPermissionKind::Http => Permission::Http(p),
        UrlPermissionKind::HttpComponent => Permission::HttpComponent(p),
    }
}

pub open spec fn wrap_string(kind: StringPermissionKind, p: StringPermission) -> Permission {
    match kind {
        StringPermissionKind::Font => Permission::Font(p),
        StringPermissionKind::Env => Permission::Env(p),
    }
}

/// The permissions that one side (allow or deny) of URL arguments gives: "any" first,
/// then each exact URL, then each prefix, in the order given.
pub open spec fn url_permissions(
    kind: UrlPermissionKind,
    any: bool,
    exact: Seq<url::Url>,
    prefix: Seq<url::Url>,
) -> Seq<Permission> {
    (if any {
        seq![wrap_url(kind, UrlPermission::Any)]
    } else {
        seq![]
    }) + url_entries(kind, false, exact) + url_entries(kind, true, prefix)
}

/// The permissions that one side of name arguments gives: "any", exact names,
/// prefixes, then suffixes.
pub open spec fn string_permissions(
    kind: StringPermissionKind,
    any: bool,
    exact: Seq<String>,
    prefix: Seq<String>,
    suffix: Seq<String>,
) -> Seq<Permission> {
    (if any {
        seq![wrap_string(kind, StringPermission::Any)]
    } else {
        seq![]
    }) + string_entries(kind, NameMatch::Exact, exact) + string_entries(kind, NameMatch::Prefix, prefix)
        + string_entries(kind, NameMatch::Suffix, suffix)
}

/// The permissions that one side of local component arguments gives.
pub open spec fn local_component_permissions(any: bool, exact: Seq<String>) -> Seq<Permission> {
    (if any {
        seq![Permission::LocalComponent(LocalComponentPermission::Any)]
    } else {
        seq![]
    }) + local_component_entries(exact)
}

fn push_url_permission(list: &mut Vec<Permission>, kind: UrlPermissionKind, p: UrlPermission)
    ensures
        final(list)@ == old(list)@.push(wrap_url(kind, p)),
{
    match kind {
        UrlPermissionKind::Http => list.push(Permission::Http(p)),
        UrlPermissionKind::HttpComponent => list.push(Permission::HttpComponent(p)),
    }
}

fn push_string_permission(
    list: &mut Vec<Permission>,
    kind: StringPermissionKind,
    p: StringPermission,
)
    ensures
        final(list)@ == old(list)@.push(wrap_string(kind, p)),
{
    match kind {
        StringPermissionKind::Font => list.push(Permission::Font(p)),
        StringPermissionKind::Env => list.push(Permission::Env(p)),
    }
}

/// The URL permission an exact (`false`) or prefix (`true`) argument builds.
pub open spec fn url_entry(is_prefix: bool, u: url::Url) -> UrlPermission {
    if is_prefix {
        UrlPermission::Prefix { prefix: u }
    } else {
        UrlPermission::Exact { exact: u }
    }
}

/// How a name argument matches.
#[derive(Clone, Copy)]
pub enum NameMatch {
    Exact,
    Prefix,
    Suffix,
}

/// The name permission an argument builds.
pub open spec fn string_entry(how: NameMatch, s: String) -> StringPermission {
    match how {
        NameMatch::Exact => StringPermission::Exact { exact: s },
        NameMatch::Prefix => StringPermission::Prefix { prefix: s },
        NameMatch::Suffix => StringPermission::Suffix { suffix: s },
    }
}

/// One URL permission per argument, in order.
pub open spec fn url_entries(kind: UrlPermissionKind, is_prefix: bool, urls: Seq<url::Url>) -> Seq<
    Permission,
> {
    Seq::new(urls.len(), |i: int| wrap_url(kind, url_entry(is_prefix, urls[i])))
}

/// One name permission per argument, in order.
pub open spec fn string_entries(kind: StringPermissionKind, how: NameMatch, names: Seq<String>) -> Seq<
    Permission,
> {
    Seq::new(names.len(), |i: int| wrap_string(kind, string_entry(how, names[i])))
}

/// One local component permission per name, in order.
pub open spec fn local_component_entries(names: Seq<String>) -> Seq<Permission> {
    Seq::new(
        names.len(),
        |i: int| Permission::LocalComponent(LocalComponentPermission::Exact { exact: names[i] }),
    )
}

fn push_url_entries(
    list: &mut Vec<Permission>,
    kind: UrlPermissionKind,
    is_prefix: bool,
    urls: Vec<url::Url>,
)
    ensures
        final(list)@ == old(list)@ + url_entries(kind, is_prefix, urls@),
{
    let mut urls = urls;
    let ghost all = urls@;
    let ghost start = list@;
    while urls.len() > 0
        invariant
            urls@.len() <= all.len(),
            urls@ == all.subrange(all.len() - urls@.len(), all.len() as int),
            list@ == start + url_entries(kind, is_prefix, all.subrange(0, all.len() - urls@.len())),
        decreases urls@.len(),
    {
        let ghost done = (all.len() - urls@.len()) as int;
        let u = urls.remove(0);
        assert(u == all[done]);
        let p = if is_prefix {
            UrlPermission::Prefix { prefix: u }
        } else {
            UrlPermission::Exact { exact: u }
        };
        push_url_permission(list, kind, p);
        assert(url_entries(kind, is_prefix, all.subrange(0, done + 1)) =~= url_entries(
            kind,
            is_prefix,
            all.subrange(0, done),
        ).push(wrap_url(kind, p)));
        assert(list@ =~= start + url_entries(kind, is_prefix, all.subrange(0, done + 1)));
    }
    assert(all.subrange(0, all.len() as int) =~= all);
}

fn push_string_entries(
    list: &mut Vec<Permission>,
    kind: StringPermissionKind,
    how: NameMatch,
    names: Vec<String>,
)
    ensures
        final(list)@ == old(list)@ + string_entries(kind, how, names@),
{
    let mut names = names;
    let ghost all = names@;
    let ghost start = list@;
    while names.len() > 0
        invariant
            names@.len() <= all.len(),
            names@ == all.subrange(all.len() - names@.len(), all.len() as int),
            list@ == start + string_entries(kind, how, all.subrange(0, all.len() - names@.len())),
        decreases names@.len(),
    {
        let ghost done = (all.len() - names@.len()) as int;
        let s = names.remove(0);
        assert(s == all[done]);
        let p = match how {
            NameMatch::Exact => StringPermission::Exact { exact: s },
            NameMatch::Prefix => StringPermission::Prefix { prefix: s },
            NameMatch::Suffix => StringPermission::Suffix { suffix: s },
        };
        push_string_permission(list, kind, p);
        assert(string_entries(kind, how, all.subrange(0, done + 1)) =~= string_entries(
            kind,
            how,
            all.subrange(0, done),
        ).push(wrap_string(kind, p)));
        assert(list@ =~= start + string_entries(kind, how, all.subrange(0, done + 1)));
    }
    assert(all.subrange(0, all.len() as int) =~= all);
}

fn push_local_component_entries(list: &mut Vec<Permission>, names: Vec<String>)
    ensures
        final(list)@ == old(list)@ + local_component_entries(names@),
{
    let mut names = names;
    let ghost all = names@;
    let ghost start = list@;
    while names.len() > 0
        invariant
            names@.len() <= all.len(),
            names@ == all.subrange(all.len() - names@.len(), all.len() as int),
            list@ == start + local_component_entries(all.subrange(0, all.len() - names@.len())),
        decreases names@.len(),
    {
        let ghost done = (all.len() - names@.len()) as int;
        let s = names.remove(0);
        assert(s == all[done]);
        let p = Permission::LocalComponent(LocalComponentPermission::Exact { exact: s });
        list.push(p);
        assert(local_component_entries(all.subrange(0, done + 1)) =~= local_component_entries(
            all.subrange(0, done),
        ).push(p));
        assert(list@ =~= start + local_component_entries(all.subrange(0, done + 1)));
    }
    assert(all.subrange(0, all.len() as int) =~= all);
}

/// Adds the URL permissions of one kind to the allow and deny lists.
#[allow(clippy::too_many_arguments)]
pub fn add_url_permissions(
    allow_list: &mut Vec<Permission>,
    deny_list: &mut Vec<Permission>,
    kind: UrlPermissionKind,
    allow_any: bool,
    allow_exact: Vec<url::Url>,
    allow_prefix: Vec<url::Url>,
    deny_any: bool,
    deny_exact: Vec<url::Url>,
    deny_prefix: Vec<url::Url>,
)
    ensures
        final(allow_list)@ == old(allow_list)@ + url_permissions(
            kind,
            allow_any,
            allow_exact@,
            allow_prefix@,
        ),
        final(deny_list)@ == old(deny_list)@ + url_permissions(
            kind,
            deny_any,
            deny_exact@,
            deny_prefix@,
        ),
{
    let ghost a0 = allow_list@;
    let ghost d0 = deny_list@;
    let ghost ae = allow_exact@;
    let ghost ap = allow_prefix@;
    let ghost de = deny_exact@;
    let ghost dp = deny_prefix@;
    if allow_any {
        push_url_permission(allow_list, kind, UrlPermission::Any);
    }
    push_url_entries(allow_list, kind, false, allow_exact);
    push_url_entries(allow_list, kind, true, allow_prefix);
    if deny_any {
        push_url_permission(deny_list, kind, UrlPermission::Any);
    }
    push_url_entries(deny_list, kind, false, deny_exact);
    push_url_entries(deny_list, kind, true, deny_prefix);
    assert(allow_list@ =~= a0 + url_permissions(kind, allow_any, ae, ap));
    assert(deny_list@ =~= d0 + url_permissions(kind, deny_any, de, dp));
}

/// Adds the name permissions of one kind to the allow and deny lists.
#[allow(clippy::too_many_arguments)]
pub fn add_string_permissions(
    allow_list: &mut Vec<Permission>,
    deny_list: &mut Vec<Permission>,
    kind: StringPermissionKind,
    allow_any: bool,
    allow_exact: Vec<String>,
    allow_prefix: Vec<String>,
    allow_suffix: Vec<String>,
    deny_any: bool,
    deny_exact: Vec<String>,
    deny_prefix: Vec<String>,
    deny_suffix: Vec<String>,
)
    ensures
        final(allow_list)@ == old(allow_list)@ + string_permissions(
            kind,
            allow_any,
            allow_exact@,
            allow_prefix@,
            allow_suffix@,
        ),
        final(deny_list)@ == old(deny_list)@ + string_permissions(
            kind,
            deny_any,
            deny_exact@,
            deny_prefix@,
            deny_suffix@,
        ),
{
    let ghost a0 = allow_list@;
    let ghost d0 = deny_list@;
    let ghost ae = allow_exact@;
    let ghost ap = allow_prefix@;
    let ghost asf = allow_suffix@;
    let ghost de = deny_exact@;
    let ghost dp = deny_prefix@;
    let ghost dsf = deny_suffix@;
    if allow_any {
        push_string_permission(allow_list, kind, StringPermission::Any);
    }
    push_string_entries(allow_list, kind, NameMatch::Exact, allow_exact);
    push_string_entries(allow_list, kind, NameMatch::Prefix, allow_prefix);
    push_string_entries(allow_list, kind, NameMatch::Suffix, allow_suffix);
    if deny_any {
        push_string_permission(deny_list, kind, StringPermission::Any);
    }
    push_string_entries(deny_list, kind, NameMatch::Exact, deny_exact);
    push_string_entries(deny_list, kind, NameMatch::Prefix, deny_prefix);
    push_string_entries(deny_list, kind, NameMatch::Suffix, deny_suffix);
    assert(allow_list@ =~= a0 + string_permissions(kind, allow_any, ae, ap, asf));
    assert(deny_list@ =~= d0 + string_permissions(kind, deny_any, de, dp, dsf));
}

/// Adds the local component permissions to the allow and deny lists.
pub fn add_local_component_permissions(
    allow_list: &mut Vec<Permission>,
    deny_list: &mut Vec<Permission>,
    allow_any: bool,
    allow_exact: Vec<String>,
    deny_any: bool,
    deny_exact: Vec<String>,
)
    ensures
        final(allow_list)@ == old(allow_list)@ + local_component_permissions(
            allow_any,
            allow_exact@,
        ),
        final(deny_list)@ == old(deny_list)@ + local_component_permissions(deny_any, deny_exact@),
{
    let ghost a0 = allow_list@;
    let ghost d0 = deny_list@;
    let ghost ae = allow_exact@;
    let ghost de = deny_exact@;
    if allow_any {
        allow_list.push(Permission::LocalComponent(LocalComponentPermission::Any));
    }
    push_local_component_entries(allow_list, allow_exact);
    if deny_any {
        deny_list.push(Permission::LocalComponent(LocalComponentPermission::Any));
    }
    push_local_component_entries(deny_list, deny_exact);
    assert(allow_list@ =~= a0 + local_component_permissions(allow_any, ae));
    assert(deny_list@ =~= d0 + local_component_permissions(deny_any, de));
}

/// The position of the first `c` in `s` at or after `from`.
pub open spec fn first_index_from(s: Seq<char>, c: char, from: int) -> Option<int>
    decreases s.len() - from,
{
    if from < 0 || from >= s.len() {
        None
    } else if s[from] == c {
        Some(from)
    } else {
        first_index_from(s, c, from + 1)
    }
}

/// A registry component argument split at its first two dots into publisher, name
/// and version requirement (which may itself contain dots).
pub open spec fn registry_split(s: Seq<char>) -> Option<(Seq<char>, Seq<char>, Seq<char>)> {
    match first_index_from(s, '.', 0) {
        None => None,
        Some(i) => match first_index_from(s, '.', i + 1) {
            None => None,
            Some(j) => Some((s.subrange(0, i), s.subrange(i + 1, j), s.subrange(j + 1, s.len() as int))),
        },
    }
}

/// An empty part means "any".
pub open spec fn optional_part(p: Seq<char>) -> Option<Seq<char>> {
    if p.len() == 0 {
        None
    } else {
        Some(p)
    }
}

/// The view of an optional string.
pub open spec fn option_view(o: Option<String>) -> Option<Seq<char>> {
    match o {
        None => None,
        Some(s) => Some(s@),
    }
}

/// The canonical text of the semver version requirement that `text` parses to, if it
/// parses.
pub uninterp spec fn spec_canonical_version_req(text: Seq<char>) -> Option<Seq<char>>;

/// Parses a version requirement with `semver::VersionReq::parse` and gives it back as
/// semver's own text for it (its `Display`). Named, not described.
#[verifier::external_body]
fn canonical_version_req(text: &str) -> (r: Option<String>)
    ensures
        option_view(r) == spec_canonical_version_req(text@),
{
    semver::VersionReq::parse(text).ok().map(|req| req.to_string())
}

/// The version requirement of a registry permission: none for an empty part,
/// otherwise semver's reading of it.
pub open spec fn version_part_valid(v: Seq<char>) -> bool {
    v.len() == 0 || spec_canonical_version_req(v) is Some
}

/// `p` is what the registry component argument `s` stands for.
pub open spec fn registry_permission_of(s: Seq<char>, p: RegistryComponentPermission) -> bool {
    match registry_split(s) {
        None => false,
        Some((publisher, name, version)) => {
            &&& option_view(p.publisher) == optional_part(publisher)
            &&& option_view(p.name) == optional_part(name)
            &&& option_view(p.version) == if version.len() == 0 {
                None
            } else {
                spec_canonical_version_req(version)
            }
            &&& version_part_valid(version)
        },
    }
}

/// The message for a version requirement that does not parse.
pub open spec fn version_error_message(version: Seq<char>) -> Seq<char> {
    "Failed to parse version requirement from: '"@ + version + "'"@
}

/// Parses a registry component argument of the form `publisher.name.version_spec`,
/// where each part may be empty. The argument must hold at least two dots: the
/// three parts are taken unchecked.
pub fn parse_registry_component_permission(s: &str) -> (r: Result<
    RegistryComponentPermission,
    String,
>)
    requires
        registry_split(s@) is Some,
    ensures
        match r {
            Ok(p) => registry_permission_of(s@, p),
            Err(message) => {
                let version = registry_split(s@).unwrap().2;
                &&& !version_part_valid(version)
                &&& message@ == version_error_message(version)
            },
        },
{
    let chars = chars_of(s);
    let n = chars.len();
    let mut i: usize = 0;
    while i < n && chars[i] != '.'
        invariant
            i <= n,
            n == chars@.len(),
            chars@ == s@,
            first_index_from(s@, '.', 0) == first_index_from(s@, '.', i as int),
        decreases n - i,
    {
        i = i + 1;
    }
    assert(i < n) by {
        if i == n {
            assert(first_index_from(s@, '.', i as int) is None);
        }
    }
    let mut j: usize = i + 1;
    while j < n && chars[j] != '.'
        invariant
            i < j <= n,
            n == chars@.len(),
            chars@ == s@,
            first_index_from(s@, '.', i + 1) == first_index_from(s@, '.', j as int),
        decreases n - j,
    {
        j = j + 1;
    }
    assert(j < n) by {
        if j == n {
            assert(first_index_from(s@, '.', j as int) is None);
        }
    }
    assert(first_index_from(s@, '.', i as int) == Some(i as int));
    assert(first_index_from(s@, '.', j as int) == Some(j as int));
    let publisher_part = string_of_range(&chars, 0, i);
    let name_part = string_of_range(&chars, i + 1, j);
    let version_part = string_of_range(&chars, j + 1, n);
    let publisher = if publisher_part.as_str().is_empty() == false {
        Some(publisher_part)
    } else {
        None
    };
    let name = if name_part.as_str().is_empty() == false {
        Some(name_part)
    } else {
        None
    };
    let version = if version_part.as_str().is_empty() == false {
        match canonical_version_req(version_part.as_str()) {
            Some(v) => Some(v),
            None => {
                let mut message = String::from_str("Failed to parse version requirement from: '");
                message.append(version_part.as_str());
                message.append("'");
                proof {
                    reveal_strlit("Failed to parse version requirement from: '");
                    reveal_strlit("'");
                }
                return Err(message);
            },
        }
    } else {
        None
    };
    Ok(RegistryComponentPermission { publisher, name, version })
}

/// Whether a registry argument holds two dots, so that it splits into three parts.
pub fn has_registry_parts(s: &str) -> (r: bool)
    ensures
        r == (registry_split(s@) is Some),
{
    let chars = chars_of(s);
    let n = chars.len();
    let mut i: usize = 0;
    while i < n && chars[i] != '.'
        invariant
            i <= n,
            n == chars@.len(),
            chars@ == s@,
            first_index_from(s@, '.', 0) == first_index_from(s@, '.', i as int),
        decreases n - i,
    {
        i = i + 1;
    }
    if i == n {
        assert(first_index_from(s@, '.', i as int) is None);
        return false;
    }
    assert(first_index_from(s@, '.', i as int) == Some(i as int));
    let mut j: usize = i + 1;
    while j < n && chars[j] != '.'
        invariant
            i < j <= n,
            n == chars@.len(),
            chars@ == s@,
            first_index_from(s@, '.', i + 1) == first_index_from(s@, '.', j as int),
        decreases n - j,
    {
        j = j + 1;
    }
    if j == n {
        assert(first_index_from(s@, '.', j as int) is None);
        return false;
    }
    assert(first_index_from(s@, '.', j as int) == Some(j as int));
    true
}

/// Parses a registry argument as `parse_registry_component_permission` does, or gives
/// nothing where the argument holds fewer than two dots.
pub fn parse_registry_component_permission_checked(s: &str) -> (r: Option<
    Result<RegistryComponentPermission, String>,
>)
    ensures
        match r {
            None => registry_split(s@) is None,
            Some(Ok(p)) => registry_permission_of(s@, p),
            Some(Err(message)) => {
                &&& registry_split(s@) is Some
                &&& !version_part_valid(registry_split(s@).unwrap().2)
                &&& message@ == version_error_message(registry_split(s@).unwrap().2)
            },
        },
{
    if has_registry_parts(s) {
        Some(parse_registry_component_permission(s))
    } else {
        None
    }
}

/// The registry permission that allows or denies any registry component.
pub open spec fn any_registry_permission() -> Permission {
    Permission::RegistryComponent(
        RegistryComponentPermission { publisher: None, name: None, version: None },
    )
}

/// The views of a list of strings.
pub open spec fn views(v: Seq<String>) -> Seq<Seq<char>> {
    Seq::new(v.len(), |i: int| v[i]@)
}

/// A registry argument that splits and whose version requirement, if any, parses.
pub open spec fn registry_item_valid(t: Seq<char>) -> bool {
    match registry_split(t) {
        None => false,
        Some((_, _, version)) => version_part_valid(version),
    }
}

/// Arguments are parsed in order and parsing stops at the first one whose version does
/// not parse; each argument reached must hold two dots.
pub open spec fn registry_items_parseable(items: Seq<Seq<char>>) -> bool {
    forall|k: int|
        0 <= k < items.len() && (forall|j: int| 0 <= j < k ==> registry_item_valid(#[trigger] items[j]))
            ==> (#[trigger] registry_split(items[k])) is Some
}

/// The first argument whose version requirement does not parse.
pub open spec fn is_first_invalid_registry_item(items: Seq<Seq<char>>, k: int) -> bool {
    &&& 0 <= k < items.len()
    &&& !registry_item_valid(items[k])
    &&& forall|j: int| 0 <= j < k ==> registry_item_valid(#[trigger] items[j])
}

/// `entries` are, one for one, the permissions that `items` stand for.
pub open spec fn registry_entries(entries: Seq<Permission>, items: Seq<Seq<char>>) -> bool {
    &&& entries.len() == items.len()
    &&& forall|k: int|
        0 <= k < items.len() ==> (#[trigger] entries[k] matches Permission::RegistryComponent(p)
            && registry_permission_of(items[k], p))
}

/// `added` is what one side of the registry arguments adds: "any", then one permission
/// per argument.
pub open spec fn registry_side(added: Seq<Permission>, any: bool, items: Seq<Seq<char>>) -> bool {
    if any {
        added.len() >= 1 && added[0] == any_registry_permission() && registry_entries(
            added.drop_first(),
            items,
        )
    } else {
        registry_entries(added, items)
    }
}

fn push_registry_entries(list: &mut Vec<Permission>, items: Vec<String>) -> (r: Result<(), String>)
    requires
        registry_items_parseable(views(items@)),
    ensures
        final(list)@.len() >= old(list)@.len(),
        final(list)@.subrange(0, old(list)@.len() as int) == old(list)@,
        match r {
            Ok(()) => {
                &&& forall|k: int| 0 <= k < items@.len() ==> registry_item_valid(#[trigger] views(items@)[k])
                &&& registry_entries(final(list)@.skip(old(list)@.len() as int), views(items@))
            },
            Err(message) => exists|k: int|
                #[trigger] is_first_invalid_registry_item(views(items@), k) && message@
                    == version_error_message(registry_split(views(items@)[k]).unwrap().2)
                    && registry_entries(
                    final(list)@.skip(old(list)@.len() as int),
                    views(items@).take(k),
                ),
        },
{
    let ghost start = list@;
    let ghost all = views(items@);
    assert(all.len() == items@.len());
    let mut remaining = items;
    while remaining.len() > 0
        invariant
            start == old(list)@,
            all == views(items@),
            remaining@.len() <= all.len(),
            views(remaining@) == all.skip(all.len() - remaining@.len()),
            registry_items_parseable(all),
            list@.len() >= start.len(),
            list@.subrange(0, start.len() as int) == start,
            forall|j: int| 0 <= j < all.len() - remaining@.len() ==> registry_item_valid(#[trigger] all[j]),
            registry_entries(list@.skip(start.len() as int), all.take(all.len() - remaining@.len())),
        decreases remaining@.len(),
    {
        let ghost done = (all.len() - remaining@.len()) as int;
        let ghost before = list@;
        let ghost items_before = remaining@;
        let item = remaining.remove(0);
        assert(item == items_before[0]);
        assert(remaining@ =~= items_before.subrange(1, items_before.len() as int));
        assert forall|i: int| 0 <= i < remaining@.len() implies #[trigger] views(remaining@)[i] == all.skip(done + 1)[i] by {
            assert(views(remaining@)[i] == remaining@[i]@);
            assert(remaining@[i] == items_before[i + 1]);
            assert(views(items_before)[i + 1] == all.skip(done)[i + 1]);
        }
        assert(views(remaining@) =~= all.skip(done + 1));
        assert(views(items_before)[0] == items_before[0]@);
        assert(views(items_before)[0] == all.skip(done)[0]);
        assert(item@ == all[done]);
        match parse_registry_component_permission(item.as_str()) {
            Ok(p) => {
                list.push(Permission::RegistryComponent(p));
                assert(list@.skip(start.len() as int) =~= before.skip(start.len() as int).push(
                    Permission::RegistryComponent(p),
                ));
                assert(all.take(done + 1) =~= all.take(done).push(all[done]));
                assert(list@.subrange(0, start.len() as int) =~= start);
            },
            Err(message) => {
                assert(is_first_invalid_registry_item(all, done));
                assert(message@ == version_error_message(registry_split(all[done]).unwrap().2));
                assert(registry_entries(list@.skip(start.len() as int), all.take(done)));
                assert(is_first_invalid_registry_item(views(items@), done));
                return Err(message);
            },
        }
    }
    assert(all.take(all.len() as int) =~= all);
    assert(forall|k: int| 0 <= k < all.len() ==> registry_item_valid(#[trigger] all[k]));
    Ok(())
}

proof fn lemma_parseable_split(a: Seq<Seq<char>>, b: Seq<Seq<char>>)
    requires
        registry_items_parseable(a + b),
    ensures
        registry_items_parseable(a),
        (forall|k: int| 0 <= k < a.len() ==> registry_item_valid(#[trigger] a[k]))
            ==> registry_items_parseable(b),
{
    assert forall|k: int|
        0 <= k < a.len() && (forall|j: int| 0 <= j < k ==> registry_item_valid(#[trigger] a[j]))
            implies (#[trigger] registry_split(a[k])) is Some by {
        assert(forall|j: int| 0 <= j < k ==> (a + b)[j] == a[j]);
        assert((a + b)[k] == a[k]);
        assert(forall|j: int| 0 <= j < k ==> registry_item_valid(#[trigger] (a + b)[j]));
    }
    if forall|k: int| 0 <= k < a.len() ==> registry_item_valid(#[trigger] a[k]) {
        assert forall|k: int|
            0 <= k < b.len() && (forall|j: int| 0 <= j < k ==> registry_item_valid(#[trigger] b[j]))
                implies (#[trigger] registry_split(b[k])) is Some by {
            let kk = a.len() + k;
            assert((a + b)[kk] == b[k]);
            assert forall|j: int| 0 <= j < kk implies registry_item_valid(#[trigger] (a + b)[j]) by {
                if j < a.len() {
                    assert((a + b)[j] == a[j]);
                } else {
                    assert((a + b)[j] == b[j - a.len()]);
                }
            }
        }
    }
}

/// Adds the registry component permissions to the allow and deny lists: "any" first,
/// then each parsed argument. Parsing stops at the first argument (allow side first)
/// whose version requirement does not parse.
pub fn add_registry_component_permissions(
    allow_list: &mut Vec<Permission>,
    deny_list: &mut Vec<Permission>,
    allow_any: bool,
    allow_exact: Vec<String>,
    deny_any: bool,
    deny_exact: Vec<String>,
) -> (r: Result<(), String>)
    requires
        registry_items_parseable(views(allow_exact@) + views(deny_exact@)),
    ensures
        final(allow_list)@.len() >= old(allow_list)@.len(),
        final(allow_list)@.subrange(0, old(allow_list)@.len() as int) == old(allow_list)@,
        final(deny_list)@.len() >= old(deny_list)@.len(),
        final(deny_list)@.subrange(0, old(deny_list)@.len() as int) == old(deny_list)@,
        match r {
            Ok(()) => {
                &&& forall|k: int|
                    0 <= k < allow_exact@.len() + deny_exact@.len() ==> registry_item_valid(
                        #[trigger] (views(allow_exact@) + views(deny_exact@))[k],
                    )
                &&& registry_side(
                    final(allow_list)@.skip(old(allow_list)@.len() as int),
                    allow_any,
                    views(allow_exact@),
                )
                &&& registry_side(
                    final(deny_list)@.skip(old(deny_list)@.len() as int),
                    deny_any,
                    views(deny_exact@),
                )
            },
            Err(message) => exists|k: int|
                #[trigger] is_first_invalid_registry_item(
                    views(allow_exact@) + views(deny_exact@),
                    k,
                ) && message@ == version_error_message(
                    registry_split((views(allow_exact@) + views(deny_exact@))[k]).unwrap().2,
                ),
        },
{
    let ghost a = views(allow_exact@);
    let ghost d = views(deny_exact@);
    let ghost a0 = allow_list@;
    let ghost d0 = deny_list@;
    proof {
        lemma_parseable_split(a, d);
    }
    if allow_any {
        allow_list.push(
            Permission::RegistryComponent(
                RegistryComponentPermission { publisher: None, name: None, version: None },
            ),
        );
    }
    let ghost a1 = allow_list@;
    let allowed = push_registry_entries(allow_list, allow_exact);
    if let Err(message) = allowed {
        proof {
            let k = choose|k: int| #[trigger] is_first_invalid_registry_item(a, k) && message@
                == version_error_message(registry_split(a[k]).unwrap().2) && registry_entries(
                allow_list@.skip(a1.len() as int),
                a.take(k),
            );
            assert((a + d)[k] == a[k]);
            assert(is_first_invalid_registry_item(a + d, k)) by {
                assert forall|j: int| 0 <= j < k implies registry_item_valid(#[trigger] (a + d)[j]) by {
                    assert((a + d)[j] == a[j]);
                }
            }
        }
        assert(allow_list@.subrange(0, a0.len() as int) =~= a0);
        return Err(message);
    }
    assert(allow_list@.subrange(0, a0.len() as int) =~= a0);
    if allow_any {
        assert(allow_list@.skip(a0.len() as int).drop_first() =~= allow_list@.skip(a1.len() as int));
        assert(allow_list@.skip(a0.len() as int)[0] == a1[a0.len() as int]);
    } else {
        assert(allow_list@.skip(a0.len() as int) =~= allow_list@.skip(a1.len() as int));
    }
    if deny_any {
        deny_list.push(
            Permission::RegistryComponent(
                RegistryComponentPermission { publisher: None, name: None, version: None },
            ),
        );
    }
    let ghost d1 = deny_list@;
    let denied = push_registry_entries(deny_list, deny_exact);
    assert(deny_list@.subrange(0, d0.len() as int) =~= d0);
    if let Err(message) = denied {
        proof {
            let k = choose|k: int| #[trigger] is_first_invalid_registry_item(d, k) && message@
                == version_error_message(registry_split(d[k]).unwrap().2) && registry_entries(
                deny_list@.skip(d1.len() as int),
                d.take(k),
            );
            let kk = a.len() + k;
            assert((a + d)[kk] == d[k]);
            assert(is_first_invalid_registry_item(a + d, kk)) by {
                assert forall|j: int| 0 <= j < kk implies registry_item_valid(#[trigger] (a + d)[j]) by {
                    if j < a.len() {
                        assert((a + d)[j] == a[j]);
                    } else {
                        assert((a + d)[j] == d[j - a.len()]);
                    }
                }
            }
        }
        return Err(message);
    }
    if deny_any {
        assert(deny_list@.skip(d0.len() as int).drop_first() =~= deny_list@.skip(d1.len() as int));
        assert(deny_list@.skip(d0.len() as int)[0] == d1[d0.len() as int]);
    } else {
        assert(deny_list@.skip(d0.len() as int) =~= deny_list@.skip(d1.len() as int));
    }
    assert forall|k: int| 0 <= k < allow_exact@.len() + deny_exact@.len() implies registry_item_valid(
        #[trigger] (a + d)[k],
    ) by {
        if k < a.len() {
            assert((a + d)[k] == a[k]);
        } else {
            assert((a + d)[k] == d[k - a.len()]);
        }
    }
    Ok(())
}

/// Arguments over HTTP requests: any, exact URLs, URL prefixes, on both sides.
pub struct HttpPermissionArgs {
    pub allow_http: bool,
    pub allow_http_exact: Vec<url::Url>,
    pub allow_http_prefix: Vec<url::Url>,
    pub deny_http: bool,
    pub deny_http_exact: Vec<url::Url>,
    pub deny_http_prefix: Vec<url::Url>,
}

/// Arguments over fonts: any, exact names, prefixes, suffixes, on both sides.
pub struct FontPermissionArgs {
    pub allow_fonts: bool,
    pub allow_fonts_exact: Vec<String>,
    pub allow_fonts_prefix: Vec<String>,
    pub allow_fonts_suffix: Vec<String>,
    pub deny_fonts: bool,
    pub deny_fonts_exact: Vec<String>,
    pub deny_fonts_prefix: Vec<String>,
    pub deny_fonts_suffix: Vec<String>,
}

/// Arguments over environment variables: any, exact names, prefixes, suffixes, on both sides.
pub struct EnvPermissionArgs {
    pub allow_env: bool,
    pub allow_env_exact: Vec<String>,
    pub allow_env_prefix: Vec<String>,
    pub allow_env_suffix: Vec<String>,
    pub deny_env: bool,
    pub deny_env_exact: Vec<String>,
    pub deny_env_prefix: Vec<String>,
    pub deny_env_suffix: Vec<String>,
}

/// Arguments over HTTP components: any, exact URLs, URL prefixes, on both sides.
pub struct HttpComponentPermissionArgs {
    pub allow_http_components: bool,
    pub allow_http_components_exact: Vec<url::Url>,
    pub allow_http_components_prefix: Vec<url::Url>,
    pub deny_http_components: bool,
    pub deny_http_components_exact: Vec<url::Url>,
    pub deny_http_components_prefix: Vec<url::Url>,
}

/// Arguments over local components: any, or exact names.
pub struct LocalComponentPermissionArgs {
    pub allow_local_components: bool,
    pub allow_local_components_exact: Vec<String>,
    pub deny_local_components: bool,
    pub deny_local_components_exact: Vec<String>,
}

/// Arguments over registry components: any, or `publisher.name.version_spec` texts.
pub struct RegistryComponentPermissionArgs {
    pub allow_registry_components: bool,
    pub allow_registry_components_exact: Vec<String>,
    pub deny_registry_components: bool,
    pub deny_registry_components_exact: Vec<String>,
}

/// All permission arguments of a rig.
pub struct CommonPermissionsArgs {
    pub allow_all: bool,
    pub deny_all: bool,
    pub http: HttpPermissionArgs,
    pub font: FontPermissionArgs,
    pub env: EnvPermissionArgs,
    pub http_components: HttpComponentPermissionArgs,
    pub local_components: LocalComponentPermissionArgs,
    pub registry_components: RegistryComponentPermissionArgs,
}

impl CommonPermissionsArgs {
    /// The allow list up to the registry permissions: all, HTTP, fonts, environment
    /// variables, HTTP components, local components.
    pub open spec fn allow_before_registry(&self) -> Seq<Permission> {
        (if self.allow_all {
            seq![Permission::All]
        } else {
            seq![]
        }) + url_permissions(
            UrlPermissionKind::Http,
            self.http.allow_http,
            self.http.allow_http_exact@,
            self.http.allow_http_prefix@,
        ) + string_permissions(
            StringPermissionKind::Font,
            self.font.allow_fonts,
            self.font.allow_fonts_exact@,
            self.font.allow_fonts_prefix@,
            self.font.allow_fonts_suffix@,
        ) + string_permissions(
            StringPermissionKind::Env,
            self.env.allow_env,
            self.env.allow_env_exact@,
            self.env.allow_env_prefix@,
            self.env.allow_env_suffix@,
        ) + url_permissions(
            UrlPermissionKind::HttpComponent,
            self.http_components.allow_http_components,
            self.http_components.allow_http_components_exact@,
            self.http_components.allow_http_components_prefix@,
        ) + local_component_permissions(
            self.local_components.allow_local_components,
            self.local_components.allow_local_components_exact@,
        )
    }

    /// The deny list up to the registry permissions, in the same order.
    pub open spec fn deny_before_registry(&self) -> Seq<Permission> {
        (if self.deny_all {
            seq![Permission::All]
        } else {
            seq![]
        }) + url_permissions(
            UrlPermissionKind::Http,
            self.http.deny_http,
            self.http.deny_http_exact@,
            self.http.deny_http_prefix@,
        ) + string_permissions(
            StringPermissionKind::Font,
            self.font.deny_fonts,
            self.font.deny_fonts_exact@,
            self.font.deny_fonts_prefix@,
            self.font.deny_fonts_suffix@,
        ) + string_permissions(
            StringPermissionKind::Env,
            self.env.deny_env,
            self.env.deny_env_exact@,
            self.env.deny_env_prefix@,
            self.env.deny_env_suffix@,
        ) + url_permissions(
            UrlPermissionKind::HttpComponent,
            self.http_components.deny_http_components,
            self.http_components.deny_http_components_exact@,
            self.http_components.deny_http_components_prefix@,
        ) + local_component_permissions(
            self.local_components.deny_local_components,
            self.local_components.deny_local_components_exact@,
        )
    }

    /// The registry arguments, allow side first.
    pub open spec fn registry_items(&self) -> Seq<Seq<char>> {
        views(self.registry_components.allow_registry_components_exact@) + views(
            self.registry_components.deny_registry_components_exact@,
        )
    }

    /// Turns the arguments into allow and deny lists. Each list holds, in order: "all",
    /// then the HTTP, font, environment, HTTP component, local component and registry
    /// component permissions, each kind as "any", then its exact, prefix and suffix
    /// entries. Fails, with a message naming it, on the first registry argument whose
    /// version requirement does not parse.
    #[verifier::rlimit(40)]
    pub fn into_permissions(self) -> (r: Result<Permissions, String>)
        requires
            registry_items_parseable(self.registry_items()),
        ensures
            match r {
                Ok(p) => {
                    let m = self.allow_before_registry().len() as int;
                    let n = self.deny_before_registry().len() as int;
                    &&& forall|k: int|
                        0 <= k < self.registry_items().len() ==> registry_item_valid(
                            #[trigger] self.registry_items()[k],
                        )
                    &&& p.allow@.len() >= m
                    &&& p.allow@.take(m) == self.allow_before_registry()
                    &&& registry_side(
                        p.allow@.skip(m),
                        self.registry_components.allow_registry_components,
                        views(self.registry_components.allow_registry_components_exact@),
                    )
                    &&& p.deny@.len() >= n
                    &&& p.deny@.take(n) == self.deny_before_registry()
                    &&& registry_side(
                        p.deny@.skip(n),
                        self.registry_components.deny_registry_components,
                        views(self.registry_components.deny_registry_components_exact@),
                    )
                },
                Err(message) => exists|k: int|
                    #[trigger] is_first_invalid_registry_item(self.registry_items(), k) && message@
                        == version_error_message(
                        registry_split(self.registry_items()[k]).unwrap().2,
                    ),
            },
    {
        let ghost before_allow = self.allow_before_registry();
        let ghost before_deny = self.deny_before_registry();
        let ghost items = self.registry_items();
        let ghost s = self;
        let mut allow: Vec<Permission> = Vec::new();
        let mut deny: Vec<Permission> = Vec::new();
        if self.allow_all {
            allow.push(Permission::All);
        }
        if self.deny_all {
            deny.push(Permission::All);
        }
        let ghost a1 = allow@;
        let ghost d1 = deny@;
        add_url_permissions(
            &mut allow,
            &mut deny,
            UrlPermissionKind::Http,
            self.http.allow_http,
            self.http.allow_http_exact,
            self.http.allow_http_prefix,
            self.http.deny_http,
            self.http.deny_http_exact,
            self.http.deny_http_prefix,
        );
        let ghost a2 = allow@;
        let ghost d2 = deny@;
        add_string_permissions(
            &mut allow,
            &mut deny,
            StringPermissionKind::Font,
            self.font.allow_fonts,
            self.font.allow_fonts_exact,
            self.font.allow_fonts_prefix,
            self.font.allow_fonts_suffix,
            self.font.deny_fonts,
            self.font.deny_fonts_exact,
            self.font.deny_fonts_prefix,
            self.font.deny_fonts_suffix,
        );
        let ghost a3 = allow@;
        let ghost d3 = deny@;
        add_string_permissions(
            &mut allow,
            &mut deny,
            StringPermissionKind::Env,
            self.env.allow_env,
            self.env.allow_env_exact,
            self.env.allow_env_prefix,
            self.env.allow_env_suffix,
            self.env.deny_env,
            self.env.deny_env_exact,
            self.env.deny_env_prefix,
            self.env.deny_env_suffix,
        );
        let ghost a4 = allow@;
        let ghost d4 = deny@;
        add_url_permissions(
            &mut allow,
            &mut deny,
            UrlPermissionKind::HttpComponent,
            self.http_components.allow_http_components,
            self.http_components.allow_http_components_exact,
            self.http_components.allow_http_components_prefix,
            self.http_components.deny_http_components,
            self.http_components.deny_http_components_exact,
            self.http_components.deny_http_components_prefix,
        );
        let ghost a5 = allow@;
        let ghost d5 = deny@;
        add_local_component_permissions(
            &mut allow,
            &mut deny,
            self.local_components.allow_local_components,
            self.local_components.allow_local_components_exact,
            self.local_components.deny_local_components,
            self.local_components.deny_local_components_exact,
        );
        proof {
            assert(a1 == (if s.allow_all { seq![Permission::All] } else { seq![] }));
            assert(d1 == (if s.deny_all { seq![Permission::All] } else { seq![] }));
        }
        assert(allow@ =~= before_allow);
        assert(deny@ =~= before_deny);
        let ghost m = allow@.len() as int;
        let ghost n = deny@.len() as int;
        add_registry_component_permissions(
            &mut allow,
            &mut deny,
            self.registry_components.allow_registry_components,
            self.registry_components.allow_registry_components_exact,
            self.registry_components.deny_registry_components,
            self.registry_components.deny_registry_components_exact,
        )?;
        assert(allow@.take(m) =~= before_allow);
        assert(deny@.take(n) =~= before_deny);
        Ok(Permissions { allow, deny })
    }
}

} // verus!
