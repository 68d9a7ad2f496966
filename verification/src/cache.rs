//! Keys and bookkeeping of the response cache.

use vstd::prelude::*;

use crate::text::{cat, free_of};

verus! {

/// The key under which a response is stored.
#[derive(Debug, Clone, PartialEq, Eq)]
pub struct CacheKey {
    /// Whose responses these are: the host.
    pub namespace: String,
    /// The method and the path with its query.
    pub primary: String,
    /// Nothing: responses are not kept apart by user.
    pub user_tag: String,
}

/// What a key holds.
pub struct CacheKeyView {
    /// Whose responses these are.
    pub namespace: Seq<char>,
    /// The method and the path with its query.
    pub primary: Seq<char>,
    /// Nothing.
    pub user_tag: Seq<char>,
}

impl View for CacheKey {
    type V = CacheKeyView;

    open spec fn view(&self) -> CacheKeyView {
        CacheKeyView {
            namespace: self.namespace@,
            primary: self.primary@,
            user_tag: self.user_tag@,
        }
    }
}

/// The key of a request.
pub open spec fn key_of(method: Seq<char>, host: Seq<char>, path_and_query: Seq<char>) -> CacheKeyView {
    CacheKeyView {
        namespace: host,
        primary: method + " "@ + path_and_query,
        user_tag: Seq::empty(),
    }
}

/// The key of a request. Storing and purging go by the same key.
pub fn cache_key(method: &str, host: &str, path_and_query: &str) -> (r: CacheKey)
    ensures
        r@ == key_of(method@, host@, path_and_query@),
{
    let mut primary = cat(method, " ");
    primary.append(path_and_query);
    let user_tag = String::new();
    assert(user_tag@ =~= Seq::<char>::empty());
    CacheKey { namespace: host.to_owned(), primary, user_tag }
}

/// Requests with the same key have the same method, host and path. A method holds no space.
pub proof fn a_key_stands_for_one_request(
    method: Seq<char>,
    host: Seq<char>,
    path: Seq<char>,
    other_method: Seq<char>,
    other_host: Seq<char>,
    other_path: Seq<char>,
)
    requires
        free_of(method, ' '),
        free_of(other_method, ' '),
        key_of(method, host, path) == key_of(other_method, other_host, other_path),
    ensures
        method == other_method,
        host == other_host,
        path == other_path,
{
    reveal_strlit(" ");
    let a = method + " "@ + path;
    let b = other_method + " "@ + other_path;
    assert(a == b);
    assert(a[method.len() as int] == ' ');
    assert(b[other_method.len() as int] == ' ');
    if method.len() < other_method.len() {
        assert(b[method.len() as int] == other_method[method.len() as int]);
        assert(false);
    }
    if other_method.len() < method.len() {
        assert(a[other_method.len() as int] == method[other_method.len() as int]);
        assert(false);
    }
    assert(method =~= a.take(method.len() as int));
    assert(other_method =~= b.take(method.len() as int));
    assert(path =~= a.skip(method.len() as int + 1));
    assert(other_path =~= b.skip(method.len() as int + 1));
}

/// The key of the entry that a purge removes: the stored answer to `GET`.
pub fn purge_key(host: &str, path: &str) -> (r: CacheKey)
    ensures
        r@ == key_of("GET"@, host@, path@),
{
    cache_key("GET", host, path)
}

/// A purge goes by the key under which the answer to the `GET` request was stored.
pub proof fn purge_meets_what_was_stored(
    method: Seq<char>,
    host: Seq<char>,
    path: Seq<char>,
    purged_host: Seq<char>,
    purged_path: Seq<char>,
)
    requires
        free_of(method, ' '),
    ensures
        key_of(method, host, path) == key_of("GET"@, purged_host, purged_path) <==> method
            == "GET"@ && host == purged_host && path == purged_path,
{
    reveal_strlit("GET");
    if key_of(method, host, path) == key_of("GET"@, purged_host, purged_path) {
        assert(free_of("GET"@, ' '));
        a_key_stands_for_one_request(method, host, path, "GET"@, purged_host, purged_path);
    }
}

/// What a purge came to. The storage says whether it removed an entry, or fails.
pub fn purge_outcome(reply: Result<bool, ()>) -> (r: (bool, &'static str))
    ensures
        r.0 == (reply == Ok::<bool, ()>(true)),
        r.1@ == if r.0 {
            "hit"@
        } else {
            "miss"@
        },
{
    match reply {
        Ok(true) => (true, "hit"),
        _ => (false, "miss"),
    }
}

/// How far the counter of evictions goes up, where `current` is the manager's count and `previous`
/// what it was at the last look.
pub fn eviction_delta(current: u64, previous: u64) -> (r: u64)
    ensures
        r == if current >= previous {
            current - previous
        } else {
            0
        },
{
    match current.checked_sub(previous) {
        Some(delta) => delta,
        None => 0,
    }
}

/// What has been counted after all looks at the manager's count.
pub open spec fn counted(looks: Seq<u64>) -> int
    decreases looks.len(),
{
    if looks.len() == 0 {
        0
    } else {
        let previous = if looks.len() == 1 {
            0
        } else {
            looks[looks.len() - 2] as int
        };
        let current = looks.last() as int;
        counted(looks.drop_last()) + if current >= previous {
            current - previous
        } else {
            0
        }
    }
}

/// As long as the manager's count never falls, the counter shows that very count.
pub proof fn evictions_are_counted_once(looks: Seq<u64>)
    requires
        looks.len() > 0,
        forall|i: int, j: int| 0 <= i <= j < looks.len() ==> looks[i] <= looks[j],
    ensures
        counted(looks) == looks.last(),
    decreases looks.len(),
{
    if looks.len() > 1 {
        let front = looks.drop_last();
        evictions_are_counted_once(front);
        assert(looks[looks.len() - 2] <= looks[looks.len() - 1]);
    } else {
        assert(counted(looks.drop_last()) == 0);
    }
}

/// A cached answer is kept under the host, and there under the method and the path; nothing of a
/// user goes into the key.
pub proof fn cache_key_is_made_of_host_method_and_path(
    method: Seq<char>,
    host: Seq<char>,
    path: Seq<char>,
)
    ensures
        ({
            let k = key_of(method, host, path);
            &&& k.namespace == host
            &&& k.user_tag.len() == 0
            &&& k.primary.len() == method.len() + 1 + path.len()
            &&& k.primary.take(method.len() as int) == method
            &&& k.primary[method.len() as int] == ' '
            &&& k.primary.skip(method.len() as int + 1) == path
        }),
{
    reveal_strlit(" ");
    let k = key_of(method, host, path);
    assert(" "@.len() == 1 && " "@[0] == ' ');
    assert(k.primary.take(method.len() as int) =~= method);
    assert(k.primary.skip(method.len() as int + 1) =~= path);
}

} // verus!
