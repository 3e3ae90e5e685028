//! Plugin registry: a bidirectional index from plugin url to the handlers
//! interested in it (built once, at configuration time) and from live plugin
//! instance id to the handlers recorded for that instance (populated on an
//! added event, consulted on value events, deleted on a removed event).
//!
//! The registry is modelled as a pair of finite maps; the entry for an
//! instance id is deleted when the instance is removed, so a later instance
//! that reuses the id sees no stale fan-out.

use vstd::prelude::*;

verus! {

/// Mathematical model of the registry: url to interested handler indices,
/// and live instance id to recorded handler indices.
#[verifier::ext_equal]
pub ghost struct RegistryModel {
    pub urls: Map<Seq<char>, Seq<usize>>,
    pub ids: Map<i32, Seq<usize>>,
}

/// The handler indices a map holds for a key, and the empty sequence for a
/// key that is absent: an unknown key fans out to no handlers.
pub open spec fn fanout_of<K>(m: Map<K, Seq<usize>>, k: K) -> Seq<usize> {
    if m.dom().contains(k) {
        m[k]
    } else {
        Seq::empty()
    }
}

/// The handlers interested in a plugin url.
pub open spec fn url_fanout(m: RegistryModel, url: Seq<char>) -> Seq<usize> {
    fanout_of(m.urls, url)
}

/// The handlers recorded for a live plugin instance.
pub open spec fn id_fanout(m: RegistryModel, id: i32) -> Seq<usize> {
    fanout_of(m.ids, id)
}

/// The registry after an added event: when the url has interested handlers,
/// they are appended to the instance's recorded handlers (creating the entry
/// when absent); an unknown url changes nothing.
pub open spec fn spec_added(m: RegistryModel, id: i32, url: Seq<char>) -> RegistryModel {
    if url_fanout(m, url).len() > 0 {
        RegistryModel { urls: m.urls, ids: m.ids.insert(id, id_fanout(m, id) + url_fanout(m, url)) }
    } else {
        m
    }
}

/// The registry after a removed event: the instance's entry is deleted, so a
/// reused id fans out to no handlers until a fresh added event.
pub open spec fn spec_removed(m: RegistryModel, id: i32) -> RegistryModel {
    RegistryModel { urls: m.urls, ids: m.ids.remove(id) }
}

/// Whether one of the given urls reads as `u`.
pub open spec fn url_listed(urls: Seq<String>, u: Seq<char>) -> bool {
    exists|i: int| 0 <= i < urls.len() && urls[i]@ == u
}

/// Every handler index the registry holds, under any url and any instance
/// id, is below `n`: with `n` the number of registered handlers, every
/// recorded index names a real handler.
pub open spec fn indices_bounded(m: RegistryModel, n: int) -> bool {
    &&& forall|u: Seq<char>, j: int|
        #![trigger url_fanout(m, u)[j]]
        0 <= j < url_fanout(m, u).len() ==> url_fanout(m, u)[j] < n
    &&& forall|k: i32, j: int|
        #![trigger id_fanout(m, k)[j]]
        0 <= j < id_fanout(m, k).len() ==> id_fanout(m, k)[j] < n
}

spec fn url_keys_distinct(s: Seq<(String, Vec<usize>)>) -> bool {
    forall|i: int, j: int| 0 <= i < j < s.len() ==> s[i].0@ != s[j].0@
}

spec fn id_keys_distinct(s: Seq<(i32, Vec<usize>)>) -> bool {
    forall|i: int, j: int| 0 <= i < j < s.len() ==> s[i].0 != s[j].0
}

spec fn url_lists_nonempty(s: Seq<(String, Vec<usize>)>) -> bool {
    forall|i: int| 0 <= i < s.len() ==> s[i].1@.len() > 0
}

spec fn id_lists_nonempty(s: Seq<(i32, Vec<usize>)>) -> bool {
    forall|i: int| 0 <= i < s.len() ==> s[i].1@.len() > 0
}

spec fn url_has_key(s: Seq<(String, Vec<usize>)>, u: Seq<char>) -> bool {
    exists|i: int| 0 <= i < s.len() && s[i].0@ == u
}

spec fn id_has_key(s: Seq<(i32, Vec<usize>)>, k: i32) -> bool {
    exists|i: int| 0 <= i < s.len() && s[i].0 == k
}

spec fn url_index(s: Seq<(String, Vec<usize>)>, u: Seq<char>) -> int {
    choose|i: int| 0 <= i < s.len() && s[i].0@ == u
}

spec fn id_index(s: Seq<(i32, Vec<usize>)>, k: i32) -> int {
    choose|i: int| 0 <= i < s.len() && s[i].0 == k
}

spec fn vec_url_fanout(s: Seq<(String, Vec<usize>)>, u: Seq<char>) -> Seq<usize> {
    if url_has_key(s, u) {
        s[url_index(s, u)].1@
    } else {
        Seq::empty()
    }
}

spec fn vec_id_fanout(s: Seq<(i32, Vec<usize>)>, k: i32) -> Seq<usize> {
    if id_has_key(s, k) {
        s[id_index(s, k)].1@
    } else {
        Seq::empty()
    }
}

spec fn urls_model(s: Seq<(String, Vec<usize>)>) -> Map<Seq<char>, Seq<usize>> {
    Map::new(|u: Seq<char>| url_has_key(s, u), |u: Seq<char>| vec_url_fanout(s, u))
}

spec fn ids_model(s: Seq<(i32, Vec<usize>)>) -> Map<i32, Seq<usize>> {
    Map::new(|k: i32| id_has_key(s, k), |k: i32| vec_id_fanout(s, k))
}

proof fn lemma_url_index(s: Seq<(String, Vec<usize>)>, i: int)
    requires
        url_keys_distinct(s),
        0 <= i < s.len(),
    ensures
        url_index(s, s[i].0@) == i,
{
    let u = s[i].0@;
    assert(url_has_key(s, u));
    let j = url_index(s, u);
    assert(0 <= j < s.len() && s[j].0@ == u);
    if i < j {
        assert(s[i].0@ != s[j].0@);
    } else if j < i {
        assert(s[j].0@ != s[i].0@);
    }
}

proof fn lemma_id_index(s: Seq<(i32, Vec<usize>)>, i: int)
    requires
        id_keys_distinct(s),
        0 <= i < s.len(),
    ensures
        id_index(s, s[i].0) == i,
{
    let k = s[i].0;
    assert(id_has_key(s, k));
    let j = id_index(s, k);
    assert(0 <= j < s.len() && s[j].0 == k);
    if i < j {
        assert(s[i].0 != s[j].0);
    } else if j < i {
        assert(s[j].0 != s[i].0);
    }
}

proof fn lemma_url_fanout_agree(s: Seq<(String, Vec<usize>)>, u: Seq<char>)
    ensures
        fanout_of(urls_model(s), u) == vec_url_fanout(s, u),
{
    if url_has_key(s, u) {
        assert(urls_model(s).dom().contains(u));
        assert(urls_model(s)[u] == vec_url_fanout(s, u));
    } else {
        assert(!urls_model(s).dom().contains(u));
    }
}

proof fn lemma_id_fanout_agree(s: Seq<(i32, Vec<usize>)>, k: i32)
    ensures
        fanout_of(ids_model(s), k) == vec_id_fanout(s, k),
{
    if id_has_key(s, k) {
        assert(ids_model(s).dom().contains(k));
        assert(ids_model(s)[k] == vec_id_fanout(s, k));
    } else {
        assert(!ids_model(s).dom().contains(k));
    }
}

/// The registry itself. The two indices are association lists with pairwise
/// distinct keys; their mathematical value is the pair of maps in
/// [`RegistryModel`].
pub struct Registry {
    urls: Vec<(String, Vec<usize>)>,
    ids: Vec<(i32, Vec<usize>)>,
}

impl View for Registry {
    type V = RegistryModel;

    closed spec fn view(&self) -> RegistryModel {
        RegistryModel { urls: urls_model(self.urls@), ids: ids_model(self.ids@) }
    }
}

fn find_url(urls: &Vec<(String, Vec<usize>)>, url: &String) -> (r: Option<usize>)
    ensures
        r matches Some(i) ==> i < urls@.len() && urls@[i as int].0@ == url@,
        r is None ==> !url_has_key(urls@, url@),
{
    let mut i: usize = 0;
    while i < urls.len()
        invariant
            i <= urls@.len(),
            forall|j: int| 0 <= j < i ==> urls@[j].0@ != url@,
        decreases urls@.len() - i,
    {
        if urls[i].0 == *url {
            return Some(i);
        }
        i = i + 1;
    }
    None
}

fn find_id(ids: &Vec<(i32, Vec<usize>)>, id: i32) -> (r: Option<usize>)
    ensures
        r matches Some(i) ==> i < ids@.len() && ids@[i as int].0 == id,
        r is None ==> !id_has_key(ids@, id),
{
    let mut i: usize = 0;
    while i < ids.len()
        invariant
            i <= ids@.len(),
            forall|j: int| 0 <= j < i ==> ids@[j].0 != id,
        decreases ids@.len() - i,
    {
        if ids[i].0 == id {
            return Some(i);
        }
        i = i + 1;
    }
    None
}

fn copy_indices(v: &Vec<usize>) -> (r: Vec<usize>)
    ensures
        r@ == v@,
{
    let mut r: Vec<usize> = Vec::new();
    let mut i: usize = 0;
    while i < v.len()
        invariant
            i <= v@.len(),
            r@ == v@.take(i as int),
        decreases v@.len() - i,
    {
        r.push(v[i]);
        proof {
            assert(r@ =~= v@.take(i as int + 1));
        }
        i = i + 1;
    }
    proof {
        assert(v@.take(v@.len() as int) =~= v@);
    }
    r
}

/// Append `handler_idx` to the interested-handler list of `url`, creating
/// the list when the url is new.
fn url_append(urls: &mut Vec<(String, Vec<usize>)>, url: &String, handler_idx: usize)
    requires
        url_keys_distinct(old(urls)@),
        url_lists_nonempty(old(urls)@),
    ensures
        url_keys_distinct(final(urls)@),
        url_lists_nonempty(final(urls)@),
        forall|u: Seq<char>| url_has_key(final(urls)@, u) == (url_has_key(old(urls)@, u) || u == url@),
        forall|u: Seq<char>|
            #![trigger vec_url_fanout(final(urls)@, u)]
            vec_url_fanout(final(urls)@, u) == (if u == url@ {
                vec_url_fanout(old(urls)@, u).push(handler_idx)
            } else {
                vec_url_fanout(old(urls)@, u)
            }),
{
    let ghost s = urls@;
    match find_url(urls, url) {
        Some(i) => {
            let (key, mut list) = urls.remove(i);
            list.push(handler_idx);
            urls.insert(i, (key, list));
            proof {
                let s2 = urls@;
                assert(s2 =~= s.update(i as int, (s[i as int].0, s2[i as int].1)));
                assert(forall|j: int| 0 <= j < s2.len() ==> s2[j].0@ == s[j].0@);
                assert(url_keys_distinct(s2));
                assert forall|u: Seq<char>|
                    url_has_key(s2, u) == (url_has_key(s, u) || u == url@) by {
                    if url_has_key(s, u) {
                        let w = choose|w: int| 0 <= w < s.len() && s[w].0@ == u;
                        assert(s2[w].0@ == u);
                        assert(url_has_key(s2, u));
                    }
                    if url_has_key(s2, u) {
                        let w = choose|w: int| 0 <= w < s2.len() && s2[w].0@ == u;
                        assert(s[w].0@ == u);
                        assert(url_has_key(s, u));
                    }
                    assert(s[i as int].0@ == url@);
                }
                assert forall|u: Seq<char>|
                    #![trigger vec_url_fanout(s2, u)]
                    vec_url_fanout(s2, u) == (if u == url@ {
                        vec_url_fanout(s, u).push(handler_idx)
                    } else {
                        vec_url_fanout(s, u)
                    }) by {
                    if u == url@ {
                        lemma_url_index(s, i as int);
                        lemma_url_index(s2, i as int);
                        assert(vec_url_fanout(s2, u) == s2[i as int].1@);
                        assert(vec_url_fanout(s, u) == s[i as int].1@);
                    } else {
                        if url_has_key(s, u) {
                            let w = url_index(s, u);
                            assert(0 <= w < s.len() && s[w].0@ == u);
                            assert(w != i);
                            lemma_url_index(s, w);
                            lemma_url_index(s2, w);
                            assert(s2[w].0@ == u);
                            assert(vec_url_fanout(s2, u) == s2[w].1@);
                            assert(s2[w].1@ == s[w].1@);
                        } else {
                            assert(!url_has_key(s2, u));
                        }
                    }
                }
            }
        },
        None => {
            let mut list: Vec<usize> = Vec::new();
            list.push(handler_idx);
            urls.push((url.clone(), list));
            proof {
                let s2 = urls@;
                let n = s.len() as int;
                assert(s2 =~= s.push((s2[n].0, s2[n].1)));
                assert(s2[n].0@ == url@);
                assert(forall|j: int| 0 <= j < n ==> s2[j] == s[j]);
                assert forall|i: int, j: int| 0 <= i < j < s2.len() implies s2[i].0@ != s2[j].0@ by {
                    if j < n {
                        assert(s[i].0@ != s[j].0@);
                    } else {
                        assert(s2[i].0@ == s[i].0@);
                        assert(!url_has_key(s, url@));
                    }
                }
                assert forall|u: Seq<char>|
                    url_has_key(s2, u) == (url_has_key(s, u) || u == url@) by {
                    if url_has_key(s, u) {
                        let w = choose|w: int| 0 <= w < s.len() && s[w].0@ == u;
                        assert(s2[w].0@ == u);
                    }
                    if u == url@ {
                        assert(s2[n].0@ == u);
                    }
                    if url_has_key(s2, u) {
                        let w = choose|w: int| 0 <= w < s2.len() && s2[w].0@ == u;
                        if w < n {
                            assert(s[w].0@ == u);
                        } else {
                            assert(u == url@);
                        }
                    }
                }
                assert forall|u: Seq<char>|
                    #![trigger vec_url_fanout(s2, u)]
                    vec_url_fanout(s2, u) == (if u == url@ {
                        vec_url_fanout(s, u).push(handler_idx)
                    } else {
                        vec_url_fanout(s, u)
                    }) by {
                    if u == url@ {
                        lemma_url_index(s2, n);
                        assert(!url_has_key(s, u));
                        assert(vec_url_fanout(s2, u) == s2[n].1@);
                        assert(s2[n].1@ =~= Seq::<usize>::empty().push(handler_idx));
                    } else {
                        if url_has_key(s, u) {
                            let w = url_index(s, u);
                            assert(0 <= w < s.len() && s[w].0@ == u);
                            lemma_url_index(s, w);
                            lemma_url_index(s2, w);
                            assert(s2[w].0@ == u);
                            assert(vec_url_fanout(s2, u) == s2[w].1@);
                        } else {
                            assert(!url_has_key(s2, u));
                        }
                    }
                }
            }
        },
    }
}

/// Append the handler indices in `add` to the instance list of `id`,
/// creating the entry when the id is new.
fn id_append(ids: &mut Vec<(i32, Vec<usize>)>, id: i32, add: &Vec<usize>)
    requires
        id_keys_distinct(old(ids)@),
        id_lists_nonempty(old(ids)@),
        add@.len() > 0,
    ensures
        id_keys_distinct(final(ids)@),
        id_lists_nonempty(final(ids)@),
        forall|k: i32| id_has_key(final(ids)@, k) == (id_has_key(old(ids)@, k) || k == id),
        forall|k: i32|
            #![trigger vec_id_fanout(final(ids)@, k)]
            vec_id_fanout(final(ids)@, k) == (if k == id {
                vec_id_fanout(old(ids)@, k) + add@
            } else {
                vec_id_fanout(old(ids)@, k)
            }),
{
    let ghost s = ids@;
    match find_id(ids, id) {
        Some(i) => {
            let (key, mut list) = ids.remove(i);
            let mut extra = copy_indices(add);
            list.append(&mut extra);
            ids.insert(i, (key, list));
            proof {
                let s2 = ids@;
                assert(s2 =~= s.update(i as int, (s[i as int].0, s2[i as int].1)));
                assert(forall|j: int| 0 <= j < s2.len() ==> s2[j].0 == s[j].0);
                assert(id_keys_distinct(s2));
                assert forall|k: i32| id_has_key(s2, k) == (id_has_key(s, k) || k == id) by {
                    if id_has_key(s, k) {
                        let w = choose|w: int| 0 <= w < s.len() && s[w].0 == k;
                        assert(s2[w].0 == k);
                    }
                    if id_has_key(s2, k) {
                        let w = choose|w: int| 0 <= w < s2.len() && s2[w].0 == k;
                        assert(s[w].0 == k);
                    }
                    assert(s[i as int].0 == id);
                }
                assert forall|k: i32|
                    #![trigger vec_id_fanout(s2, k)]
                    vec_id_fanout(s2, k) == (if k == id {
                        vec_id_fanout(s, k) + add@
                    } else {
                        vec_id_fanout(s, k)
                    }) by {
                    if k == id {
                        lemma_id_index(s, i as int);
                        lemma_id_index(s2, i as int);
                        assert(vec_id_fanout(s2, k) == s2[i as int].1@);
                        assert(vec_id_fanout(s, k) == s[i as int].1@);
                    } else {
                        if id_has_key(s, k) {
                            let w = id_index(s, k);
                            assert(0 <= w < s.len() && s[w].0 == k);
                            assert(w != i);
                            lemma_id_index(s, w);
                            lemma_id_index(s2, w);
                            assert(s2[w].0 == k);
                            assert(vec_id_fanout(s2, k) == s2[w].1@);
                            assert(s2[w].1@ == s[w].1@);
                        } else {
                            assert(!id_has_key(s2, k));
                        }
                    }
                }
            }
        },
        None => {
            ids.push((id, copy_indices(add)));
            proof {
                let s2 = ids@;
                let n = s.len() as int;
                assert(s2 =~= s.push((s2[n].0, s2[n].1)));
                assert(s2[n].0 == id);
                assert(forall|j: int| 0 <= j < n ==> s2[j] == s[j]);
                assert forall|i: int, j: int| 0 <= i < j < s2.len() implies s2[i].0 != s2[j].0 by {
                    if j < n {
                        assert(s[i].0 != s[j].0);
                    } else {
                        assert(s2[i].0 == s[i].0);
                        assert(!id_has_key(s, id));
                    }
                }
                assert forall|k: i32| id_has_key(s2, k) == (id_has_key(s, k) || k == id) by {
                    if id_has_key(s, k) {
                        let w = choose|w: int| 0 <= w < s.len() && s[w].0 == k;
                        assert(s2[w].0 == k);
                    }
                    if k == id {
                        assert(s2[n].0 == k);
                    }
                    if id_has_key(s2, k) {
                        let w = choose|w: int| 0 <= w < s2.len() && s2[w].0 == k;
                        if w < n {
                            assert(s[w].0 == k);
                        } else {
                            assert(k == id);
                        }
                    }
                }
                assert forall|k: i32|
                    #![trigger vec_id_fanout(s2, k)]
                    vec_id_fanout(s2, k) == (if k == id {
                        vec_id_fanout(s, k) + add@
                    } else {
                        vec_id_fanout(s, k)
                    }) by {
                    if k == id {
                        lemma_id_index(s2, n);
                        assert(!id_has_key(s, k));
                        assert(vec_id_fanout(s2, k) == s2[n].1@);
                        assert(s2[n].1@ =~= Seq::<usize>::empty() + add@);
                    } else {
                        if id_has_key(s, k) {
                            let w = id_index(s, k);
                            assert(0 <= w < s.len() && s[w].0 == k);
                            lemma_id_index(s, w);
                            lemma_id_index(s2, w);
                            assert(s2[w].0 == k);
                            assert(vec_id_fanout(s2, k) == s2[w].1@);
                        } else {
                            assert(!id_has_key(s2, k));
                        }
                    }
                }
            }
        },
    }
}

impl Registry {
    /// Well-formedness: each index maps a key at most once.
    pub closed spec fn wf(&self) -> bool {
        &&& url_keys_distinct(self.urls@)
        &&& id_keys_distinct(self.ids@)
        &&& url_lists_nonempty(self.urls@)
        &&& id_lists_nonempty(self.ids@)
    }

    /// An empty registry: no urls, no live instances.
    pub fn new() -> (r: Registry)
        ensures
            r.wf(),
            r@.urls == Map::<Seq<char>, Seq<usize>>::empty(),
            r@.ids == Map::<i32, Seq<usize>>::empty(),
    {
        let r = Registry { urls: Vec::new(), ids: Vec::new() };
        proof {
            assert(urls_model(r.urls@) =~= Map::<Seq<char>, Seq<usize>>::empty());
            assert(ids_model(r.ids@) =~= Map::<i32, Seq<usize>>::empty());
        }
        r
    }

    /// Record, once per handler at configuration time, that the handler with
    /// index `handler_idx` is interested in each of the given urls.
    pub fn register_handler_urls(&mut self, handler_idx: usize, urls: &Vec<String>)
        requires
            old(self).wf(),
            forall|i: int, j: int| 0 <= i < j < urls@.len() ==> urls@[i]@ != urls@[j]@,
        ensures
            final(self).wf(),
            final(self)@.ids == old(self)@.ids,
            forall|u: Seq<char>|
                #![trigger url_fanout(final(self)@, u)]
                url_fanout(final(self)@, u) == (if url_listed(urls@, u) {
                    url_fanout(old(self)@, u).push(handler_idx)
                } else {
                    url_fanout(old(self)@, u)
                }),
    {
        let mut k: usize = 0;
        while k < urls.len()
            invariant
                self.wf(),
                self.ids == old(self).ids,
                forall|i: int, j: int| 0 <= i < j < urls@.len() ==> urls@[i]@ != urls@[j]@,
                k <= urls@.len(),
                forall|u: Seq<char>|
                    #![trigger vec_url_fanout(self.urls@, u)]
                    vec_url_fanout(self.urls@, u) == (if url_listed(urls@.take(k as int), u) {
                        vec_url_fanout(old(self).urls@, u).push(handler_idx)
                    } else {
                        vec_url_fanout(old(self).urls@, u)
                    }),
            decreases urls@.len() - k,
        {
            let ghost before = self.urls@;
            url_append(&mut self.urls, &urls[k], handler_idx);
            proof {
                assert forall|u: Seq<char>|
                    #![trigger vec_url_fanout(self.urls@, u)]
                    vec_url_fanout(self.urls@, u) == (if url_listed(urls@.take(k as int + 1), u) {
                        vec_url_fanout(old(self).urls@, u).push(handler_idx)
                    } else {
                        vec_url_fanout(old(self).urls@, u)
                    }) by {
                    let t0 = urls@.take(k as int);
                    let t1 = urls@.take(k as int + 1);
                    assert(t1 =~= t0.push(urls@[k as int]));
                    if u == urls@[k as int]@ {
                        assert(!url_listed(t0, u)) by {
                            if url_listed(t0, u) {
                                let w = choose|w: int| 0 <= w < t0.len() && t0[w]@ == u;
                                assert(urls@[w]@ == urls@[k as int]@);
                            }
                        }
                        assert(url_listed(t1, u)) by {
                            assert(t1[k as int]@ == u);
                        }
                    } else {
                        assert(url_listed(t1, u) == url_listed(t0, u)) by {
                            if url_listed(t1, u) {
                                let w = choose|w: int| 0 <= w < t1.len() && t1[w]@ == u;
                                assert(w < k as int);
                                assert(t0[w]@ == u);
                            }
                            if url_listed(t0, u) {
                                let w = choose|w: int| 0 <= w < t0.len() && t0[w]@ == u;
                                assert(t1[w]@ == u);
                            }
                        }
                    }
                }
            }
            k = k + 1;
        }
        proof {
            assert(urls@.take(urls@.len() as int) =~= urls@);
            assert forall|u: Seq<char>|
                #![trigger url_fanout(self@, u)]
                url_fanout(self@, u) == (if url_listed(urls@, u) {
                    url_fanout(old(self)@, u).push(handler_idx)
                } else {
                    url_fanout(old(self)@, u)
                }) by {
                lemma_url_fanout_agree(self.urls@, u);
                lemma_url_fanout_agree(old(self).urls@, u);
            }
            assert(self@.ids == old(self)@.ids);
        }
    }

    /// An added event: return the handlers interested in the url, recording
    /// each of them for the instance id. An unknown url fans out to no
    /// handlers and changes nothing.
    pub fn on_added(&mut self, id: i32, url: &String) -> (hs: Vec<usize>)
        requires
            old(self).wf(),
        ensures
            final(self).wf(),
            hs@ == url_fanout(old(self)@, url@),
            final(self)@ == spec_added(old(self)@, id, url@),
            hs@.len() == 0 ==> *final(self) == *old(self),
    {
        proof {
            lemma_url_fanout_agree(self.urls@, url@);
        }
        let hs = match find_url(&self.urls, url) {
            Some(i) => {
                proof {
                    lemma_url_index(self.urls@, i as int);
                }
                copy_indices(&self.urls[i].1)
            },
            None => Vec::new(),
        };
        if hs.len() > 0 {
            let ghost before = self.ids@;
            id_append(&mut self.ids, id, &hs);
            proof {
                assert(ids_model(self.ids@) =~= ids_model(before).insert(
                    id,
                    vec_id_fanout(before, id) + hs@,
                )) by {
                    lemma_id_fanout_agree(before, id);
                    assert forall|k: i32|
                        ids_model(self.ids@).dom().contains(k) == ids_model(before).insert(
                            id,
                            vec_id_fanout(before, id) + hs@,
                        ).dom().contains(k) by {
                        assert(id_has_key(self.ids@, k) == (id_has_key(before, k) || k == id));
                    }
                    assert forall|k: i32| ids_model(self.ids@).dom().contains(k) implies ids_model(
                        self.ids@,
                    )[k] == ids_model(before).insert(id, vec_id_fanout(before, id) + hs@)[k] by {
                        assert(vec_id_fanout(self.ids@, k) == (if k == id {
                            vec_id_fanout(before, k) + hs@
                        } else {
                            vec_id_fanout(before, k)
                        }));
                    }
                }
                lemma_id_fanout_agree(before, id);
                assert(self@ =~= spec_added(old(self)@, id, url@));
            }
        } else {
            proof {
                assert(self@ =~= spec_added(old(self)@, id, url@));
            }
        }
        hs
    }

    /// A removed event: return the handlers recorded for the instance and
    /// delete its entry. An unknown id fans out to no handlers.
    pub fn on_removed(&mut self, id: i32) -> (hs: Vec<usize>)
        requires
            old(self).wf(),
        ensures
            final(self).wf(),
            hs@ == id_fanout(old(self)@, id),
            final(self)@ == spec_removed(old(self)@, id),
            hs@.len() == 0 ==> *final(self) == *old(self),
    {
        proof {
            lemma_id_fanout_agree(self.ids@, id);
        }
        match find_id(&self.ids, id) {
            Some(i) => {
                proof {
                    lemma_id_index(self.ids@, i as int);
                }
                let ghost s = self.ids@;
                let (key, list) = self.ids.remove(i);
                proof {
                    let s2 = self.ids@;
                    assert forall|a: int, b: int| 0 <= a < b < s2.len() implies s2[a].0
                        != s2[b].0 by {
                        let a0 = if a < i as int {
                            a
                        } else {
                            a + 1
                        };
                        let b0 = if b < i as int {
                            b
                        } else {
                            b + 1
                        };
                        assert(s2[a] == s[a0]);
                        assert(s2[b] == s[b0]);
                        assert(s[a0].0 != s[b0].0);
                    }
                    assert forall|k: i32| id_has_key(s2, k) == (id_has_key(s, k) && k != s[i as int].0)
                        by {
                        if id_has_key(s2, k) {
                            let w = choose|w: int| 0 <= w < s2.len() && s2[w].0 == k;
                            let w0 = if w < i as int {
                                w
                            } else {
                                w + 1
                            };
                            assert(s2[w] == s[w0]);
                            assert(s[w0].0 == k);
                            assert(id_has_key(s, k));
                            lemma_id_index(s, w0);
                            lemma_id_index(s, i as int);
                            assert(w0 != i as int);
                            assert(k != s[i as int].0);
                        }
                        if id_has_key(s, k) && k != s[i as int].0 {
                            let w = choose|w: int| 0 <= w < s.len() && s[w].0 == k;
                            assert(w != i as int);
                            let w2 = if w < i as int {
                                w
                            } else {
                                w - 1
                            };
                            assert(s2[w2] == s[w]);
                            assert(id_has_key(s2, k));
                        }
                    }
                    assert forall|k: i32|
                        #![trigger vec_id_fanout(s2, k)]
                        id_has_key(s2, k) implies vec_id_fanout(s2, k) == vec_id_fanout(s, k) by {
                        let w = id_index(s2, k);
                        assert(0 <= w < s2.len() && s2[w].0 == k);
                        let w0 = if w < i as int {
                            w
                        } else {
                            w + 1
                        };
                        assert(s2[w] == s[w0]);
                        lemma_id_index(s, w0);
                        assert(vec_id_fanout(s, k) == s[w0].1@);
                        assert(vec_id_fanout(s2, k) == s2[w].1@);
                    }
                    assert(ids_model(s2) =~= ids_model(s).remove(id)) by {
                        assert forall|k: i32|
                            ids_model(s2).dom().contains(k) == ids_model(s).remove(
                                id,
                            ).dom().contains(k) by {
                            assert(id_has_key(s2, k) == (id_has_key(s, k) && k != id));
                        }
                        assert forall|k: i32| ids_model(s2).dom().contains(k) implies ids_model(
                            s2,
                        )[k] == ids_model(s).remove(id)[k] by {
                            assert(vec_id_fanout(s2, k) == vec_id_fanout(s, k));
                        }
                    }
                    assert(self@ =~= spec_removed(old(self)@, id));
                }
                list
            },
            None => {
                proof {
                    assert(ids_model(self.ids@) =~= ids_model(self.ids@).remove(id));
                    assert(self@ =~= spec_removed(old(self)@, id));
                }
                Vec::new()
            },
        }
    }

    /// A value event: the handlers recorded for the instance, read-only. An
    /// unknown id fans out to no handlers.
    pub fn on_param_or_value(&self, id: i32) -> (hs: Vec<usize>)
        requires
            self.wf(),
        ensures
            hs@ == id_fanout(self@, id),
    {
        proof {
            lemma_id_fanout_agree(self.ids@, id);
        }
        match find_id(&self.ids, id) {
            Some(i) => {
                proof {
                    lemma_id_index(self.ids@, i as int);
                }
                copy_indices(&self.ids[i].1)
            },
            None => Vec::new(),
        }
    }
}

/// An added event stores only indices the registry already held under some
/// url, so a bound on every recorded index survives it.
pub proof fn lemma_added_bounded(m: RegistryModel, id: i32, url: Seq<char>, n: int)
    requires
        indices_bounded(m, n),
    ensures
        indices_bounded(spec_added(m, id, url), n),
{
    let m1 = spec_added(m, id, url);
    if url_fanout(m, url).len() > 0 {
        assert forall|u: Seq<char>, j: int|
            #![trigger url_fanout(m1, u)[j]]
            0 <= j < url_fanout(m1, u).len() implies url_fanout(m1, u)[j] < n by {
            assert(url_fanout(m1, u) == url_fanout(m, u));
        }
        assert forall|k: i32, j: int|
            #![trigger id_fanout(m1, k)[j]]
            0 <= j < id_fanout(m1, k).len() implies id_fanout(m1, k)[j] < n by {
            if k == id {
                assert(id_fanout(m1, k) == id_fanout(m, id) + url_fanout(m, url));
                if j < id_fanout(m, id).len() {
                    assert(id_fanout(m1, k)[j] == id_fanout(m, id)[j]);
                } else {
                    assert(id_fanout(m1, k)[j] == url_fanout(m, url)[j - id_fanout(
                        m,
                        id,
                    ).len()]);
                }
            } else {
                assert(id_fanout(m1, k) == id_fanout(m, k));
            }
        }
    }
}

/// A removed event only deletes an entry, so a bound on every recorded
/// index survives it.
pub proof fn lemma_removed_bounded(m: RegistryModel, id: i32, n: int)
    requires
        indices_bounded(m, n),
    ensures
        indices_bounded(spec_removed(m, id), n),
{
    let m1 = spec_removed(m, id);
    assert forall|u: Seq<char>, j: int|
        #![trigger url_fanout(m1, u)[j]]
        0 <= j < url_fanout(m1, u).len() implies url_fanout(m1, u)[j] < n by {
        assert(url_fanout(m1, u) == url_fanout(m, u));
    }
    assert forall|k: i32, j: int|
        #![trigger id_fanout(m1, k)[j]]
        0 <= j < id_fanout(m1, k).len() implies id_fanout(m1, k)[j] < n by {
        if k == id {
            assert(!m.ids.remove(id).dom().contains(id));
            assert(id_fanout(m1, k).len() == 0);
        } else {
            assert(id_fanout(m1, k) == id_fanout(m, k));
        }
    }
}

/// Fan-out keys off the instance's recorded handlers: an instance id first
/// seen by an added event is afterwards dispatched to exactly the handlers
/// that were interested in its url at that moment, whatever the url maps to
/// later.
pub proof fn lemma_fanout_follows_added(m: RegistryModel, id: i32, url: Seq<char>)
    requires
        !m.ids.dom().contains(id),
    ensures
        id_fanout(spec_added(m, id, url), id) == url_fanout(m, url),
{
    if url_fanout(m, url).len() > 0 {
        assert(id_fanout(m, id) == Seq::<usize>::empty());
        assert(Seq::<usize>::empty() + url_fanout(m, url) =~= url_fanout(m, url));
        assert(spec_added(m, id, url).ids.dom().contains(id));
    } else {
        assert(url_fanout(m, url) =~= Seq::<usize>::empty());
        assert(id_fanout(spec_added(m, id, url), id) == Seq::<usize>::empty());
    }
}

} // verus!
