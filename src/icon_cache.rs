//! Reference-counted cache of decoded icon images.
//!
//! Each icon path maps to the set of shortcut identifiers that currently
//! display it. Removing a dependency never evicts at once: the path is staged
//! for cleanup and the once-per-frame sweep evicts only paths that no
//! shortcut uses any more.
use vstd::prelude::*;

use crate::text::views;

verus! {

/// The model of the cache: icon path to the identifiers depending on it.
pub type IconDeps = Map<Seq<char>, Set<Seq<char>>>;

/// The identifiers depending on `p`; empty when `p` has no entry.
pub open spec fn users_in(deps: IconDeps, p: Seq<char>) -> Set<Seq<char>> {
    if deps.contains_key(p) {
        deps[p]
    } else {
        Set::empty()
    }
}

/// `deps` after `u` starts depending on `p`.
pub open spec fn with_user(deps: IconDeps, p: Seq<char>, u: Seq<char>) -> IconDeps {
    deps.insert(p, users_in(deps, p).insert(u))
}

/// `deps` after `u` stops depending on `p`; `p` keeps an entry, maybe empty.
pub open spec fn without_user(deps: IconDeps, p: Seq<char>, u: Seq<char>) -> IconDeps {
    deps.insert(p, users_in(deps, p).remove(u))
}

/// No shortcut depends on `p`.
pub open spec fn unused(deps: IconDeps, p: Seq<char>) -> bool {
    users_in(deps, p) == Set::<Seq<char>>::empty()
}

/// The staged paths that a sweep over `deps` evicts, in staging order.
pub open spec fn released(deps: IconDeps, pending: Seq<Seq<char>>) -> Seq<Seq<char>>
    decreases pending.len(),
{
    if pending.len() == 0 {
        Seq::empty()
    } else {
        let rest = released(deps, pending.drop_last());
        if unused(deps, pending.last()) {
            rest.push(pending.last())
        } else {
            rest
        }
    }
}

/// `deps` after a sweep over the staged paths `pending`.
pub open spec fn swept(deps: IconDeps, pending: Seq<Seq<char>>) -> IconDeps {
    deps.remove_keys(Set::new(|p: Seq<char>| pending.contains(p) && unused(deps, p)))
}

/// The set of identifiers a list of strings holds.
pub open spec fn id_set(v: Seq<String>) -> Set<Seq<char>> {
    Set::new(|u: Seq<char>| exists|j: int| 0 <= j < v.len() && #[trigger] v[j]@ == u)
}

struct IconUsers {
    path: String,
    users: Vec<String>,
}

spec fn entry_holds(e: IconUsers, model: IconDeps) -> bool {
    &&& model.contains_key(e.path@)
    &&& model[e.path@] == id_set(e.users@)
    &&& views(e.users@).no_duplicates()
}

spec fn entries_hold(entries: Seq<IconUsers>, model: IconDeps) -> bool {
    &&& forall|i: int| 0 <= i < entries.len() ==> entry_holds(#[trigger] entries[i], model)
    &&& forall|p: Seq<char>|
        #[trigger] model.contains_key(p) ==> exists|i: int|
            0 <= i < entries.len() && #[trigger] entries[i].path@ == p
    &&& forall|i: int, j: int|
        0 <= i < entries.len() && 0 <= j < entries.len() && i != j ==> #[trigger] entries[i].path@
            != #[trigger] entries[j].path@
}

proof fn lemma_entry_replaced(
    entries: Seq<IconUsers>,
    model: IconDeps,
    i: int,
    e: IconUsers,
)
    requires
        entries_hold(entries, model),
        0 <= i < entries.len(),
        e.path@ == entries[i].path@,
        views(e.users@).no_duplicates(),
    ensures
        entries_hold(entries.update(i, e), model.insert(e.path@, id_set(e.users@))),
{
    let new_entries = entries.update(i, e);
    let new_model = model.insert(e.path@, id_set(e.users@));
    assert forall|k: int| 0 <= k < new_entries.len() implies entry_holds(
        #[trigger] new_entries[k],
        new_model,
    ) by {
        if k != i {
            assert(entry_holds(entries[k], model));
            assert(entries[k].path@ != entries[i].path@);
        }
    }
    assert forall|p: Seq<char>| #[trigger] new_model.contains_key(p) implies exists|k: int|
        0 <= k < new_entries.len() && #[trigger] new_entries[k].path@ == p by {
        if p == e.path@ {
            assert(new_entries[i].path@ == p);
        } else {
            assert(model.contains_key(p));
            let k = choose|k: int| 0 <= k < entries.len() && #[trigger] entries[k].path@ == p;
            assert(new_entries[k].path@ == p);
        }
    }
}

proof fn lemma_entry_appended(entries: Seq<IconUsers>, model: IconDeps, e: IconUsers)
    requires
        entries_hold(entries, model),
        !model.contains_key(e.path@),
        views(e.users@).no_duplicates(),
    ensures
        entries_hold(entries.push(e), model.insert(e.path@, id_set(e.users@))),
{
    let new_entries = entries.push(e);
    let new_model = model.insert(e.path@, id_set(e.users@));
    let n = entries.len() as int;
    assert forall|k: int| 0 <= k < new_entries.len() implies entry_holds(
        #[trigger] new_entries[k],
        new_model,
    ) by {
        if k != n {
            assert(entry_holds(entries[k], model));
        }
    }
    assert forall|p: Seq<char>| #[trigger] new_model.contains_key(p) implies exists|k: int|
        0 <= k < new_entries.len() && #[trigger] new_entries[k].path@ == p by {
        if p == e.path@ {
            assert(new_entries[n].path@ == p);
        } else {
            let k = choose|k: int| 0 <= k < entries.len() && #[trigger] entries[k].path@ == p;
            assert(new_entries[k].path@ == p);
        }
    }
    assert forall|a: int, b: int|
        0 <= a < new_entries.len() && 0 <= b < new_entries.len() && a != b implies #[trigger] new_entries[a].path@
            != #[trigger] new_entries[b].path@ by {
        if a == n {
            assert(entry_holds(entries[b], model));
        } else if b == n {
            assert(entry_holds(entries[a], model));
        }
    }
}

proof fn lemma_entry_removed(entries: Seq<IconUsers>, model: IconDeps, k: int)
    requires
        entries_hold(entries, model),
        0 <= k < entries.len(),
    ensures
        entries_hold(entries.remove(k), model.remove(entries[k].path@)),
{
    let new_entries = entries.remove(k);
    let new_model = model.remove(entries[k].path@);
    assert forall|a: int| 0 <= a < new_entries.len() implies entry_holds(
        #[trigger] new_entries[a],
        new_model,
    ) by {
        let b = if a < k {
            a
        } else {
            a + 1
        };
        assert(new_entries[a] == entries[b]);
        assert(entry_holds(entries[b], model));
        assert(entries[b].path@ != entries[k].path@);
    }
    assert forall|p: Seq<char>| #[trigger] new_model.contains_key(p) implies exists|a: int|
        0 <= a < new_entries.len() && #[trigger] new_entries[a].path@ == p by {
        let b = choose|b: int| 0 <= b < entries.len() && #[trigger] entries[b].path@ == p;
        if b < k {
            assert(new_entries[b].path@ == p);
        } else {
            assert(new_entries[b - 1].path@ == p);
        }
    }
    assert forall|a: int, c: int|
        0 <= a < new_entries.len() && 0 <= c < new_entries.len() && a != c implies #[trigger] new_entries[a].path@
            != #[trigger] new_entries[c].path@ by {
        let a1 = if a < k {
            a
        } else {
            a + 1
        };
        let c1 = if c < k {
            c
        } else {
            c + 1
        };
        assert(new_entries[a] == entries[a1]);
        assert(new_entries[c] == entries[c1]);
    }
}

/// A path is among those released exactly when it is staged and unused.
pub proof fn lemma_released_contains(deps: IconDeps, pending: Seq<Seq<char>>, p: Seq<char>)
    ensures
        released(deps, pending).contains(p) <==> pending.contains(p) && unused(deps, p),
    decreases pending.len(),
{
    if pending.len() == 0 {
        assert(!released(deps, pending).contains(p));
    } else {
        let init = pending.drop_last();
        let last = pending.last();
        lemma_released_contains(deps, init, p);
        assert(pending.contains(p) <==> init.contains(p) || last == p) by {
            if init.contains(p) {
                let k = choose|k: int| 0 <= k < init.len() && init[k] == p;
                assert(pending[k] == p);
            }
            if pending.contains(p) && last != p {
                let k = choose|k: int| 0 <= k < pending.len() && pending[k] == p;
                assert(init[k] == p);
            }
            if last == p {
                assert(pending[pending.len() - 1] == p);
            }
        }
        let rest = released(deps, init);
        if unused(deps, last) {
            let r = rest.push(last);
            assert(released(deps, pending) == r);
            assert(r.contains(p) <==> rest.contains(p) || last == p) by {
                if rest.contains(p) {
                    let k = choose|k: int| 0 <= k < rest.len() && rest[k] == p;
                    assert(r[k] == p);
                }
                if r.contains(p) && last != p {
                    let k = choose|k: int| 0 <= k < r.len() && r[k] == p;
                    assert(rest[k] == p);
                }
                if last == p {
                    assert(r[r.len() - 1] == p);
                }
            }
        } else {
            assert(released(deps, pending) == rest);
        }
    }
}

/// The icon cache. Owned by the user-interface thread.
pub struct IconCache {
    entries: Vec<IconUsers>,
    pending: Vec<String>,
    model: Ghost<IconDeps>,
}

impl IconCache {
    /// Which icon paths have an entry, and who depends on each.
    pub closed spec fn deps(&self) -> IconDeps {
        self.model@
    }

    /// The paths staged for cleanup since the last sweep, in staging order.
    pub closed spec fn pending(&self) -> Seq<Seq<char>> {
        views(self.pending@)
    }

    /// The entries hold the model: one entry per path, each identifier once.
    pub closed spec fn wf(&self) -> bool {
        entries_hold(self.entries@, self.model@)
    }

    /// An empty cache with nothing staged.
    pub fn new() -> (r: IconCache)
        ensures
            r.wf(),
            r.deps() == Map::<Seq<char>, Set<Seq<char>>>::empty(),
            r.pending() == Seq::<Seq<char>>::empty(),
    {
        let r = IconCache { entries: Vec::new(), pending: Vec::new(), model: Ghost(Map::empty()) };
        assert(views(r.pending@) =~= Seq::<Seq<char>>::empty());
        r
    }

    fn find(&self, icon_path: &String) -> (r: Option<usize>)
        requires
            self.wf(),
        ensures
            match r {
                Some(i) => i < self.entries.len() && self.entries@[i as int].path@ == icon_path@,
                None => !self.deps().contains_key(icon_path@),
            },
    {
        let mut i: usize = 0;
        while i < self.entries.len()
            invariant
                self.wf(),
                i <= self.entries.len(),
                forall|k: int| 0 <= k < i ==> self.entries@[k].path@ != icon_path@,
            decreases self.entries.len() - i,
        {
            if self.entries[i].path == *icon_path {
                return Some(i);
            }
            i = i + 1;
        }
        None
    }

    /// Records that `entity` displays the icon at `icon_path`, creating the
    /// entry if absent. Registering the same pair again changes nothing.
    pub fn register(&mut self, icon_path: &String, entity: &String)
        requires
            old(self).wf(),
        ensures
            final(self).wf(),
            final(self).deps() == with_user(old(self).deps(), icon_path@, entity@),
            final(self).pending() == old(self).pending(),
    {
        let ghost old_model = self.model@;
        match self.find(icon_path) {
            Some(i) => {
                let mut present = false;
                let mut j: usize = 0;
                while j < self.entries[i].users.len()
                    invariant
                        i < self.entries.len(),
                        j <= self.entries@[i as int].users.len(),
                        present <==> exists|k: int|
                            0 <= k < j && #[trigger] self.entries@[i as int].users@[k]@ == entity@,
                    decreases self.entries@[i as int].users.len() - j,
                {
                    if self.entries[i].users[j] == *entity {
                        present = true;
                    }
                    j = j + 1;
                }
                assert(entry_holds(self.entries@[i as int], old_model));
                if present {
                    assert(id_set(self.entries@[i as int].users@).insert(entity@) =~= id_set(
                        self.entries@[i as int].users@,
                    ));
                    assert(with_user(old_model, icon_path@, entity@) =~= old_model);
                } else {
                    let ghost before = self.entries@[i as int].users@;
                    let ghost old_entries = self.entries@;
                    let mut entry = self.entries.remove(i);
                    entry.users.push(entity.clone());
                    let ghost e = entry;
                    self.entries.insert(i, entry);
                    proof {
                        assert(self.entries@ =~= old_entries.update(i as int, e));
                        assert(entry_holds(old_entries[i as int], old_model));
                        let after = self.entries@[i as int].users@;
                        assert(after == before.push(after.last()));
                        assert(id_set(after) =~= id_set(before).insert(entity@)) by {
                            assert(after[before.len() as int]@ == entity@);
                            assert forall|u: Seq<char>| id_set(after).contains(u) implies id_set(
                                before,
                            ).insert(entity@).contains(u) by {
                                let j = choose|j: int| 0 <= j < after.len() && after[j]@ == u;
                                if j < before.len() {
                                    assert(before[j]@ == u);
                                }
                            }
                            assert forall|u: Seq<char>| id_set(before).insert(
                                entity@,
                            ).contains(u) implies id_set(after).contains(u) by {
                                if u != entity@ {
                                    let j = choose|j: int| 0 <= j < before.len() && before[j]@ == u;
                                    assert(after[j]@ == u);
                                }
                            }
                        }
                        assert(views(after) =~= views(before).push(entity@));
                        assert(!views(before).contains(entity@)) by {
                            if views(before).contains(entity@) {
                                let k = choose|k: int|
                                    0 <= k < views(before).len() && views(before)[k] == entity@;
                                assert(before[k]@ == entity@);
                            }
                        }
                        lemma_entry_replaced(old_entries, old_model, i as int, e);
                        self.model@ = with_user(old_model, icon_path@, entity@);
                    }
                }
            },
            None => {
                let mut users: Vec<String> = Vec::new();
                users.push(entity.clone());
                let ghost old_entries = self.entries@;
                let fresh = IconUsers { path: icon_path.clone(), users };
                let ghost e = fresh;
                self.entries.push(fresh);
                proof {
                    let n = self.entries.len() - 1;
                    assert(id_set(self.entries@[n].users@) =~= Set::<Seq<char>>::empty().insert(
                        entity@,
                    )) by {
                        assert(self.entries@[n].users@[0]@ == entity@);
                    }
                    assert(views(self.entries@[n].users@) =~= seq![entity@]);
                    lemma_entry_appended(old_entries, old_model, e);
                    self.model@ = with_user(old_model, icon_path@, entity@);
                }
            },
        }
    }

    /// Records that `entity` no longer displays the icon at `icon_path`. The
    /// path keeps an entry (an empty one if it had none), so that a later
    /// sweep decides on it; nothing is evicted here.
    pub fn unregister(&mut self, icon_path: &String, entity: &String)
        requires
            old(self).wf(),
        ensures
            final(self).wf(),
            final(self).deps() == without_user(old(self).deps(), icon_path@, entity@),
            final(self).pending() == old(self).pending(),
    {
        let ghost old_model = self.model@;
        match self.find(icon_path) {
            Some(i) => {
                let ghost before = self.entries@[i as int].users@;
                let ghost old_entries = self.entries@;
                proof {
                    assert(entry_holds(old_entries[i as int], old_model));
                }
                let mut entry = self.entries.remove(i);
                let mut kept: Vec<String> = Vec::new();
                let mut j: usize = 0;
                while j < entry.users.len()
                    invariant
                        entry.users@ == before,
                        views(before).no_duplicates(),
                        j <= before.len(),
                        views(kept@).no_duplicates(),
                        id_set(kept@) == id_set(before.subrange(0, j as int)).remove(entity@),
                        forall|k: int| 0 <= k < kept.len() ==> views(before.subrange(0, j as int)).contains(#[trigger] kept@[k]@),
                    decreases before.len() - j,
                {
                    proof {
                        let s0 = before.subrange(0, j as int);
                        let s1 = before.subrange(0, j as int + 1);
                        assert(id_set(s1) =~= id_set(s0).insert(before[j as int]@)) by {
                            assert(s1[j as int] == before[j as int]);
                            assert forall|u: Seq<char>| id_set(s1).contains(u) implies id_set(s0).insert(before[j as int]@).contains(u) by {
                                let k = choose|k: int| 0 <= k < s1.len() && s1[k]@ == u;
                                if k < j { assert(s0[k]@ == u); }
                            }
                            assert forall|u: Seq<char>| id_set(s0).insert(before[j as int]@).contains(u) implies id_set(s1).contains(u) by {
                                if u != before[j as int]@ {
                                    let k = choose|k: int| 0 <= k < s0.len() && s0[k]@ == u;
                                    assert(s1[k]@ == u);
                                }
                            }
                        }
                        assert forall|k: int| 0 <= k < kept.len() implies views(s1).contains(#[trigger] kept@[k]@) by {
                            let m = choose|m: int| 0 <= m < views(s0).len() && views(s0)[m] == kept@[k]@;
                            assert(views(s1)[m] == kept@[k]@);
                        }
                    }
                    if entry.users[j] != *entity {
                        proof {
                            let s0 = before.subrange(0, j as int);
                            assert(!views(kept@).contains(before[j as int]@)) by {
                                if views(kept@).contains(before[j as int]@) {
                                    let k = choose|k: int| 0 <= k < views(kept@).len() && views(kept@)[k] == before[j as int]@;
                                    assert(views(s0).contains(kept@[k]@));
                                    let m = choose|m: int| 0 <= m < views(s0).len() && views(s0)[m] == kept@[k]@;
                                    assert(views(before)[m] == views(before)[j as int]);
                                }
                            }
                        }
                        let ghost kept_before = kept@;
                        kept.push(entry.users[j].clone());
                        proof {
                            let s1 = before.subrange(0, j as int + 1);
                            assert(views(s1)[j as int] == before[j as int]@);
                            assert forall|k: int| 0 <= k < kept.len() implies views(s1).contains(#[trigger] kept@[k]@) by {
                                if k < kept_before.len() {
                                    assert(kept@[k] == kept_before[k]);
                                }
                            }
                            assert(views(kept@) =~= views(kept_before).push(before[j as int]@));
                            assert(id_set(kept@) =~= id_set(kept_before).insert(before[j as int]@)) by {
                                assert(kept@[kept_before.len() as int]@ == before[j as int]@);
                                assert forall|u: Seq<char>| id_set(kept@).contains(u) implies id_set(kept_before).insert(before[j as int]@).contains(u) by {
                                    let k = choose|k: int| 0 <= k < kept@.len() && kept@[k]@ == u;
                                    if k < kept_before.len() { assert(kept_before[k]@ == u); }
                                }
                                assert forall|u: Seq<char>| id_set(kept_before).insert(before[j as int]@).contains(u) implies id_set(kept@).contains(u) by {
                                    if u != before[j as int]@ {
                                        let k = choose|k: int| 0 <= k < kept_before.len() && kept_before[k]@ == u;
                                        assert(kept@[k]@ == u);
                                    }
                                }
                            }
                        }
                    }
                    j = j + 1;
                }
                assert(before.subrange(0, before.len() as int) == before);
                entry.users = kept;
                let ghost e = entry;
                self.entries.insert(i, entry);
                proof {
                    assert(self.entries@ =~= old_entries.update(i as int, e));
                    lemma_entry_replaced(old_entries, old_model, i as int, e);
                    assert(id_set(e.users@) =~= users_in(old_model, icon_path@).remove(entity@));
                    self.model@ = without_user(old_model, icon_path@, entity@);
                }
            },
            None => {
                let ghost old_entries = self.entries@;
                let fresh = IconUsers { path: icon_path.clone(), users: Vec::new() };
                let ghost e = fresh;
                self.entries.push(fresh);
                proof {
                    let n = self.entries.len() - 1;
                    assert(id_set(self.entries@[n].users@) =~= Set::<Seq<char>>::empty());
                    assert(views(self.entries@[n].users@) =~= Seq::<Seq<char>>::empty());
                    lemma_entry_appended(old_entries, old_model, e);
                    assert(Set::<Seq<char>>::empty().remove(entity@) =~= Set::<Seq<char>>::empty());
                    self.model@ = without_user(old_model, icon_path@, entity@);
                }
            },
        }
    }

    /// Stages `icon_path` for the next sweep. Nothing is evicted here: the
    /// current frame may still draw the image.
    pub fn mark_for_cleanup(&mut self, icon_path: String)
        requires
            old(self).wf(),
        ensures
            final(self).wf(),
            final(self).deps() == old(self).deps(),
            final(self).pending() == old(self).pending().push(icon_path@),
    {
        let ghost before = self.pending@;
        self.pending.push(icon_path);
        assert(views(self.pending@) =~= views(before).push(self.pending@.last()@));
    }

    /// The once-per-frame sweep, run after every registration of the frame.
    /// Each staged path that no shortcut uses any more loses its entry and is
    /// returned, in staging order, for the renderer to forget; the others
    /// stay. The staging list is emptied either way.
    pub fn sweep(&mut self) -> (released_paths: Vec<String>)
        requires
            old(self).wf(),
        ensures
            final(self).wf(),
            views(released_paths@) == released(old(self).deps(), old(self).pending()),
            final(self).deps() == swept(old(self).deps(), old(self).pending()),
            final(self).pending() == Seq::<Seq<char>>::empty(),
    {
        let ghost d0 = self.model@;
        let ghost pend = views(self.pending@);
        let ghost pend_vec = self.pending@;
        let mut out: Vec<String> = Vec::new();
        let mut i: usize = 0;
        proof {
            assert(pend.subrange(0, 0) =~= Seq::<Seq<char>>::empty());
            assert(views(out@) =~= Seq::<Seq<char>>::empty());
            assert(swept(d0, Seq::<Seq<char>>::empty()) =~= d0);
        }
        while i < self.pending.len()
            invariant
                self.wf(),
                self.pending@ == pend_vec,
                pend == views(pend_vec),
                i <= pend_vec.len(),
                views(out@) == released(d0, pend.subrange(0, i as int)),
                self.model@ == swept(d0, pend.subrange(0, i as int)),
            decreases pend_vec.len() - i,
        {
            let path = self.pending[i].clone();
            let ghost pre = pend.subrange(0, i as int);
            let ghost post = pend.subrange(0, i as int + 1);
            let ghost cur = self.model@;
            proof {
                assert(path@ == pend[i as int]);
                assert(post.drop_last() =~= pre);
                assert(post.last() == path@);
                assert forall|q: Seq<char>| post.contains(q) <==> pre.contains(q) || q == path@ by {
                    if post.contains(q) && q != path@ {
                        let k = choose|k: int| 0 <= k < post.len() && post[k] == q;
                        assert(pre[k] == q);
                    }
                    if pre.contains(q) {
                        let k = choose|k: int| 0 <= k < pre.len() && pre[k] == q;
                        assert(post[k] == q);
                    }
                    if q == path@ {
                        assert(post[i as int] == q);
                    }
                }
                assert(unused(cur, path@) <==> unused(d0, path@));
            }
            let found = self.find(&path);
            let is_unused = match found {
                None => true,
                Some(k) => {
                    proof {
                        assert(entry_holds(self.entries@[k as int], cur));
                        let us = self.entries@[k as int].users@;
                        if us.len() == 0 {
                            assert(id_set(us) =~= Set::<Seq<char>>::empty());
                        } else {
                            assert(id_set(us).contains(us[0]@));
                        }
                    }
                    self.entries[k].users.len() == 0
                },
            };
            if is_unused {
                if let Some(k) = found {
                    proof {
                        lemma_entry_removed(self.entries@, self.model@, k as int);
                    }
                    self.entries.remove(k);
                }
                proof {
                    self.model@ = cur.remove(path@);
                    assert(swept(d0, post) =~= cur.remove(path@));
                }
                let ghost out_before = out@;
                out.push(path);
                proof {
                    assert(views(out@) =~= views(out_before).push(path@));
                }
            } else {
                proof {
                    assert(swept(d0, post) =~= cur);
                }
            }
            i = i + 1;
        }
        proof {
            assert(pend.subrange(0, pend_vec.len() as int) =~= pend);
        }
        self.pending = Vec::new();
        assert(views(self.pending@) =~= Seq::<Seq<char>>::empty());
        out
    }

    /// How many shortcuts currently depend on `icon_path`; zero when it has
    /// no entry.
    pub fn dependent_count(&self, icon_path: &String) -> (n: usize)
        requires
            self.wf(),
        ensures
            n == users_in(self.deps(), icon_path@).len(),
    {
        match self.find(icon_path) {
            None => {
                assert(users_in(self.deps(), icon_path@) =~= Set::<Seq<char>>::empty());
                0
            },
            Some(k) => {
                proof {
                    assert(entry_holds(self.entries@[k as int], self.model@));
                    lemma_id_set_len(self.entries@[k as int].users@);
                }
                self.entries[k].users.len()
            },
        }
    }

    /// Whether `icon_path` has an entry.
    pub fn is_cached(&self, icon_path: &String) -> (r: bool)
        requires
            self.wf(),
        ensures
            r == self.deps().contains_key(icon_path@),
    {
        match self.find(icon_path) {
            None => false,
            Some(k) => {
                assert(entry_holds(self.entries@[k as int], self.model@));
                true
            },
        }
    }
}

/// A list without repeated identifiers holds as many as its set.
proof fn lemma_id_set_len(v: Seq<String>)
    requires
        views(v).no_duplicates(),
    ensures
        id_set(v).finite(),
        id_set(v).len() == v.len(),
    decreases v.len(),
{
    if v.len() == 0 {
        assert(id_set(v) =~= Set::<Seq<char>>::empty());
    } else {
        let init = v.drop_last();
        assert(views(init) =~= views(v).drop_last());
        lemma_id_set_len(init);
        assert(id_set(v) =~= id_set(init).insert(v.last()@)) by {
            assert forall|u: Seq<char>| id_set(v).contains(u) implies id_set(init).insert(v.last()@).contains(u) by {
                let j = choose|j: int| 0 <= j < v.len() && v[j]@ == u;
                if j < init.len() {
                    assert(init[j]@ == u);
                }
            }
            assert forall|u: Seq<char>| id_set(init).insert(v.last()@).contains(u) implies id_set(v).contains(u) by {
                if u != v.last()@ {
                    let j = choose|j: int| 0 <= j < init.len() && init[j]@ == u;
                    assert(v[j]@ == u);
                } else {
                    assert(v[v.len() - 1]@ == u);
                }
            }
        }
        assert(!id_set(init).contains(v.last()@)) by {
            if id_set(init).contains(v.last()@) {
                let j = choose|j: int| 0 <= j < init.len() && init[j]@ == v.last()@;
                assert(views(v)[j] == views(v)[v.len() - 1]);
            }
        }
    }
}

/// Registering the same icon for the same shortcut twice leaves it depending
/// on the icon once, exactly as after a single registration.
pub proof fn lemma_register_idempotent(deps: IconDeps, p: Seq<char>, u: Seq<char>)
    ensures
        with_user(with_user(deps, p, u), p, u) == with_user(deps, p, u),
        users_in(with_user(deps, p, u), p).contains(u),
{
    assert(users_in(with_user(deps, p, u), p).insert(u) =~= users_in(with_user(deps, p, u), p));
    assert(with_user(with_user(deps, p, u), p, u) =~= with_user(deps, p, u));
}

/// An icon shared by two shortcuts stays cached when one of them lets go of
/// it and the path is swept, and is evicted by the sweep once both have let
/// go of it.
pub proof fn lemma_shared_icon_reference_counting(
    deps: IconDeps,
    p: Seq<char>,
    a: Seq<char>,
    b: Seq<char>,
    pending: Seq<Seq<char>>,
)
    requires
        users_in(deps, p) == set![a, b],
        a != b,
        pending.contains(p),
    ensures
        ({
            let one_left = without_user(deps, p, a);
            let none_left = without_user(one_left, p, b);
            &&& !released(one_left, pending).contains(p)
            &&& swept(one_left, pending).contains_key(p)
            &&& users_in(swept(one_left, pending), p) == set![b]
            &&& released(none_left, pending).contains(p)
            &&& !swept(none_left, pending).contains_key(p)
        }),
{
    let one_left = without_user(deps, p, a);
    let none_left = without_user(one_left, p, b);
    assert(users_in(one_left, p) =~= set![b]);
    assert(users_in(one_left, p).contains(b));
    assert(users_in(none_left, p) =~= Set::<Seq<char>>::empty());
    lemma_released_contains(one_left, pending, p);
    lemma_released_contains(none_left, pending, p);
}

} // verus!
