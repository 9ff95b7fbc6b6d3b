use vstd::prelude::*;

verus! {

/// Resource identities whose teardown has started, each with the time, in
/// milliseconds, until which it is not selected again.
pub struct DedupTracker {
    entries: Vec<(String, i64)>,
}

/// Some entry of `s` is for `uid`.
pub open spec fn has_uid(s: Seq<(String, i64)>, uid: Seq<char>) -> bool {
    exists|i: int| 0 <= i < s.len() && #[trigger] s[i].0@ == uid
}

/// No two entries of `s` are for the same identity.
pub open spec fn unique_uids(s: Seq<(String, i64)>) -> bool {
    forall|i: int, j: int| 0 <= i < j < s.len() ==> s[i].0@ != s[j].0@
}

/// The entries of `s` as a map from identity to expiry.
pub open spec fn entries_map(s: Seq<(String, i64)>) -> Map<Seq<char>, i64> {
    Map::new(
        |uid: Seq<char>| has_uid(s, uid),
        |uid: Seq<char>| s[choose|i: int| 0 <= i < s.len() && s[i].0@ == uid].1,
    )
}

/// Recording `uid` with `expiry` keeps an entry that is already there.
pub open spec fn record_view(m: Map<Seq<char>, i64>, uid: Seq<char>, expiry: i64) -> Map<
    Seq<char>,
    i64,
> {
    if m.contains_key(uid) {
        m
    } else {
        m.insert(uid, expiry)
    }
}

/// Pruning at `now` drops the entries whose expiry is before `now`.
pub open spec fn prune_view(m: Map<Seq<char>, i64>, now: i64) -> Map<Seq<char>, i64> {
    Map::new(|uid: Seq<char>| m.contains_key(uid) && now <= m[uid], |uid: Seq<char>| m[uid])
}

proof fn lemma_entry_value(s: Seq<(String, i64)>, i: int)
    requires
        unique_uids(s),
        0 <= i < s.len(),
    ensures
        entries_map(s).contains_key(s[i].0@),
        entries_map(s)[s[i].0@] == s[i].1,
{
    let uid = s[i].0@;
    assert(has_uid(s, uid));
    let j = choose|j: int| 0 <= j < s.len() && s[j].0@ == uid;
    if j < i {
        assert(s[j].0@ != s[i].0@);
    } else if i < j {
        assert(s[i].0@ != s[j].0@);
    }
}

fn copy_entries(s: &Vec<(String, i64)>) -> (r: Vec<(String, i64)>)
    ensures
        r@ == s@,
{
    let mut r: Vec<(String, i64)> = Vec::new();
    let mut i: usize = 0;
    while i < s.len()
        invariant
            i <= s.len(),
            r@ == s@.subrange(0, i as int),
        decreases s.len() - i,
    {
        r.push((s[i].0.clone(), s[i].1));
        i = i + 1;
        assert(r@ =~= s@.subrange(0, i as int));
    }
    assert(s@.subrange(0, s.len() as int) =~= s@);
    r
}

impl View for DedupTracker {
    type V = Map<Seq<char>, i64>;

    closed spec fn view(&self) -> Map<Seq<char>, i64> {
        entries_map(self.entries@)
    }
}

impl DedupTracker {
    #[verifier::type_invariant]
    spec fn inv(&self) -> bool {
        unique_uids(self.entries@)
    }

    /// A tracker with no entries.
    pub fn new() -> (r: DedupTracker)
        ensures
            r@ == Map::<Seq<char>, i64>::empty(),
    {
        let r = DedupTracker { entries: Vec::new() };
        assert(r@ =~= Map::<Seq<char>, i64>::empty());
        r
    }

    /// Whether `uid` has an entry.
    pub fn contains(&self, uid: &String) -> (r: bool)
        ensures
            r == self@.contains_key(uid@),
    {
        let mut i: usize = 0;
        while i < self.entries.len()
            invariant
                i <= self.entries.len(),
                forall|j: int| 0 <= j < i ==> self.entries@[j].0@ != uid@,
            decreases self.entries.len() - i,
        {
            if self.entries[i].0 == *uid {
                assert(has_uid(self.entries@, uid@));
                return true;
            }
            i = i + 1;
        }
        false
    }

    /// Records `uid` with `expiry`, unless it has an entry already.
    pub fn record(&mut self, uid: String, expiry: i64)
        ensures
            final(self)@ == record_view(old(self)@, uid@, expiry),
    {
        proof {
            use_type_invariant(&*self);
        }
        if self.contains(&uid) {
            return;
        }
        let ghost s = self.entries@;
        let ghost key = uid@;
        let mut entries = copy_entries(&self.entries);
        entries.push((uid, expiry));
        proof {
            let t = entries@;
            assert(unique_uids(t));
            assert forall|k: Seq<char>|
                #![auto]
                has_uid(t, k) == (has_uid(s, k) || k == key) by {
                if has_uid(t, k) {
                    let i = choose|i: int| 0 <= i < t.len() && t[i].0@ == k;
                    if i < s.len() {
                        assert(s[i].0@ == k);
                    }
                }
                if has_uid(s, k) {
                    let i = choose|i: int| 0 <= i < s.len() && s[i].0@ == k;
                    assert(t[i].0@ == k);
                }
                if k == key {
                    assert(t[s.len() as int].0@ == k);
                }
            }
            assert forall|k: Seq<char>| #![auto] has_uid(t, k) implies entries_map(t)[k] == (
            if k == key {
                expiry
            } else {
                entries_map(s)[k]
            }) by {
                let i = choose|i: int| 0 <= i < t.len() && t[i].0@ == k;
                lemma_entry_value(t, i);
                if i < s.len() {
                    lemma_entry_value(s, i);
                }
            }
            assert(entries_map(t) =~= entries_map(s).insert(key, expiry));
        }
        self.entries = entries;
    }

    /// Drops the entries whose expiry is before `now`.
    pub fn prune(&mut self, now: i64)
        ensures
            final(self)@ == prune_view(old(self)@, now),
    {
        proof {
            use_type_invariant(&*self);
        }
        let ghost s = self.entries@;
        let mut kept: Vec<(String, i64)> = Vec::new();
        let ghost mut from: Seq<int> = Seq::empty();
        let mut i: usize = 0;
        while i < self.entries.len()
            invariant
                s == self.entries@,
                unique_uids(s),
                i <= s.len(),
                from.len() == kept@.len(),
                forall|j: int| 0 <= j < from.len() ==> 0 <= #[trigger] from[j] < i,
                forall|j: int, l: int| 0 <= j < l < from.len() ==> from[j] < from[l],
                forall|j: int|
                    0 <= j < from.len() ==> kept@[j] == s[#[trigger] from[j]] && now <= s[from[j]].1,
                forall|l: int|
                    0 <= l < i && now <= #[trigger] s[l].1 ==> exists|j: int|
                        0 <= j < from.len() && from[j] == l,
            decreases s.len() - i,
        {
            let expiry = self.entries[i].1;
            let ghost old_from = from;
            if now <= expiry {
                let uid = self.entries[i].0.clone();
                kept.push((uid, expiry));
                proof {
                    from = from.push(i as int);
                }
                assert(kept@[from.len() - 1] == s[i as int]);
            }
            proof {
                assert forall|l: int| 0 <= l < i + 1 && now <= #[trigger] s[l].1 implies exists|
                    j: int,
                | 0 <= j < from.len() && from[j] == l by {
                    if l < i {
                        let j = choose|j: int| 0 <= j < old_from.len() && old_from[j] == l;
                        assert(from[j] == l);
                    } else {
                        assert(from[from.len() - 1] == l);
                    }
                }
            }
            i = i + 1;
        }
        proof {
            let t = kept@;
            assert(unique_uids(t)) by {
                assert forall|j: int, l: int| 0 <= j < l < t.len() implies t[j].0@ != t[l].0@ by {
                    assert(from[j] < from[l]);
                }
            }
            let m = entries_map(s);
            assert forall|k: Seq<char>| #![auto] has_uid(t, k) == (m.contains_key(k) && now <= m[k]) by {
                if has_uid(t, k) {
                    let j = choose|j: int| 0 <= j < t.len() && t[j].0@ == k;
                    lemma_entry_value(s, from[j]);
                }
                if m.contains_key(k) && now <= m[k] {
                    let l = choose|l: int| 0 <= l < s.len() && s[l].0@ == k;
                    lemma_entry_value(s, l);
                    let j = choose|j: int| 0 <= j < from.len() && from[j] == l;
                    assert(t[j].0@ == k);
                }
            }
            assert forall|k: Seq<char>| #![auto] has_uid(t, k) implies entries_map(t)[k] == m[k] by {
                let j = choose|j: int| 0 <= j < t.len() && t[j].0@ == k;
                lemma_entry_value(t, j);
                lemma_entry_value(s, from[j]);
            }
            assert(entries_map(t) =~= prune_view(m, now));
        }
        self.entries = kept;
    }
}

} // verus!
