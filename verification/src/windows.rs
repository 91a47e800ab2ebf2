//! The registry of a manager's windows, by label.
use vstd::prelude::*;
use vstd::string::*;

verus! {

/// The windows of a manager, each under its label; no label occurs twice.
pub struct WindowRegistry<W> {
    entries: Vec<(String, W)>,
}

/// The labels of the entries are pairwise distinct.
pub open spec fn labels_distinct<W>(s: Seq<(String, W)>) -> bool {
    forall|i: int, j: int| 0 <= i < s.len() && 0 <= j < s.len() && i != j ==> #[trigger] s[i].0@ != #[trigger] s[j].0@
}

/// Whether some entry has this label.
pub open spec fn has_label<W>(s: Seq<(String, W)>, label: Seq<char>) -> bool {
    exists|i: int| 0 <= i < s.len() && #[trigger] s[i].0@ == label
}

/// The index of the entry with this label.
pub open spec fn index_of<W>(s: Seq<(String, W)>, label: Seq<char>) -> int {
    choose|i: int| 0 <= i < s.len() && #[trigger] s[i].0@ == label
}

/// The map from labels to windows that the entries hold.
pub open spec fn entries_map<W>(s: Seq<(String, W)>) -> Map<Seq<char>, W> {
    Map::new(|label: Seq<char>| has_label(s, label), |label: Seq<char>| s[index_of(s, label)].1)
}

/// With distinct labels, the entry that has a label is the one `index_of` picks.
proof fn lemma_index_of<W>(s: Seq<(String, W)>, i: int)
    requires
        labels_distinct(s),
        0 <= i < s.len(),
    ensures
        has_label(s, s[i].0@),
        index_of(s, s[i].0@) == i,
{
    assert(has_label(s, s[i].0@));
    let j = index_of(s, s[i].0@);
    assert(s[j].0@ == s[i].0@);
}

impl<W> View for WindowRegistry<W> {
    type V = Map<Seq<char>, W>;

    closed spec fn view(&self) -> Map<Seq<char>, W> {
        entries_map(self.entries@)
    }
}

impl<W> WindowRegistry<W> {
    /// The registry is well formed: no label occurs twice.
    pub closed spec fn wf(&self) -> bool {
        labels_distinct(self.entries@)
    }

    /// The registry with no window.
    pub(crate) fn new() -> (r: Self)
        ensures
            r.wf(),
            r@ == Map::<Seq<char>, W>::empty(),
    {
        let r = WindowRegistry { entries: Vec::new() };
        proof {
            assert(r@ =~= Map::<Seq<char>, W>::empty());
        }
        r
    }

    /// The position of the entry with this label, if there is one.
    fn find(&self, label: &str) -> (r: Option<usize>)
        requires
            self.wf(),
        ensures
            match r {
                Some(i) => i < self.entries@.len() && self.entries@[i as int].0@ == label@,
                None => !has_label(self.entries@, label@),
            },
    {
        let target = String::from_str(label);
        let mut i: usize = 0;
        while i < self.entries.len()
            invariant
                i <= self.entries@.len(),
                target@ == label@,
                forall|j: int| 0 <= j < i ==> #[trigger] self.entries@[j].0@ != label@,
            decreases self.entries@.len() - i,
        {
            if self.entries[i].0.eq(&target) {
                return Some(i);
            }
            i = i + 1;
        }
        None
    }

    /// Puts `window` under `label`, in place of any window that had the label.
    pub(crate) fn insert(&mut self, label: String, window: W)
        requires
            old(self).wf(),
        ensures
            final(self).wf(),
            final(self)@ == old(self)@.insert(label@, window),
    {
        let ghost old_entries = self.entries@;
        let ghost l = label@;
        match self.find(label.as_str()) {
            Some(k) => {
                self.entries.set(k, (label, window));
                proof {
                    let s = self.entries@;
                    assert(labels_distinct(s)) by {
                        assert forall|i: int, j: int| 0 <= i < s.len() && 0 <= j < s.len() && i != j
                            implies #[trigger] s[i].0@ != #[trigger] s[j].0@ by {
                            if i != k && j != k {
                                assert(s[i] == old_entries[i] && s[j] == old_entries[j]);
                            } else if i == k {
                                assert(s[j] == old_entries[j]);
                                assert(old_entries[k as int].0@ == l);
                            } else {
                                assert(s[i] == old_entries[i]);
                                assert(old_entries[k as int].0@ == l);
                            }
                        }
                    }
                    assert forall|x: Seq<char>| #[trigger] has_label(s, x) == has_label(old_entries, x) by {
                        if has_label(s, x) {
                            let i = choose|i: int| 0 <= i < s.len() && #[trigger] s[i].0@ == x;
                            if i != k {
                                assert(old_entries[i] == s[i]);
                            } else {
                                assert(old_entries[k as int].0@ == x);
                            }
                        }
                        if has_label(old_entries, x) {
                            let i = choose|i: int| 0 <= i < old_entries.len() && #[trigger] old_entries[i].0@ == x;
                            if i != k {
                                assert(old_entries[i] == s[i]);
                            } else {
                                assert(s[k as int].0@ == x);
                            }
                        }
                    }
                    assert forall|x: Seq<char>| has_label(s, x) implies #[trigger] s[index_of(s, x)].1
                        == old(self)@.insert(l, window)[x] by {
                        let i = index_of(s, x);
                        lemma_index_of(s, i);
                        if i == k {
                            assert(x == l);
                        } else {
                            assert(s[i] == old_entries[i]);
                            lemma_index_of(old_entries, i);
                            assert(x != l) by {
                                lemma_index_of(s, k as int);
                            }
                        }
                    }
                    assert(self@ =~= old(self)@.insert(l, window));
                }
            },
            None => {
                self.entries.push((label, window));
                proof {
                    let s = self.entries@;
                    let n = old_entries.len() as int;
                    assert(labels_distinct(s)) by {
                        assert forall|i: int, j: int| 0 <= i < s.len() && 0 <= j < s.len() && i != j
                            implies #[trigger] s[i].0@ != #[trigger] s[j].0@ by {
                            if i < n && j < n {
                                assert(s[i] == old_entries[i] && s[j] == old_entries[j]);
                            } else if i < n {
                                assert(s[i] == old_entries[i]);
                            } else {
                                assert(s[j] == old_entries[j]);
                            }
                        }
                    }
                    assert forall|x: Seq<char>| #[trigger] has_label(s, x) == (has_label(old_entries, x) || x == l) by {
                        if has_label(s, x) {
                            let i = choose|i: int| 0 <= i < s.len() && #[trigger] s[i].0@ == x;
                            if i < n {
                                assert(old_entries[i] == s[i]);
                            }
                        }
                        if has_label(old_entries, x) {
                            let i = choose|i: int| 0 <= i < old_entries.len() && #[trigger] old_entries[i].0@ == x;
                            assert(old_entries[i] == s[i]);
                        }
                        if x == l {
                            assert(s[n].0@ == x);
                        }
                    }
                    assert forall|x: Seq<char>| has_label(s, x) implies #[trigger] s[index_of(s, x)].1
                        == old(self)@.insert(l, window)[x] by {
                        let i = index_of(s, x);
                        lemma_index_of(s, i);
                        if i < n {
                            assert(s[i] == old_entries[i]);
                            lemma_index_of(old_entries, i);
                        }
                    }
                    assert(self@ =~= old(self)@.insert(l, window));
                }
            },
        }
    }

    /// The window under `label`, if there is one.
    pub(crate) fn get(&self, label: &str) -> (r: Option<&W>)
        requires
            self.wf(),
        ensures
            match r {
                Some(w) => self@.contains_key(label@) && *w == self@[label@],
                None => !self@.contains_key(label@),
            },
    {
        match self.find(label) {
            Some(i) => {
                proof {
                    lemma_index_of(self.entries@, i as int);
                }
                Some(&self.entries[i].1)
            },
            None => None,
        }
    }

    /// The labels of the windows, each once.
    pub(crate) fn labels(&self) -> (r: Vec<String>)
        requires
            self.wf(),
        ensures
            r@.len() == self@.dom().len(),
            forall|i: int, j: int| 0 <= i < r@.len() && 0 <= j < r@.len() && i != j ==> #[trigger] r@[i]@ != #[trigger] r@[j]@,
            forall|i: int| 0 <= i < r@.len() ==> self@.contains_key(#[trigger] r@[i]@),
            forall|label: Seq<char>| #[trigger] self@.contains_key(label) ==> exists|i: int| 0 <= i < r@.len() && #[trigger] r@[i]@ == label,
    {
        let mut r: Vec<String> = Vec::new();
        let mut i: usize = 0;
        while i < self.entries.len()
            invariant
                self.wf(),
                i <= self.entries@.len(),
                r@.len() == i,
                forall|j: int| 0 <= j < i ==> #[trigger] r@[j]@ == self.entries@[j].0@,
            decreases self.entries@.len() - i,
        {
            r.push(self.entries[i].0.clone());
            i = i + 1;
        }
        proof {
            let s = self.entries@;
            assert forall|label: Seq<char>| #[trigger] self@.contains_key(label) implies exists|i: int| 0 <= i < r@.len() && #[trigger] r@[i]@ == label by {
                let k = choose|k: int| 0 <= k < s.len() && #[trigger] s[k].0@ == label;
                assert(r@[k]@ == label);
            }
            assert forall|k: int| 0 <= k < r@.len() implies self@.contains_key(#[trigger] r@[k]@) by {
                assert(s[k].0@ == r@[k]@);
            }
            self.lemma_dom_len();
        }
        r
    }

    /// A copy of every entry: each label with a clone of its window.
    pub(crate) fn snapshot(&self) -> (r: Vec<(String, W)>)
        where
            W: Clone,
        requires
            self.wf(),
        ensures
            r@.len() == self@.dom().len(),
            labels_distinct(r@),
            forall|i: int| 0 <= i < r@.len() ==> self@.contains_key(#[trigger] r@[i].0@)
                && cloned(self@[r@[i].0@], r@[i].1),
            forall|label: Seq<char>| #[trigger] self@.contains_key(label) ==> has_label(r@, label),
    {
        let mut r: Vec<(String, W)> = Vec::new();
        let mut i: usize = 0;
        while i < self.entries.len()
            invariant
                self.wf(),
                i <= self.entries@.len(),
                r@.len() == i,
                forall|j: int| 0 <= j < i ==> #[trigger] r@[j].0@ == self.entries@[j].0@
                    && cloned(self.entries@[j].1, r@[j].1),
            decreases self.entries@.len() - i,
        {
            let w = self.entries[i].1.clone();
            r.push((self.entries[i].0.clone(), w));
            i = i + 1;
        }
        proof {
            let s = self.entries@;
            assert forall|a: int, b: int| 0 <= a < r@.len() && 0 <= b < r@.len() && a != b
                implies #[trigger] r@[a].0@ != #[trigger] r@[b].0@ by {
                assert(r@[a].0@ == s[a].0@ && r@[b].0@ == s[b].0@);
            }
            assert forall|k: int| 0 <= k < r@.len() implies self@.contains_key(#[trigger] r@[k].0@)
                && cloned(self@[r@[k].0@], r@[k].1) by {
                assert(s[k].0@ == r@[k].0@);
                lemma_index_of(s, k);
            }
            assert forall|label: Seq<char>| #[trigger] self@.contains_key(label) implies has_label(r@, label) by {
                let k = choose|k: int| 0 <= k < s.len() && #[trigger] s[k].0@ == label;
                assert(r@[k].0@ == label);
            }
            self.lemma_dom_len();
        }
        r
    }

    /// The labels of the windows that `filter` accepts, each once, in the registry's order.
    pub(crate) fn labels_where<F: Fn(&W) -> bool>(&self, filter: F) -> (r: Vec<String>)
        requires
            self.wf(),
            forall|w: &W| #[trigger] filter.requires((w,)),
        ensures
            forall|i: int, j: int| 0 <= i < r@.len() && 0 <= j < r@.len() && i != j ==> #[trigger] r@[i]@ != #[trigger] r@[j]@,
            forall|i: int| 0 <= i < r@.len() ==> self@.contains_key(#[trigger] r@[i]@)
                && filter.ensures((&self@[r@[i]@],), true),
            forall|label: Seq<char>| #[trigger] self@.contains_key(label)
                && !(exists|i: int| 0 <= i < r@.len() && #[trigger] r@[i]@ == label)
                ==> filter.ensures((&self@[label],), false),
    {
        let mut r: Vec<String> = Vec::new();
        let ghost mut picked: Seq<int> = Seq::empty();
        let mut i: usize = 0;
        while i < self.entries.len()
            invariant
                self.wf(),
                forall|w: &W| #[trigger] filter.requires((w,)),
                i <= self.entries@.len(),
                r@.len() == picked.len(),
                forall|k: int| 0 <= k < picked.len() ==> 0 <= #[trigger] picked[k] < i
                    && r@[k]@ == self.entries@[picked[k]].0@
                    && filter.ensures((&self.entries@[picked[k]].1,), true),
                forall|a: int, b: int| 0 <= a < b < picked.len() ==> #[trigger] picked[a] < #[trigger] picked[b],
                forall|j: int| 0 <= j < i && !(exists|k: int| 0 <= k < picked.len() && #[trigger] picked[k] == j)
                    ==> filter.ensures((&self.entries@[j].1,), false),
            decreases self.entries@.len() - i,
        {
            let keep = filter(&self.entries[i].1);
            let ghost old_picked = picked;
            if keep {
                r.push(self.entries[i].0.clone());
                proof {
                    picked = picked.push(i as int);
                    assert forall|j: int| 0 <= j < i + 1 && !(exists|k: int| 0 <= k < picked.len() && #[trigger] picked[k] == j)
                        implies filter.ensures((&self.entries@[j].1,), false) by {
                        if j < i {
                            if exists|k: int| 0 <= k < old_picked.len() && #[trigger] old_picked[k] == j {
                                let k = choose|k: int| 0 <= k < old_picked.len() && #[trigger] old_picked[k] == j;
                                assert(picked[k] == j);
                            }
                        } else {
                            assert(picked[old_picked.len() as int] == j);
                        }
                    }
                }
            } else {
                proof {
                    assert forall|j: int| 0 <= j < i + 1 && !(exists|k: int| 0 <= k < picked.len() && #[trigger] picked[k] == j)
                        implies filter.ensures((&self.entries@[j].1,), false) by {
                    }
                }
            }
            i = i + 1;
        }
        proof {
            let s = self.entries@;
            assert forall|a: int, b: int| 0 <= a < r@.len() && 0 <= b < r@.len() && a != b
                implies #[trigger] r@[a]@ != #[trigger] r@[b]@ by {
                if a < b {
                    assert(picked[a] < picked[b]);
                } else {
                    assert(picked[b] < picked[a]);
                }
            }
            assert forall|k: int| 0 <= k < r@.len() implies self@.contains_key(#[trigger] r@[k]@)
                && filter.ensures((&self@[r@[k]@],), true) by {
                lemma_index_of(s, picked[k]);
            }
            assert forall|label: Seq<char>| #[trigger] self@.contains_key(label)
                && !(exists|i: int| 0 <= i < r@.len() && #[trigger] r@[i]@ == label)
                implies filter.ensures((&self@[label],), false) by {
                let j = index_of(s, label);
                lemma_index_of(s, j);
                if exists|k: int| 0 <= k < picked.len() && #[trigger] picked[k] == j {
                    let k = choose|k: int| 0 <= k < picked.len() && #[trigger] picked[k] == j;
                    assert(r@[k]@ == label);
                }
            }
        }
        r
    }

    /// The number of windows is the number of entries.
    proof fn lemma_dom_len(&self)
        requires
            self.wf(),
        ensures
            self@.dom().len() == self.entries@.len(),
            self@.dom().finite(),
    {
        let s = self.entries@;
        let labels = s.map_values(|e: (String, W)| e.0@);
        assert forall|i: int, j: int| 0 <= i < labels.len() && 0 <= j < labels.len() && i != j implies labels[i] != labels[j] by {
            assert(labels[i] == s[i].0@ && labels[j] == s[j].0@);
        }
        assert(labels.no_duplicates());
        labels.unique_seq_to_set();
        assert forall|x: Seq<char>| #[trigger] self@.dom().contains(x) == labels.to_set().contains(x) by {
            if self@.dom().contains(x) {
                let k = choose|k: int| 0 <= k < s.len() && #[trigger] s[k].0@ == x;
                assert(labels[k] == x);
            }
            if labels.to_set().contains(x) {
                let k = choose|k: int| 0 <= k < labels.len() && labels[k] == x;
                assert(s[k].0@ == x);
            }
        }
        assert(self@.dom() =~= labels.to_set());
    }
}

} // verus!
