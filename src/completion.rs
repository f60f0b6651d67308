use vstd::prelude::*;

verus! {

/// `p` is a prefix of `w`.
pub open spec fn is_prefix(p: Seq<char>, w: Seq<char>) -> bool {
    p.len() <= w.len() && w.take(p.len() as int) == p
}

/// Some stored name starts with `p`.
pub open spec fn has_name_with_prefix(names: Seq<Seq<char>>, p: Seq<char>) -> bool {
    exists|i: int| 0 <= i < names.len() && #[trigger] is_prefix(p, names[i])
}

/// Every stored name that starts with `p` goes on with `c`.
pub open spec fn forced_step(names: Seq<Seq<char>>, p: Seq<char>, c: char) -> bool {
    forall|i: int| 0 <= i < names.len() && #[trigger] is_prefix(p, names[i]) ==> is_prefix(p.push(c), names[i])
}

/// `done` is what completion makes of the typed `t`: `t` followed by every
/// character that all matching names share next, up to a name that ends there
/// or to a point where the names part.
pub open spec fn is_completion(names: Seq<Seq<char>>, t: Seq<char>, done: Seq<char>) -> bool {
    &&& has_name_with_prefix(names, t)
    &&& is_prefix(t, done)
    &&& forall|k: int| t.len() <= k < done.len() ==> forced_step(names, #[trigger] done.take(k), done[k])
    &&& forall|c: char| !forced_step(names, done, c)
}

proof fn lemma_completions_agree(names: Seq<Seq<char>>, t: Seq<char>, d1: Seq<char>, d2: Seq<char>, k: int)
    requires
        is_completion(names, t, d1),
        is_completion(names, t, d2),
        t.len() <= k <= d1.len(),
        k <= d2.len(),
    ensures
        d1.take(k) == d2.take(k),
        has_name_with_prefix(names, d1.take(k)),
    decreases k - t.len(),
{
    if k == t.len() {
        assert(d1.take(k) == t);
        assert(d2.take(k) == t);
    } else {
        lemma_completions_agree(names, t, d1, d2, k - 1);
        let p = d1.take(k - 1);
        let i = choose|i: int| 0 <= i < names.len() && #[trigger] is_prefix(p, names[i]);
        let w = names[i];
        assert(forced_step(names, d1.take(k - 1), d1[k - 1]));
        assert(forced_step(names, d2.take(k - 1), d2[k - 1]));
        assert(is_prefix(p.push(d1[k - 1]), w));
        assert(is_prefix(p.push(d2[k - 1]), w));
        assert(w.take(k)[k - 1] == d1[k - 1]);
        assert(w.take(k)[k - 1] == d2[k - 1]);
        assert(d1.take(k) =~= p.push(d1[k - 1]));
        assert(d2.take(k) =~= p.push(d2[k - 1]));
        assert(is_prefix(d1.take(k), w));
    }
}

/// A typed text has one completion at most.
pub proof fn lemma_completion_unique(names: Seq<Seq<char>>, t: Seq<char>, d1: Seq<char>, d2: Seq<char>)
    requires
        is_completion(names, t, d1),
        is_completion(names, t, d2),
    ensures
        d1 == d2,
{
    if d1.len() < d2.len() {
        lemma_completions_agree(names, t, d1, d2, d1.len() as int);
        assert(d1.take(d1.len() as int) =~= d1);
        assert(forced_step(names, d2.take(d1.len() as int), d2[d1.len() as int]));
        assert(!forced_step(names, d1, d2[d1.len() as int]));
    } else if d2.len() < d1.len() {
        lemma_completions_agree(names, t, d1, d2, d2.len() as int);
        assert(d2.take(d2.len() as int) =~= d2);
        assert(forced_step(names, d1.take(d2.len() as int), d1[d2.len() as int]));
        assert(!forced_step(names, d2, d1[d2.len() as int]));
    } else {
        lemma_completions_agree(names, t, d1, d2, d1.len() as int);
        assert(d1.take(d1.len() as int) =~= d1);
        assert(d2.take(d2.len() as int) =~= d2);
    }
}

/// A transition of the tree: from node `from` on character `ch` to node `to`.
#[derive(Clone, Copy, Debug, PartialEq, Eq, Structural)]
pub struct Edge {
    pub from: usize,
    pub ch: char,
    pub to: usize,
}

pub open spec fn has_edge(edges: Seq<Edge>, i: int, c: char) -> bool {
    exists|e: int| 0 <= e < edges.len() && #[trigger] edges[e].from == i && edges[e].ch == c
}

pub open spec fn has_incoming(edges: Seq<Edge>, j: int) -> bool {
    exists|e: int| 0 <= e < edges.len() && #[trigger] edges[e].to == j
}

/// A prefix automaton over a list of names: one node per prefix of a stored
/// name, a transition per next character, and the nodes that spell a whole
/// name marked accepting.
pub struct PrefixTree {
    names: Vec<String>,
    accepting: Vec<bool>,
    witness: Vec<usize>,
    edges: Vec<Edge>,
    labels: Ghost<Seq<Seq<char>>>,
}

impl View for PrefixTree {
    type V = Seq<Seq<char>>;

    closed spec fn view(&self) -> Seq<Seq<char>> {
        self.names@.map_values(|s: String| s@)
    }
}

impl PrefixTree {
    /// The nodes, labels and transitions form a tree: each node is reached
    /// from its parent by one transition, and no two nodes spell the same text.
    closed spec fn shape_ok(&self) -> bool {
        let n = self.accepting@.len();
        let labels = self.labels@;
        let edges = self.edges@;
        &&& n >= 1
        &&& labels.len() == n
        &&& self.witness@.len() == n
        &&& labels[0] == Seq::<char>::empty()
        &&& forall|e: int|
            0 <= e < edges.len() ==> {
                &&& (#[trigger] edges[e]).from < edges[e].to < n
                &&& labels[edges[e].to as int] == labels[edges[e].from as int].push(edges[e].ch)
            }
        &&& forall|e1: int, e2: int|
            0 <= e1 < edges.len() && 0 <= e2 < edges.len() && e1 != e2 ==> !(
            #[trigger] edges[e1].from == #[trigger] edges[e2].from && edges[e1].ch == edges[e2].ch)
        &&& forall|i: int, j: int|
            0 <= i < n && 0 <= j < n && #[trigger] labels[i] == #[trigger] labels[j] ==> i == j
        &&& forall|j: int| 1 <= j < n ==> #[trigger] has_incoming(edges, j)
    }

    /// Each node but the root spells a prefix of the stored name it points to.
    closed spec fn witness_ok(&self) -> bool {
        &&& forall|i: int| 1 <= i < self.accepting@.len() ==> #[trigger] self.witness@[i] < self.names@.len()
        &&& forall|i: int|
            1 <= i < self.accepting@.len() ==> is_prefix(
                #[trigger] self.labels@[i],
                self.names@[self.witness@[i] as int]@,
            )
    }

    /// A node accepts exactly where it spells one of `names`.
    closed spec fn accepting_ok(&self, names: Seq<Seq<char>>) -> bool {
        forall|i: int|
            0 <= i < self.accepting@.len() ==> self.accepting@[i] == names.contains(
                #[trigger] self.labels@[i],
            )
    }

    /// Each node that spells a prefix of `v` shorter than `upto` has the
    /// transition on `v`'s next character.
    closed spec fn complete_for(&self, v: Seq<char>, upto: int) -> bool {
        forall|i: int|
            0 <= i < self.accepting@.len() && #[trigger] is_prefix(self.labels@[i], v)
                && self.labels@[i].len() < upto ==> has_edge(
                self.edges@,
                i,
                v[self.labels@[i].len() as int],
            )
    }

    closed spec fn complete_for_all(&self, names: Seq<Seq<char>>) -> bool {
        forall|k: int| 0 <= k < names.len() ==> #[trigger] self.complete_for(names[k], names[k].len() as int)
    }

    /// The tree is consistent with the names it holds.
    pub closed spec fn wf(&self) -> bool {
        &&& self.shape_ok()
        &&& self.witness_ok()
        &&& self.accepting_ok(self@)
        &&& self.complete_for_all(self@)
    }

    /// The tree of no names.
    pub fn new() -> (r: PrefixTree)
        ensures
            r.wf(),
            r@ == Seq::<Seq<char>>::empty(),
    {
        let mut accepting: Vec<bool> = Vec::new();
        accepting.push(false);
        let mut witness: Vec<usize> = Vec::new();
        witness.push(0);
        let ghost labels = seq![Seq::<char>::empty()];
        let r = PrefixTree {
            names: Vec::new(),
            accepting,
            witness,
            edges: Vec::new(),
            labels: Ghost(labels),
        };
        assert(r@ =~= Seq::<Seq<char>>::empty());
        r
    }

    /// Adds a name.
    pub fn insert(&mut self, name: &str)
        requires
            old(self).wf(),
        ensures
            final(self).wf(),
            final(self)@ == old(self)@.push(name@),
    {
        let ghost old_names = self@;
        let ghost w = name@;
        let idx = self.names.len();
        self.names.push(String::from_str(name));
        proof {
            assert(self@ =~= old_names.push(w));
            assert forall|k: int| 0 <= k < old_names.len() implies #[trigger] self.complete_for(
                old_names[k],
                old_names[k].len() as int,
            ) by {
                assert(old_names[k] == old(self)@[k]);
                assert(old(self).complete_for(old(self)@[k], old(self)@[k].len() as int));
            }
            assert(old(self).witness_ok());
            assert forall|i: int| 1 <= i < self.accepting@.len() implies self.witness@[i] < self.names@.len()
                && is_prefix(#[trigger] self.labels@[i], self.names@[self.witness@[i] as int]@) by {
                assert(old(self).labels@[i] == self.labels@[i]);
            }
            assert(self.witness_ok());
            assert(self.names@.len() == idx + 1);
            assert(self.names@[idx as int]@ == w);
            assert(w.take(0) =~= Seq::<char>::empty());
        }
        let len = name.unicode_len();
        let mut cur: usize = 0;
        let mut k: usize = 0;
        while k < len
            invariant
                self.shape_ok(),
                self.witness_ok(),
                self.accepting_ok(old_names),
                forall|m: int| 0 <= m < old_names.len() ==> #[trigger] self.complete_for(
                    old_names[m],
                    old_names[m].len() as int,
                ),
                self.complete_for(w, k as int),
                self@ == old_names.push(w),
                self.names@.len() == idx + 1,
                self.names@[idx as int]@ == w,
                idx == old_names.len(),
                len == w.len(),
                w == name@,
                k <= len,
                cur < self.accepting@.len(),
                self.labels@[cur as int] == w.take(k as int),
            decreases len - k,
        {
            let c = name.get_char(k);
            let ghost old_tree = *self;
            proof {
                assert(w.take(k + 1) =~= w.take(k as int).push(c));
            }
            match self.find_edge(cur, c) {
                Some(e) => {
                    let next = self.edges[e].to;
                    proof {
                        assert forall|i: int|
                            0 <= i < self.accepting@.len() && #[trigger] is_prefix(self.labels@[i], w)
                                && self.labels@[i].len() < k + 1 implies has_edge(
                            self.edges@,
                            i,
                            w[self.labels@[i].len() as int],
                        ) by {
                            if self.labels@[i].len() == k {
                                assert(self.labels@[i] =~= self.labels@[cur as int]);
                            }
                        }
                    }
                    cur = next;
                },
                None => {
                    let j = self.accepting.len();
                    let ghost label = w.take(k + 1);
                    proof {
                        assert forall|m: int| 0 <= m < old_names.len() implies !is_prefix(
                            label,
                            #[trigger] old_names[m],
                        ) by {
                            if is_prefix(label, old_names[m]) {
                                let v = old_names[m];
                                assert(self.complete_for(v, v.len() as int));
                                assert(v.take(k as int) =~= label.take(k as int));
                                assert(label.take(k as int) =~= w.take(k as int));
                                assert(is_prefix(self.labels@[cur as int], v));
                                assert(v[k as int] == label[k as int]);
                            }
                        }
                        assert(!old_names.contains(label)) by {
                            if old_names.contains(label) {
                                let m = choose|m: int| 0 <= m < old_names.len() && old_names[m] == label;
                                assert(label.take(label.len() as int) =~= label);
                                assert(is_prefix(label, old_names[m]));
                            }
                        }
                    }
                    self.accepting.push(false);
                    self.witness.push(idx);
                    self.edges.push(Edge { from: cur, ch: c, to: j });
                    self.labels = Ghost(self.labels@.push(label));
                    proof {
                        let edges = self.edges@;
                        let old_edges = old_tree.edges@;
                        let labels = self.labels@;
                        let n = self.accepting@.len();
                        assert(edges[old_edges.len() as int] == Edge { from: cur, ch: c, to: j });
                        assert forall|e: int| 0 <= e < old_edges.len() implies #[trigger] edges[e] == old_edges[e] by {}
                        assert forall|i: int, cc: char| #[trigger] has_edge(old_edges, i, cc) implies has_edge(edges, i, cc) by {
                            let e = choose|e: int| 0 <= e < old_edges.len() && #[trigger] old_edges[e].from == i && old_edges[e].ch == cc;
                            assert(edges[e] == old_edges[e]);
                        }
                        // the tree keeps its shape
                        assert forall|e: int| 0 <= e < edges.len() implies {
                            &&& (#[trigger] edges[e]).from < edges[e].to < n
                            &&& labels[edges[e].to as int] == labels[edges[e].from as int].push(edges[e].ch)
                        } by {
                            if e < old_edges.len() {
                                assert(edges[e] == old_edges[e]);
                            }
                        }
                        assert forall|e1: int, e2: int|
                            0 <= e1 < edges.len() && 0 <= e2 < edges.len() && e1 != e2 implies !(
                            #[trigger] edges[e1].from == #[trigger] edges[e2].from && edges[e1].ch == edges[e2].ch) by {
                            if e1 < old_edges.len() && e2 < old_edges.len() {
                                assert(edges[e1] == old_edges[e1]);
                                assert(edges[e2] == old_edges[e2]);
                            } else if e1 < old_edges.len() {
                                assert(edges[e1] == old_edges[e1]);
                            } else {
                                assert(edges[e2] == old_edges[e2]);
                            }
                        }
                        assert forall|a: int, b: int|
                            0 <= a < n && 0 <= b < n && #[trigger] labels[a] == #[trigger] labels[b] implies a == b by {
                            if a != b && (a == j || b == j) {
                                let other = if a == j { b } else { a };
                                assert(labels[other] == label);
                                assert(other >= 1) by {
                                    if other == 0 {
                                        assert(labels[0].len() == 0);
                                    }
                                }
                                assert(has_incoming(old_edges, other));
                                let e = choose|e: int| 0 <= e < old_edges.len() && #[trigger] old_edges[e].to == other;
                                let p = old_edges[e].from as int;
                                assert(old_tree.labels@[other] == old_tree.labels@[p].push(old_edges[e].ch));
                                assert(old_tree.labels@[p] =~= label.drop_last());
                                assert(old_tree.labels@[cur as int] =~= label.drop_last());
                                assert(p == cur);
                                assert(label[k as int] == c);
                                assert(old_tree.labels@[other][k as int] == old_edges[e].ch);
                            }
                        }
                        assert forall|jj: int| 1 <= jj < n implies #[trigger] has_incoming(edges, jj) by {
                            if jj == j {
                                assert(edges[old_edges.len() as int].to == jj);
                            } else {
                                assert(has_incoming(old_edges, jj));
                                let e = choose|e: int| 0 <= e < old_edges.len() && #[trigger] old_edges[e].to == jj;
                                assert(edges[e] == old_edges[e]);
                            }
                        }
                        assert(self.shape_ok());
                        // witnesses
                        assert forall|i: int| 1 <= i < n implies self.witness@[i] < self.names@.len()
                            && is_prefix(#[trigger] self.labels@[i], self.names@[self.witness@[i] as int]@) by {
                            if i == j {
                                assert(self.names@[idx as int]@ == w);
                                assert(w.take(label.len() as int) =~= label);
                            } else {
                                assert(old_tree.witness_ok());
                                assert(old_tree.labels@[i] == labels[i]);
                            }
                        }
                        assert(self.witness_ok());
                        // acceptance
                        assert forall|i: int| 0 <= i < n implies self.accepting@[i] == old_names.contains(
                            #[trigger] self.labels@[i],
                        ) by {
                            if i != j {
                                assert(old_tree.accepting_ok(old_names));
                                assert(old_tree.labels@[i] == labels[i]);
                            }
                        }
                        // transitions for the old names
                        assert forall|m: int| 0 <= m < old_names.len() implies #[trigger] self.complete_for(
                            old_names[m],
                            old_names[m].len() as int,
                        ) by {
                            let v = old_names[m];
                            assert(old_tree.complete_for(v, v.len() as int));
                            assert forall|i: int|
                                0 <= i < n && #[trigger] is_prefix(labels[i], v) && labels[i].len() < v.len() implies has_edge(
                                edges,
                                i,
                                v[labels[i].len() as int],
                            ) by {
                                if i == j {
                                    assert(!is_prefix(label, v));
                                } else {
                                    assert(old_tree.labels@[i] == labels[i]);
                                    assert(has_edge(old_edges, i, v[labels[i].len() as int]));
                                }
                            }
                        }
                        // transitions for the new name, one step further
                        assert forall|i: int|
                            0 <= i < n && #[trigger] is_prefix(labels[i], w) && labels[i].len() < k + 1 implies has_edge(
                            edges,
                            i,
                            w[labels[i].len() as int],
                        ) by {
                            if i != j {
                                assert(old_tree.labels@[i] == labels[i]);
                                if labels[i].len() == k {
                                    assert(labels[i] =~= labels[cur as int]);
                                    assert(i == cur);
                                    assert(edges[old_edges.len() as int].from == cur);
                                } else {
                                    assert(has_edge(old_edges, i, w[labels[i].len() as int]));
                                }
                            }
                        }
                    }
                    cur = j;
                },
            }
            k = k + 1;
        }
        proof {
            assert(w.take(len as int) =~= w);
        }
        let ghost before = *self;
        self.accepting.set(cur, true);
        proof {
            let n = self.accepting@.len();
            let names = old_names.push(w);
            assert(self@ == names);
            assert(names[idx as int] == w);
            assert forall|i: int| 0 <= i < n implies self.accepting@[i] == names.contains(
                #[trigger] self.labels@[i],
            ) by {
                if i == cur {
                    assert(names.contains(w));
                } else {
                    assert(before.accepting@[i] == old_names.contains(before.labels@[i]));
                    assert(self.labels@[i] != w);
                    if names.contains(self.labels@[i]) {
                        let m = choose|m: int| 0 <= m < names.len() && names[m] == self.labels@[i];
                        assert(m != idx);
                        assert(old_names[m] == names[m]);
                    }
                    if old_names.contains(self.labels@[i]) {
                        let m = choose|m: int| 0 <= m < old_names.len() && old_names[m] == self.labels@[i];
                        assert(old_names[m] == names[m]);
                    }
                }
            }
            assert(self.accepting_ok(self@));
            assert forall|m: int| 0 <= m < names.len() implies #[trigger] self.complete_for(
                names[m],
                names[m].len() as int,
            ) by {
                if m < old_names.len() {
                    assert(names[m] == old_names[m]);
                    assert(before.complete_for(old_names[m], old_names[m].len() as int));
                } else {
                    assert(before.complete_for(w, w.len() as int));
                }
            }
            assert(self.complete_for_all(self@));
        }
    }

    /// The tree of the given names.
    pub fn from_names(names: &Vec<String>) -> (r: PrefixTree)
        ensures
            r.wf(),
            r@ == names@.map_values(|s: String| s@),
    {
        let mut tree = PrefixTree::new();
        let mut i: usize = 0;
        while i < names.len()
            invariant
                i <= names.len(),
                tree.wf(),
                tree@ == names@.take(i as int).map_values(|s: String| s@),
            decreases names.len() - i,
        {
            tree.insert(names[i].as_str());
            proof {
                assert(names@.take(i + 1).map_values(|s: String| s@) =~= names@.take(
                    i as int,
                ).map_values(|s: String| s@).push(names@[i as int]@));
            }
            i = i + 1;
        }
        proof {
            assert(names@.take(names.len() as int) =~= names@);
        }
        tree
    }

    /// Whether a node that spells `p` shows that some name starts with `p`:
    /// it accepts, or a transition leaves it.
    proof fn lemma_node_has_name(&self, node: int, e: Option<usize>)
        requires
            self.wf(),
            0 <= node < self.accepting@.len(),
            e matches Some(x) ==> x < self.edges@.len() && self.edges@[x as int].from == node,
            e is None ==> forall|f: int| 0 <= f < self.edges@.len() ==> #[trigger] self.edges@[f].from != node,
        ensures
            has_name_with_prefix(self@, self.labels@[node]) <== (self.accepting@[node] || e is Some),
            has_name_with_prefix(self@, self.labels@[node]) ==> (self.accepting@[node] || e is Some),
    {
        let p = self.labels@[node];
        let names = self@;
        if self.accepting@[node] {
            assert(names.contains(p));
            let m = choose|m: int| 0 <= m < names.len() && names[m] == p;
            assert(p.take(p.len() as int) =~= p);
            assert(is_prefix(p, names[m]));
        } else if e is Some {
            let x = e->0;
            let j = self.edges@[x as int].to as int;
            let wi = self.witness@[j] as int;
            assert(is_prefix(self.labels@[j], self.names@[wi]@));
            assert(names[wi] == self.names@[wi]@);
            assert(names[wi].take(p.len() as int) =~= self.labels@[j].take(p.len() as int));
            assert(self.labels@[j].take(p.len() as int) =~= p);
            assert(is_prefix(p, names[wi]));
        } else {
            if has_name_with_prefix(names, p) {
                let m = choose|m: int| 0 <= m < names.len() && #[trigger] is_prefix(p, names[m]);
                if names[m].len() == p.len() {
                    assert(names[m] =~= p);
                    assert(names.contains(p));
                } else {
                    assert(self.complete_for(names[m], names[m].len() as int));
                    assert(has_edge(self.edges@, node, names[m][p.len() as int]));
                }
            }
        }
    }

    /// Completes the typed text: `None` where no name starts with it, else
    /// the text extended by every character that all matching names share.
    pub fn complete(&self, typed: &str) -> (r: Option<String>)
        requires
            self.wf(),
        ensures
            r is None <==> !has_name_with_prefix(self@, typed@),
            r matches Some(s) ==> is_completion(self@, typed@, s@),
    {
        let ghost t = typed@;
        let ghost names = self@;
        let len = typed.unicode_len();
        let mut cur: usize = 0;
        let mut k: usize = 0;
        proof {
            assert(t.take(0) =~= Seq::<char>::empty());
        }
        while k < len
            invariant
                self.wf(),
                len == t.len(),
                t == typed@,
                names == self@,
                k <= len,
                cur < self.accepting@.len(),
                self.labels@[cur as int] == t.take(k as int),
            decreases len - k,
        {
            let c = typed.get_char(k);
            match self.find_edge(cur, c) {
                Some(e) => {
                    proof {
                        assert(t.take(k + 1) =~= t.take(k as int).push(c));
                    }
                    cur = self.edges[e].to;
                },
                None => {
                    proof {
                        if has_name_with_prefix(names, t) {
                            let m = choose|m: int| 0 <= m < names.len() && #[trigger] is_prefix(t, names[m]);
                            let v = names[m];
                            assert(self.complete_for(v, v.len() as int));
                            assert(v.take(k as int) =~= t.take(k as int));
                            assert(is_prefix(self.labels@[cur as int], v));
                            assert(v[k as int] == t[k as int]);
                        }
                    }
                    return None;
                },
            }
            k = k + 1;
        }
        proof {
            assert(t.take(len as int) =~= t);
        }
        let (first, _) = self.out_edges(cur);
        proof {
            self.lemma_node_has_name(cur as int, first);
        }
        if !self.accepting[cur] && first.is_none() {
            return None;
        }
        let ghost mut done = t;
        let mut dlen: usize = len;
        loop
            invariant
                self.wf(),
                t == typed@,
                names == self@,
                cur < self.accepting@.len(),
                self.labels@[cur as int] == done,
                dlen == done.len(),
                has_name_with_prefix(names, t),
                has_name_with_prefix(names, done),
                is_prefix(t, done),
                dlen > t.len() ==> cur >= 1,
                forall|k: int| t.len() <= k < done.len() ==> forced_step(names, #[trigger] done.take(k), done[k]),
            ensures
                self.labels@[cur as int] == done,
                dlen == done.len(),
                dlen > t.len() ==> cur >= 1,
                is_completion(names, t, done),
            decreases self.accepting@.len() - cur,
        {
            let (first, second) = self.out_edges(cur);
            proof {
                self.lemma_node_has_name(cur as int, first);
            }
            if self.accepting[cur] {
                proof {
                    let m = choose|m: int| 0 <= m < names.len() && names[m] == done;
                    assert(done.take(done.len() as int) =~= done);
                    assert forall|c: char| !forced_step(names, done, c) by {
                        assert(is_prefix(done, names[m]));
                    }
                }
                break;
            }
            match (first, second) {
                (Some(a), Some(b)) => {
                    proof {
                        let ea = self.edges@[a as int];
                        let eb = self.edges@[b as int];
                        let ja = ea.to as int;
                        let jb = eb.to as int;
                        assert(ea.ch != eb.ch);
                        let wa = self.witness@[ja] as int;
                        let wb = self.witness@[jb] as int;
                        assert(is_prefix(self.labels@[ja], self.names@[wa]@));
                        assert(is_prefix(self.labels@[jb], self.names@[wb]@));
                        assert(names[wa] == self.names@[wa]@);
                        assert(names[wb] == self.names@[wb]@);
                        assert(names[wa].take(done.len() as int) =~= done);
                        assert(names[wb].take(done.len() as int) =~= done);
                        assert(self.labels@[ja] == done.push(ea.ch));
                        assert(self.labels@[jb] == done.push(eb.ch));
                        assert(names[wa].take(done.len() + 1 as int)[done.len() as int] == names[wa][done.len() as int]);
                        assert(names[wb].take(done.len() + 1 as int)[done.len() as int] == names[wb][done.len() as int]);
                        assert(names[wa][done.len() as int] == ea.ch);
                        assert(names[wb][done.len() as int] == eb.ch);
                        assert forall|c: char| !forced_step(names, done, c) by {
                            assert(is_prefix(done, names[wa]));
                            assert(is_prefix(done, names[wb]));
                            if is_prefix(done.push(c), names[wa]) {
                                assert(names[wa][done.len() as int] == c);
                            }
                            if is_prefix(done.push(c), names[wb]) {
                                assert(names[wb][done.len() as int] == c);
                            }
                        }
                    }
                    break;
                },
                (Some(a), None) => {
                    let edge = self.edges[a];
                    let next = edge.to;
                    let c = edge.ch;
                    let wn = self.witness[next];
                    let bound = self.names[wn].unicode_len();
                    proof {
                        assert(self.labels@[next as int] == done.push(c));
                        assert(is_prefix(self.labels@[next as int], self.names@[wn as int]@));
                        assert forall|i: int|
                            0 <= i < names.len() && #[trigger] is_prefix(done, names[i]) implies is_prefix(
                            done.push(c),
                            names[i],
                        ) by {
                            if names[i].len() == done.len() {
                                assert(names[i] =~= done);
                                assert(names.contains(done));
                            } else {
                                assert(self.complete_for(names[i], names[i].len() as int));
                                let d = names[i][done.len() as int];
                                assert(has_edge(self.edges@, cur as int, d));
                                let f = choose|f: int|
                                    0 <= f < self.edges@.len() && #[trigger] self.edges@[f].from == cur && self.edges@[f].ch == d;
                                assert(f == a);
                                assert(names[i].take(done.len() + 1 as int) =~= done.push(c));
                            }
                        }
                        let nd = done.push(c);
                        assert forall|k: int| t.len() <= k < nd.len() implies forced_step(
                            names,
                            #[trigger] nd.take(k),
                            nd[k],
                        ) by {
                            if k < done.len() {
                                assert(nd.take(k) =~= done.take(k));
                            } else {
                                assert(nd.take(k) =~= done);
                            }
                        }
                        assert(nd.take(t.len() as int) =~= done.take(t.len() as int));
                        let wi = wn as int;
                        assert(names[wi] == self.names@[wi]@);
                        assert(names[wi].take(nd.len() as int).take(t.len() as int) =~= names[wi].take(t.len() as int));
                        assert(is_prefix(nd, names[wi]));
                        done = nd;
                    }
                    cur = next;
                    dlen = dlen + 1;
                },
                (None, _) => {
                    proof {
                        assert(false);
                    }
                    break;
                },
            }
        }
        if dlen == len {
            proof {
                assert(done =~= t);
            }
            return Some(String::from_str(typed));
        }
        let wn = self.witness[cur];
        let name = &self.names[wn];
        proof {
            assert(is_prefix(self.labels@[cur as int], self.names@[wn as int]@));
        }
        let r = String::from_str(name.as_str().substring_char(0, dlen));
        proof {
            assert(r@ =~= done);
        }
        Some(r)
    }

    /// The transition from `node` on `c`, if there is one.
    fn find_edge(&self, node: usize, c: char) -> (r: Option<usize>)
        ensures
            r matches Some(e) ==> e < self.edges@.len() && self.edges@[e as int].from == node
                && self.edges@[e as int].ch == c,
            r is None ==> !has_edge(self.edges@, node as int, c),
    {
        let mut e: usize = 0;
        while e < self.edges.len()
            invariant
                e <= self.edges@.len(),
                forall|f: int| 0 <= f < e ==> !(#[trigger] self.edges@[f].from == node && self.edges@[f].ch == c),
            decreases self.edges@.len() - e,
        {
            let edge = self.edges[e];
            if edge.from == node && edge.ch == c {
                return Some(e);
            }
            e = e + 1;
        }
        None
    }

    /// The first two transitions out of `node`.
    fn out_edges(&self, node: usize) -> (r: (Option<usize>, Option<usize>))
        ensures
            r.0 is None ==> forall|f: int| 0 <= f < self.edges@.len() ==> #[trigger] self.edges@[f].from != node,
            r.0 matches Some(a) ==> a < self.edges@.len() && self.edges@[a as int].from == node,
            r.0 is Some && r.1 is None ==> forall|f: int|
                0 <= f < self.edges@.len() && #[trigger] self.edges@[f].from == node ==> f == r.0->0,
            r.1 matches Some(b) ==> r.0 is Some && b < self.edges@.len() && self.edges@[b as int].from == node && b != r.0->0,
    {
        let mut first: Option<usize> = None;
        let mut e: usize = 0;
        while e < self.edges.len()
            invariant
                e <= self.edges@.len(),
                first is None ==> forall|f: int| 0 <= f < e ==> #[trigger] self.edges@[f].from != node,
                first matches Some(a) ==> a < e && self.edges@[a as int].from == node && forall|f: int|
                    0 <= f < e && #[trigger] self.edges@[f].from == node ==> f == a,
            decreases self.edges@.len() - e,
        {
            if self.edges[e].from == node {
                match first {
                    None => {
                        first = Some(e);
                    },
                    Some(a) => {
                        return (Some(a), Some(e));
                    },
                }
            }
            e = e + 1;
        }
        (first, None)
    }
}

} // verus!
