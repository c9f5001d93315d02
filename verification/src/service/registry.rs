//! The active tunnels of the service, by interface name.
use vstd::prelude::*;

use crate::ipc::messages::{TunnelStatus, TunnelStatusView};
use crate::text::{joined, push_str, push_string};

verus! {

/// Active tunnels, each under the name of its interface (at most one per
/// name). `T` is the handle that keeps a tunnel up.
pub struct TunnelRegistry<T> {
    entries: Vec<(String, T)>,
}

impl<T> TunnelRegistry<T> {
    /// The names, in the order the tunnels were first registered.
    pub closed spec fn names(&self) -> Seq<Seq<char>> {
        self.entries@.map_values(|e: (String, T)| e.0@)
    }

    /// No name occurs twice.
    pub closed spec fn wf(&self) -> bool {
        forall|i: int, j: int|
            0 <= i < j < self.entries@.len() ==> self.entries@[i].0@ != self.entries@[j].0@
    }

    /// The tunnels by name.
    pub closed spec fn tunnels(&self) -> Map<Seq<char>, T> {
        Map::new(
            |k: Seq<char>| exists|i: int| 0 <= i < self.entries@.len() && self.entries@[i].0@ == k,
            |k: Seq<char>|
                self.entries@[choose|i: int|
                    0 <= i < self.entries@.len() && self.entries@[i].0@ == k].1,
        )
    }

    proof fn lemma_tunnels_at(&self, i: int)
        requires
            self.wf(),
            0 <= i < self.entries@.len(),
        ensures
            self.tunnels().dom().contains(self.entries@[i].0@),
            self.tunnels()[self.entries@[i].0@] == self.entries@[i].1,
    {
        let k = self.entries@[i].0@;
        assert(exists|j: int| 0 <= j < self.entries@.len() && self.entries@[j].0@ == k);
        let c = choose|j: int| 0 <= j < self.entries@.len() && self.entries@[j].0@ == k;
        assert(c == i);
    }

    /// An empty registry.
    pub fn new() -> (r: Self)
        ensures
            r.wf(),
            r.tunnels() == Map::<Seq<char>, T>::empty(),
            r.names() == Seq::<Seq<char>>::empty(),
    {
        let r = TunnelRegistry { entries: Vec::new() };
        proof {
            assert(r.tunnels() =~= Map::<Seq<char>, T>::empty());
            assert(r.names() =~= Seq::<Seq<char>>::empty());
        }
        r
    }

    /// Position of `name`, if registered.
    fn position(&self, name: &String) -> (r: Option<usize>)
        ensures
            match r {
                Some(i) => i < self.entries@.len() && self.entries@[i as int].0@ == name@,
                None => forall|i: int| 0 <= i < self.entries@.len() ==> self.entries@[i].0@ != name@,
            },
    {
        let mut i: usize = 0;
        while i < self.entries.len()
            invariant
                i <= self.entries@.len(),
                forall|k: int| 0 <= k < i ==> self.entries@[k].0@ != name@,
            decreases self.entries.len() - i,
        {
            if self.entries[i].0 == *name {
                return Some(i);
            }
            i += 1;
        }
        None
    }

    /// Registers `tunnel` under `name`; a tunnel already under that name
    /// is replaced and handed back.
    pub fn insert(&mut self, name: String, tunnel: T) -> (r: Option<T>)
        requires
            old(self).wf(),
        ensures
            final(self).wf(),
            final(self).tunnels() == old(self).tunnels().insert(name@, tunnel),
            match r {
                Some(t) => old(self).tunnels().dom().contains(name@) && t == old(self).tunnels()[name@],
                None => !old(self).tunnels().dom().contains(name@),
            },
    {
        let ghost old_map = self.tunnels();
        match self.position(&name) {
            Some(i) => {
                proof {
                    self.lemma_tunnels_at(i as int);
                }
                let ghost n0 = self.entries@[i as int].0;
                let (n, old_t) = self.entries.remove(i);
                self.entries.insert(i, (name, tunnel));
                proof {
                    assert(self.entries@ =~= old(self).entries@.update(i as int, (self.entries@[i as int].0, tunnel)));
                    assert forall|a: int, b: int| 0 <= a < b < self.entries@.len() implies self.entries@[a].0@ != self.entries@[b].0@ by {
                        if a != i && b != i {
                            assert(old(self).entries@[a].0@ != old(self).entries@[b].0@);
                        } else if a == i {
                            assert(old(self).entries@[i as int].0@ != old(self).entries@[b].0@);
                        } else {
                            assert(old(self).entries@[a].0@ != old(self).entries@[i as int].0@);
                        }
                    }
                    assert forall|k: Seq<char>| #![auto] self.tunnels().dom().contains(k) == old_map.insert(name@, tunnel).dom().contains(k) by {
                        if k != name@ {
                            if old_map.dom().contains(k) {
                                let j = choose|j: int| 0 <= j < old(self).entries@.len() && old(self).entries@[j].0@ == k;
                                assert(self.entries@[j].0@ == k);
                            }
                        }
                        if self.tunnels().dom().contains(k) {
                            let j = choose|j: int| 0 <= j < self.entries@.len() && self.entries@[j].0@ == k;
                            if j != i {
                                assert(old(self).entries@[j].0@ == k);
                            }
                        }
                        assert(self.entries@[i as int].0@ == name@);
                    }
                    assert forall|k: Seq<char>| #![auto] self.tunnels().dom().contains(k) implies self.tunnels()[k] == old_map.insert(name@, tunnel)[k] by {
                        let j = choose|j: int| 0 <= j < self.entries@.len() && self.entries@[j].0@ == k;
                        self.lemma_tunnels_at(j);
                        if j != i {
                            old(self).lemma_tunnels_at(j);
                        }
                    }
                    assert(self.tunnels() =~= old_map.insert(name@, tunnel));
                }
                Some(old_t)
            },
            None => {
                self.entries.push((name, tunnel));
                proof {
                    let last = self.entries@.len() - 1;
                    assert forall|a: int, b: int| 0 <= a < b < self.entries@.len() implies self.entries@[a].0@ != self.entries@[b].0@ by {
                        if b < last {
                            assert(old(self).entries@[a].0@ != old(self).entries@[b].0@);
                        }
                    }
                    assert forall|k: Seq<char>| #![auto] self.tunnels().dom().contains(k) == old_map.insert(name@, tunnel).dom().contains(k) by {
                        if old_map.dom().contains(k) {
                            let j = choose|j: int| 0 <= j < old(self).entries@.len() && old(self).entries@[j].0@ == k;
                            assert(self.entries@[j].0@ == k);
                        }
                        if self.tunnels().dom().contains(k) {
                            let j = choose|j: int| 0 <= j < self.entries@.len() && self.entries@[j].0@ == k;
                            if j != last {
                                assert(old(self).entries@[j].0@ == k);
                            }
                        }
                        assert(self.entries@[last].0@ == name@);
                    }
                    assert forall|k: Seq<char>| #![auto] self.tunnels().dom().contains(k) implies self.tunnels()[k] == old_map.insert(name@, tunnel)[k] by {
                        let j = choose|j: int| 0 <= j < self.entries@.len() && self.entries@[j].0@ == k;
                        self.lemma_tunnels_at(j);
                        if j != last {
                            old(self).lemma_tunnels_at(j);
                        }
                    }
                    assert(self.tunnels() =~= old_map.insert(name@, tunnel));
                }
                None
            },
        }
    }

    /// Takes the tunnel under `name` out of the registry, if there is one.
    pub fn remove(&mut self, name: &String) -> (r: Option<T>)
        requires
            old(self).wf(),
        ensures
            final(self).wf(),
            final(self).tunnels() == old(self).tunnels().remove(name@),
            match r {
                Some(t) => old(self).tunnels().dom().contains(name@) && t == old(self).tunnels()[name@],
                None => !old(self).tunnels().dom().contains(name@) && final(self).tunnels()
                    == old(self).tunnels(),
            },
    {
        let ghost old_map = self.tunnels();
        match self.position(name) {
            Some(i) => {
                proof {
                    self.lemma_tunnels_at(i as int);
                }
                let (n, t) = self.entries.remove(i);
                proof {
                    assert forall|a: int, b: int| 0 <= a < b < self.entries@.len() implies self.entries@[a].0@ != self.entries@[b].0@ by {
                        let oa = if a < i { a } else { a + 1 };
                        let ob = if b < i { b } else { b + 1 };
                        assert(old(self).entries@[oa].0@ != old(self).entries@[ob].0@);
                    }
                    assert forall|k: Seq<char>| #![auto] self.tunnels().dom().contains(k) == old_map.remove(name@).dom().contains(k) by {
                        if old_map.dom().contains(k) && k != name@ {
                            let j = choose|j: int| 0 <= j < old(self).entries@.len() && old(self).entries@[j].0@ == k;
                            assert(j != i);
                            let nj = if j < i { j } else { j - 1 };
                            assert(self.entries@[nj].0@ == k);
                        }
                        if self.tunnels().dom().contains(k) {
                            let j = choose|j: int| 0 <= j < self.entries@.len() && self.entries@[j].0@ == k;
                            let oj = if j < i { j } else { j + 1 };
                            assert(old(self).entries@[oj].0@ == k);
                            assert(oj != i);
                        }
                    }
                    assert forall|k: Seq<char>| #![auto] self.tunnels().dom().contains(k) implies self.tunnels()[k] == old_map.remove(name@)[k] by {
                        let j = choose|j: int| 0 <= j < self.entries@.len() && self.entries@[j].0@ == k;
                        self.lemma_tunnels_at(j);
                        let oj = if j < i { j } else { j + 1 };
                        old(self).lemma_tunnels_at(oj);
                    }
                    assert(self.tunnels() =~= old_map.remove(name@));
                }
                Some(t)
            },
            None => {
                proof {
                    assert(!old_map.dom().contains(name@));
                    assert(old_map.remove(name@) =~= old_map);
                }
                None
            },
        }
    }

    /// Takes every tunnel out of the registry.
    pub fn clear(&mut self)
        ensures
            final(self).wf(),
            final(self).tunnels() == Map::<Seq<char>, T>::empty(),
    {
        self.entries = Vec::new();
        proof {
            assert(self.tunnels() =~= Map::<Seq<char>, T>::empty());
        }
    }

    /// The number of active tunnels.
    pub fn len(&self) -> (n: usize)
        ensures
            n == self.names().len(),
    {
        self.entries.len()
    }

    /// The names of the active tunnels, in registration order, joined by
    /// ", ".
    pub fn joined_names(&self) -> (s: String)
        ensures
            s@ == joined(self.names()),
    {
        let ghost names = self.names();
        let mut s = String::new();
        let mut i: usize = 0;
        while i < self.entries.len()
            invariant
                i <= self.entries@.len(),
                names == self.names(),
                s@ == joined(names.take(i as int)),
            decreases self.entries.len() - i,
        {
            if i > 0 {
                push_str(&mut s, ", ");
            }
            push_string(&mut s, &self.entries[i].0);
            proof {
                assert(names.take(i + 1).drop_last() =~= names.take(i as int));
                assert(names[i as int] == self.entries@[i as int].0@);
                if i == 0 {
                    assert(names.take(1) =~= seq![names[0]]);
                }
            }
            i += 1;
        }
        proof {
            assert(names.take(names.len() as int) =~= names);
        }
        s
    }

    /// The status of every active tunnel, in registration order: its name,
    /// empty address and endpoint, connected.
    pub fn status_list(&self) -> (r: Vec<TunnelStatus>)
        ensures
            r@.len() == self.names().len(),
            forall|i: int| 0 <= i < r@.len() ==> #[trigger] r@[i]@ == (TunnelStatusView {
                interface: self.names()[i],
                address: Seq::empty(),
                peer_endpoint: Seq::empty(),
                connected: true,
            }),
    {
        let mut out: Vec<TunnelStatus> = Vec::new();
        let mut i: usize = 0;
        while i < self.entries.len()
            invariant
                i <= self.entries@.len(),
                out@.len() == i,
                forall|k: int| 0 <= k < i ==> #[trigger] out@[k]@ == (TunnelStatusView {
                    interface: self.entries@[k].0@,
                    address: Seq::empty(),
                    peer_endpoint: Seq::empty(),
                    connected: true,
                }),
            decreases self.entries.len() - i,
        {
            out.push(TunnelStatus {
                interface: self.entries[i].0.clone(),
                address: String::new(),
                peer_endpoint: String::new(),
                connected: true,
            });
            i += 1;
        }
        out
    }

    /// The names that `Status` reports are the active tunnels: each name is
    /// a key of `tunnels()` and each key a name, and no name occurs twice.
    pub proof fn law_names_are_the_tunnels(&self)
        requires
            self.wf(),
        ensures
            forall|k: Seq<char>| self.tunnels().dom().contains(k) <==> self.names().contains(k),
            self.names().no_duplicates(),
    {
        assert forall|k: Seq<char>| self.tunnels().dom().contains(k) <==> self.names().contains(k) by {
            if self.tunnels().dom().contains(k) {
                let j = choose|j: int| 0 <= j < self.entries@.len() && self.entries@[j].0@ == k;
                assert(self.names()[j] == k);
            }
            if self.names().contains(k) {
                let j = choose|j: int| 0 <= j < self.names().len() && self.names()[j] == k;
                assert(self.entries@[j].0@ == k);
            }
        }
        assert forall|i: int, j: int| 0 <= i < self.names().len() && 0 <= j < self.names().len() && i != j
            implies self.names()[i] != self.names()[j] by {
            if i < j {
                assert(self.entries@[i].0@ != self.entries@[j].0@);
            } else {
                assert(self.entries@[j].0@ != self.entries@[i].0@);
            }
        }
    }
}

} // verus!
