//! The connections that are open, by their identifiers.
use crate::catalog::RestCatalog;
use crate::text;
use vstd::prelude::*;

verus! {

/// An open connection: a session, the values that stay out of messages, and the catalog that the
/// session is brought in line with.
pub struct LakehouseConnection<C> {
    pub conn: C,
    pub redaction_values: Vec<String>,
    pub catalog: Option<RestCatalog>,
}

/// The connections that are open: the identifiers, and the connections in the same order.
pub struct Connections<C> {
    ids: Vec<String>,
    list: Vec<LakehouseConnection<C>>,
}

/// The connections of a list of entries, by identifier.
pub closed spec fn entries_by_id<C>(entries: Seq<(String, LakehouseConnection<C>)>) -> Map<
    Seq<char>,
    LakehouseConnection<C>,
>
    decreases entries.len(),
{
    if entries.len() == 0 {
        Map::empty()
    } else {
        entries_by_id(entries.drop_last()).insert(entries.last().0@, entries.last().1)
    }
}

/// Whether no identifier stands in two entries.
spec fn apart<C>(entries: Seq<(String, LakehouseConnection<C>)>) -> bool {
    forall|i: int, j: int|
        0 <= i < j < entries.len() ==> (#[trigger] entries[i]).0@ != (#[trigger] entries[j]).0@
}

impl<C> View for Connections<C> {
    type V = Map<Seq<char>, LakehouseConnection<C>>;

    closed spec fn view(&self) -> Map<Seq<char>, LakehouseConnection<C>> {
        entries_by_id(self.entries())
    }
}

proof fn lemma_by_id<C>(entries: Seq<(String, LakehouseConnection<C>)>)
    requires
        apart(entries),
    ensures
        forall|i: int|
            0 <= i < entries.len() ==> entries_by_id(entries).contains_pair(
                (#[trigger] entries[i]).0@,
                entries[i].1,
            ),
        forall|id: Seq<char>| #[trigger]
            entries_by_id(entries).dom().contains(id) ==> exists|i: int|
                0 <= i < entries.len() && (#[trigger] entries[i]).0@ == id,
    decreases entries.len(),
{
    if entries.len() > 0 {
        let front = entries.drop_last();
        assert forall|i: int, j: int| 0 <= i < j < front.len() implies (#[trigger] front[i]).0@ != (
        #[trigger] front[j]).0@ by {
            assert(entries[i].0@ != entries[j].0@);
        }
        lemma_by_id(front);
        assert forall|i: int| 0 <= i < entries.len() implies entries_by_id(entries).contains_pair(
            (#[trigger] entries[i]).0@,
            entries[i].1,
        ) by {
            if i < front.len() {
                assert(front[i] == entries[i]);
                assert(entries[i].0@ != entries[entries.len() - 1].0@);
            }
        }
        assert forall|id: Seq<char>| #[trigger]
            entries_by_id(entries).dom().contains(id) implies exists|i: int|
            0 <= i < entries.len() && (#[trigger] entries[i]).0@ == id by {
            if id == entries.last().0@ {
                assert(entries[entries.len() - 1].0@ == id);
            } else {
                assert(entries_by_id(front).dom().contains(id));
                let i = choose|i: int| 0 <= i < front.len() && (#[trigger] front[i]).0@ == id;
                assert(entries[i].0@ == id);
            }
        }
    }
}

proof fn lemma_by_id_replaced<C>(
    entries: Seq<(String, LakehouseConnection<C>)>,
    i: int,
    entry: (String, LakehouseConnection<C>),
)
    requires
        apart(entries),
        0 <= i < entries.len(),
        entries[i].0@ == entry.0@,
    ensures
        apart(entries.update(i, entry)),
        entries_by_id(entries.update(i, entry)) == entries_by_id(entries).insert(entry.0@, entry.1),
{
    let changed = entries.update(i, entry);
    assert forall|a: int, b: int| 0 <= a < b < changed.len() implies (#[trigger] changed[a]).0@ != (
    #[trigger] changed[b]).0@ by {
        assert(entries[a].0@ != entries[b].0@);
    }
    lemma_by_id(entries);
    lemma_by_id(changed);
    let left = entries_by_id(changed);
    let right = entries_by_id(entries).insert(entry.0@, entry.1);
    assert forall|id: Seq<char>| left.dom().contains(id) <==> right.dom().contains(id) by {
        if left.dom().contains(id) {
            let k = choose|k: int| 0 <= k < changed.len() && (#[trigger] changed[k]).0@ == id;
            assert(entries[k].0@ == id);
        }
        if right.dom().contains(id) {
            if id == entry.0@ {
                assert(changed[i].0@ == id);
            } else {
                let k = choose|k: int| 0 <= k < entries.len() && (#[trigger] entries[k]).0@ == id;
                assert(changed[k].0@ == id);
            }
        }
    }
    assert forall|id: Seq<char>| left.dom().contains(id) implies left[id] == right[id] by {
        let k = choose|k: int| 0 <= k < changed.len() && (#[trigger] changed[k]).0@ == id;
        assert(left.contains_pair(changed[k].0@, changed[k].1));
        assert(entries[k].0@ == id);
        assert(changed[i].0@ == entry.0@);
        if k != i {
            assert(entries[i].0@ != entries[k].0@);
        }
    }
    assert(left =~= right);
}

proof fn lemma_by_id_removed<C>(entries: Seq<(String, LakehouseConnection<C>)>, i: int)
    requires
        apart(entries),
        0 <= i < entries.len(),
    ensures
        apart(entries.remove(i)),
        entries_by_id(entries.remove(i)) == entries_by_id(entries).remove(entries[i].0@),
{
    let rest = entries.remove(i);
    assert forall|a: int, b: int| 0 <= a < b < rest.len() implies (#[trigger] rest[a]).0@ != (
    #[trigger] rest[b]).0@ by {
        let c = if a < i {
            a
        } else {
            a + 1
        };
        let d = if b < i {
            b
        } else {
            b + 1
        };
        assert(rest[a] == entries[c] && rest[b] == entries[d]);
    }
    lemma_by_id(entries);
    lemma_by_id(rest);
    let left = entries_by_id(rest);
    let right = entries_by_id(entries).remove(entries[i].0@);
    assert forall|id: Seq<char>| left.dom().contains(id) <==> right.dom().contains(id) by {
        if left.dom().contains(id) {
            let k = choose|k: int| 0 <= k < rest.len() && (#[trigger] rest[k]).0@ == id;
            let c = if k < i {
                k
            } else {
                k + 1
            };
            assert(rest[k] == entries[c]);
            assert(entries[c].0@ != entries[i].0@);
        }
        if right.dom().contains(id) {
            let k = choose|k: int| 0 <= k < entries.len() && (#[trigger] entries[k]).0@ == id;
            let c = if k < i {
                k
            } else {
                k - 1
            };
            assert(rest[c] == entries[k]);
        }
    }
    assert forall|id: Seq<char>| left.dom().contains(id) implies left[id] == right[id] by {
        let k = choose|k: int| 0 <= k < rest.len() && (#[trigger] rest[k]).0@ == id;
        let c = if k < i {
            k
        } else {
            k + 1
        };
        assert(rest[k] == entries[c]);
        assert(entries_by_id(entries).contains_pair(entries[c].0@, entries[c].1));
    }
    assert(left =~= right);
}

impl<C> Connections<C> {
    #[verifier::type_invariant]
    spec fn valid(self) -> bool {
        self.ids.len() == self.list.len() && apart(self.entries())
    }

    /// The connections, each with its identifier.
    spec fn entries(self) -> Seq<(String, LakehouseConnection<C>)> {
        Seq::new(self.ids@.len(), |i: int| (self.ids@[i], self.list@[i]))
    }

    /// No open connection.
    pub fn new() -> (connections: Connections<C>)
        ensures
            connections@ == Map::<Seq<char>, LakehouseConnection<C>>::empty(),
    {
        Connections { ids: Vec::new(), list: Vec::new() }
    }

    /// Where a connection stands.
    fn position(&self, connection_id: &str) -> (found: Option<usize>)
        ensures
            match found {
                Some(i) => i < self.ids.len() && self.ids@[i as int]@ == connection_id@,
                None => !self@.dom().contains(connection_id@),
            },
    {
        proof {
            use_type_invariant(self);
            lemma_by_id(self.entries());
        }
        let mut i: usize = 0;
        while i < self.ids.len()
            invariant
                i <= self.ids.len(),
                forall|k: int| 0 <= k < i ==> (#[trigger] self.entries()[k]).0@ != connection_id@,
            decreases self.ids.len() - i,
        {
            if text::same(self.ids[i].as_str(), connection_id) {
                return Some(i);
            }
            i += 1;
        }
        None
    }

    /// The connection with an identifier.
    pub fn get(&self, connection_id: &str) -> (found: Option<&LakehouseConnection<C>>)
        ensures
            match found {
                Some(connection) => self@.contains_pair(connection_id@, *connection),
                None => !self@.dom().contains(connection_id@),
            },
    {
        match self.position(connection_id) {
            Some(i) => {
                proof {
                    use_type_invariant(self);
                    lemma_by_id(self.entries());
                    assert(self.entries()[i as int] == (self.ids@[i as int], self.list@[i as int]));
                }
                Some(&self.list[i])
            },
            None => None,
        }
    }

    /// The connection with an identifier, to be changed.
    pub fn get_mut(&mut self, connection_id: &str) -> (found: Option<&mut LakehouseConnection<C>>)
        ensures
            match found {
                Some(connection) => old(self)@.contains_pair(connection_id@, *connection)
                    && final(self)@ == old(self)@.insert(connection_id@, *final(connection)),
                None => !old(self)@.dom().contains(connection_id@) && final(self)@ == old(self)@,
            },
    {
        match self.position(connection_id) {
            Some(i) => {
                proof {
                    use_type_invariant(&*self);
                    lemma_by_id(self.entries());
                    assert(self.entries()[i as int] == (self.ids@[i as int], self.list@[i as int]));
                    assert forall|changed: Self, connection: LakehouseConnection<C>|
                        changed.ids == self.ids && changed.list@ == #[trigger] self.list@.update(
                            i as int,
                            connection,
                        ) implies apart(#[trigger] changed.entries()) && changed@ == self@.insert(
                        connection_id@,
                        connection,
                    ) by {
                        let entry = (self.ids@[i as int], connection);
                        assert(changed.entries() =~= self.entries().update(i as int, entry));
                        lemma_by_id_replaced(self.entries(), i as int, entry);
                    }
                }
                Some(&mut self.list[i])
            },
            None => None,
        }
    }

    /// Adds a connection, in place of the one with the same identifier if there is one.
    pub fn insert(&mut self, connection_id: &str, connection: LakehouseConnection<C>)
        ensures
            final(self)@ == old(self)@.insert(connection_id@, connection),
    {
        if let Some(found) = self.get_mut(connection_id) {
            *found = connection;
            return ;
        }
        proof {
            use_type_invariant(&*self);
        }
        let ghost before = self.entries();
        let mut changed: Connections<C> = Connections::new();
        std::mem::swap(&mut changed, self);
        let Connections { ids, list } = changed;
        let mut ids = ids;
        let mut list = list;
        let id = connection_id.to_string();
        let ghost entry = (id, connection);
        ids.push(id);
        list.push(connection);
        proof {
            lemma_by_id(before);
            let after = before.push(entry);
            assert(after.drop_last() =~= before);
            assert forall|i: int, j: int| 0 <= i < j < after.len() implies (
            #[trigger] after[i]).0@ != (#[trigger] after[j]).0@ by {
                assert(before[i] == after[i]);
                if j < before.len() {
                    assert(before[j] == after[j]);
                }
            }
            assert(Seq::new(ids@.len(), |i: int| (ids@[i], list@[i])) =~= after);
        }
        *self = Connections { ids, list };
    }

    /// Removes the connection with an identifier, and hands it out.
    pub fn remove(&mut self, connection_id: &str) -> (removed: Option<LakehouseConnection<C>>)
        ensures
            final(self)@ == old(self)@.remove(connection_id@),
            match removed {
                Some(connection) => old(self)@.contains_pair(connection_id@, connection),
                None => !old(self)@.dom().contains(connection_id@),
            },
    {
        match self.position(connection_id) {
            Some(i) => {
                proof {
                    use_type_invariant(&*self);
                }
                let ghost before = self.entries();
                let mut changed: Connections<C> = Connections::new();
                std::mem::swap(&mut changed, self);
                let Connections { ids, list } = changed;
                let mut ids = ids;
                let mut list = list;
                let id = ids.remove(i);
                let connection = list.remove(i);
                proof {
                    lemma_by_id(before);
                    lemma_by_id_removed(before, i as int);
                    assert(before[i as int] == (id, connection));
                    assert(Seq::new(ids@.len(), |k: int| (ids@[k], list@[k])) =~= before.remove(
                        i as int,
                    ));
                }
                *self = Connections { ids, list };
                Some(connection)
            },
            None => {
                assert(self@.remove(connection_id@) =~= self@);
                None
            },
        }
    }
}

} // verus!
