//! The connections that are open, by their ids.
use crate::reply::{Reply, ReplyView};
use crate::text::same_text;
use vstd::prelude::*;

verus! {

/// The connections that are open. No two have the same id.
#[derive(Debug)]
pub struct Connections<C> {
    entries: Vec<(String, C)>,
}

/// What the entries are, taken one after the other.
pub open spec fn table_of<C>(entries: Seq<(String, C)>) -> Map<Seq<char>, C>
    decreases entries.len(),
{
    if entries.len() == 0 {
        Map::empty()
    } else {
        table_of(entries.drop_last()).insert(entries.last().0@, entries.last().1)
    }
}

/// No two entries have the same id.
pub open spec fn ids_differ<C>(entries: Seq<(String, C)>) -> bool {
    forall|i: int, j: int|
        0 <= i < j < entries.len() ==> (#[trigger] entries[i]).0@ != (#[trigger] entries[j]).0@
}

/// What is said of a connection that is not open.
pub open spec fn not_open(id: Seq<char>) -> ReplyView {
    ReplyView::Error {
        code: "connector.connectionNotFound"@,
        message: "no open connection: "@ + id,
    }
}

/// The open connection with an id, or what is said where there is none.
pub open spec fn found<C>(open: Map<Seq<char>, C>, id: Seq<char>) -> Result<C, ReplyView> {
    if open.contains_key(id) {
        Ok(open[id])
    } else {
        Err(not_open(id))
    }
}

impl<C> View for Connections<C> {
    type V = Map<Seq<char>, C>;

    closed spec fn view(&self) -> Map<Seq<char>, C> {
        table_of(self.entries@)
    }
}

proof fn lemma_table_has<C>(entries: Seq<(String, C)>, i: int)
    requires
        ids_differ(entries),
        0 <= i < entries.len(),
    ensures
        table_of(entries).contains_key(entries[i].0@),
        table_of(entries)[entries[i].0@] == entries[i].1,
    decreases entries.len(),
{
    if i < entries.len() - 1 {
        lemma_table_has(entries.drop_last(), i);
    }
}

proof fn lemma_table_lacks<C>(entries: Seq<(String, C)>, id: Seq<char>)
    requires
        forall|i: int| 0 <= i < entries.len() ==> (#[trigger] entries[i]).0@ != id,
    ensures
        !table_of(entries).contains_key(id),
    decreases entries.len(),
{
    if entries.len() > 0 {
        lemma_table_lacks(entries.drop_last(), id);
        assert(entries[entries.len() - 1].0@ != id);
    }
}

proof fn lemma_table_without<C>(entries: Seq<(String, C)>, i: int)
    requires
        ids_differ(entries),
        0 <= i < entries.len(),
    ensures
        ids_differ(entries.remove(i)),
        table_of(entries.remove(i)) == table_of(entries).remove(entries[i].0@),
    decreases entries.len(),
{
    let rest = entries.drop_last();
    let id = entries[i].0@;
    if i == entries.len() - 1 {
        assert(entries.remove(i) =~= rest);
        assert forall|j: int| 0 <= j < rest.len() implies (#[trigger] rest[j]).0@ != id by {
            assert(entries[j].0@ != entries[i].0@);
        }
        lemma_table_lacks(rest, id);
        assert(table_of(rest) =~= table_of(entries).remove(id));
    } else {
        lemma_table_without(rest, i);
        assert(entries.remove(i).drop_last() =~= rest.remove(i));
        assert(entries.remove(i).last() == entries.last());
        assert(entries[i].0@ != entries[entries.len() - 1].0@);
        assert(table_of(entries.remove(i)) =~= table_of(entries).remove(id));
    }
}

impl<C> Connections<C> {
    /// No two connections have the same id.
    #[verifier::type_invariant]
    spec fn wf(self) -> bool {
        ids_differ(self.entries@)
    }

    /// No connection is open.
    pub fn new() -> (r: Connections<C>)
        ensures
            r@ == Map::<Seq<char>, C>::empty(),
    {
        Connections { entries: Vec::new() }
    }

    /// The place of the connection with an id.
    fn position(&self, id: &str) -> (r: Option<usize>)
        ensures
            match r {
                Some(i) => i < self.entries.len() && self.entries@[i as int].0@ == id@
                    && self@.contains_key(id@) && self@[id@] == self.entries@[i as int].1,
                None => !self@.contains_key(id@) && forall|i: int|
                    0 <= i < self.entries.len() ==> (#[trigger] self.entries@[i]).0@ != id@,
            },
    {
        proof {
            use_type_invariant(self);
        }
        let mut i: usize = 0;
        while i < self.entries.len()
            invariant
                self.wf(),
                i <= self.entries.len(),
                forall|j: int| 0 <= j < i ==> (#[trigger] self.entries@[j]).0@ != id@,
            decreases self.entries.len() - i,
        {
            if same_text(self.entries[i].0.as_str(), id) {
                proof {
                    lemma_table_has(self.entries@, i as int);
                }
                return Some(i);
            }
            i = i + 1;
        }
        proof {
            lemma_table_lacks(self.entries@, id@);
        }
        None
    }

    /// The open connection with an id, or what is said where there is none.
    pub fn connection(&self, id: &str) -> (r: Result<&C, Reply>)
        ensures
            match r {
                Ok(connection) => found(self@, id@) == Ok::<C, ReplyView>(*connection),
                Err(reply) => found(self@, id@) == Err::<C, ReplyView>(reply@),
            },
    {
        match self.position(id) {
            Some(i) => Ok(&self.entries[i].1),
            None => Err(
                Reply::Error {
                    code: "connector.connectionNotFound".to_owned(),
                    message: "no open connection: ".to_owned().concat(id),
                },
            ),
        }
    }

    /// Closes the connection with an id, and says whether it was open.
    pub fn remove(&mut self, id: &str) -> (r: bool)
        ensures
            final(self)@ == old(self)@.remove(id@),
            r == old(self)@.contains_key(id@),
    {
        match self.position(id) {
            Some(i) => {
                proof {
                    use_type_invariant(&*self);
                    lemma_table_without(self.entries@, i as int);
                }
                let mut entries = Vec::new();
                std::mem::swap(&mut entries, &mut self.entries);
                let _ = entries.remove(i);
                self.entries = entries;
                true
            },
            None => {
                assert(self@.remove(id@) =~= self@);
                false
            },
        }
    }

    /// Opens a connection under an id, in place of any other under that id.
    pub fn insert(&mut self, id: String, connection: C)
        ensures
            final(self)@ == old(self)@.insert(id@, connection),
    {
        let ghost before = self@;
        let _ = self.remove(id.as_str());
        let ghost rest = self.entries@;
        proof {
            use_type_invariant(&*self);
            assert forall|i: int| 0 <= i < rest.len() implies (#[trigger] rest[i]).0@ != id@ by {
                lemma_table_has(rest, i);
            }
        }
        let mut entries = Vec::new();
        std::mem::swap(&mut entries, &mut self.entries);
        entries.push((id, connection));
        self.entries = entries;
        assert(self.entries@.drop_last() =~= rest);
        assert(self@ =~= before.insert(id@, connection));
    }
}

/// A connection is found from when it is opened until it is closed or another is opened under its
/// id, whatever is done with other ids in between.
pub proof fn law_connection_is_found_until_closed<C>(
    open: Map<Seq<char>, C>,
    id: Seq<char>,
    connection: C,
    other: Seq<char>,
    other_connection: C,
)
    ensures
        found(open.insert(id, connection), id) == Ok::<C, ReplyView>(connection),
        found(open.remove(id), id) == Err::<C, ReplyView>(not_open(id)),
        other != id ==> found(open.insert(other, other_connection), id) == found(open, id),
        other != id ==> found(open.remove(other), id) == found(open, id),
{
}

/// Of a connection that is not open it is said so, with its id.
pub proof fn law_a_closed_connection_is_told_by_its_id<C>(open: Map<Seq<char>, C>, id: Seq<char>)
    ensures
        found(open, id) is Ok <==> open.contains_key(id),
        found(open, id) matches Err(reply) ==> (reply matches ReplyView::Error { code, message }
            && code == "connector.connectionNotFound"@ && message == "no open connection: "@ + id),
{
}

} // verus!
