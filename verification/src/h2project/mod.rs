//! The project: named buffers under one name.

use vstd::prelude::*;
use vstd::string::StringExecFns;
use crate::error::H2Error;

pub mod h2buffer;

use h2buffer::{BufferView, H2Buffer};

verus! {

/// A buffer under its name.
#[derive(Debug)]
pub struct BufferEntry {
    pub name: String,
    pub buffer: H2Buffer,
}

/// A name, a version and buffers, each under a name of its own.
#[derive(Debug)]
pub struct H2Project {
    name: String,
    version: String,
    buffers: Vec<BufferEntry>,
}

/// What a project stands for. The buffers are a mapping: their order is of
/// no account.
pub struct ProjectView {
    pub name: Seq<char>,
    pub version: Seq<char>,
    pub buffers: Map<Seq<char>, BufferView>,
}

/// The mapping that a list of entries stands for.
pub open spec fn entries_map(entries: Seq<BufferEntry>) -> Map<Seq<char>, BufferView>
    decreases entries.len(),
{
    if entries.len() == 0 {
        Map::empty()
    } else {
        entries_map(entries.drop_last()).insert(entries.last().name@, entries.last().buffer@)
    }
}

/// Whether no two entries have the same name.
pub open spec fn names_distinct(entries: Seq<BufferEntry>) -> bool {
    forall|i: int, j: int|
        0 <= i < j < entries.len() ==> (#[trigger] entries[i]).name@ != (#[trigger] entries[j]).name@
}

/// The names in the mapping are the names of the entries.
pub proof fn lemma_entries_names(entries: Seq<BufferEntry>, name: Seq<char>)
    ensures
        entries_map(entries).dom().contains(name) <==> exists|i: int|
            0 <= i < entries.len() && (#[trigger] entries[i]).name@ == name,
        entries_map(entries).dom().finite(),
    decreases entries.len(),
{
    if entries.len() > 0 {
        let before = entries.drop_last();
        lemma_entries_names(before, name);
        if entries_map(entries).dom().contains(name) {
            if entries.last().name@ == name {
                assert(entries[entries.len() - 1].name@ == name);
            } else {
                let i = choose|i: int| 0 <= i < before.len() && (#[trigger] before[i]).name@ == name;
                assert(entries[i].name@ == name);
            }
        }
        if exists|i: int| 0 <= i < entries.len() && (#[trigger] entries[i]).name@ == name {
            let i = choose|i: int| 0 <= i < entries.len() && (#[trigger] entries[i]).name@ == name;
            if i < before.len() {
                assert(before[i].name@ == name);
            }
        }
    }
}

/// Under distinct names, the mapping holds each entry's buffer under the
/// entry's name.
pub proof fn lemma_entries_lookup(entries: Seq<BufferEntry>, i: int)
    requires
        names_distinct(entries),
        0 <= i < entries.len(),
    ensures
        entries_map(entries).dom().contains(entries[i].name@),
        entries_map(entries)[entries[i].name@] == entries[i].buffer@,
    decreases entries.len(),
{
    let before = entries.drop_last();
    if i < entries.len() - 1 {
        assert(names_distinct(before)) by {
            assert forall|a: int, b: int| 0 <= a < b < before.len() implies (#[trigger] before[a]).name@
                != (#[trigger] before[b]).name@ by {
                assert(before[a] == entries[a] && before[b] == entries[b]);
            }
        }
        lemma_entries_lookup(before, i);
        assert(before[i] == entries[i]);
        assert(entries[i].name@ != entries[entries.len() - 1].name@);
    }
}

/// Under distinct names, taking an entry out of the list takes its name out
/// of the mapping.
pub proof fn lemma_entries_remove(entries: Seq<BufferEntry>, i: int)
    requires
        names_distinct(entries),
        0 <= i < entries.len(),
    ensures
        entries_map(entries.remove(i)) == entries_map(entries).remove(entries[i].name@),
        names_distinct(entries.remove(i)),
    decreases entries.len(),
{
    let rest = entries.remove(i);
    assert(names_distinct(rest)) by {
        assert forall|a: int, b: int| 0 <= a < b < rest.len() implies (#[trigger] rest[a]).name@ != (
        #[trigger] rest[b]).name@ by {
            let a2 = if a < i {
                a
            } else {
                a + 1
            };
            let b2 = if b < i {
                b
            } else {
                b + 1
            };
            assert(rest[a] == entries[a2] && rest[b] == entries[b2]);
        }
    }
    let before = entries.drop_last();
    if i == entries.len() - 1 {
        assert(rest =~= before);
        lemma_entries_names(before, entries[i].name@);
        if entries_map(before).dom().contains(entries[i].name@) {
            let j = choose|j: int| 0 <= j < before.len() && (#[trigger] before[j]).name@ == entries[i].name@;
            assert(before[j] == entries[j]);
            assert(false);
        }
        assert(entries_map(before) =~= entries_map(entries).remove(entries[i].name@));
    } else {
        assert(names_distinct(before)) by {
            assert forall|a: int, b: int| 0 <= a < b < before.len() implies (#[trigger] before[a]).name@
                != (#[trigger] before[b]).name@ by {
                assert(before[a] == entries[a] && before[b] == entries[b]);
            }
        }
        lemma_entries_remove(before, i);
        assert(before[i] == entries[i]);
        assert(rest.drop_last() =~= before.remove(i));
        assert(rest.last() == entries.last());
        assert(entries[i].name@ != entries[entries.len() - 1].name@);
        assert(entries_map(rest) =~= entries_map(entries).remove(entries[i].name@));
    }
}

/// Under distinct names, putting another buffer in the place of an entry's
/// buffer puts it under the entry's name in the mapping.
pub proof fn lemma_entries_update(entries: Seq<BufferEntry>, i: int, entry: BufferEntry)
    requires
        names_distinct(entries),
        0 <= i < entries.len(),
        entry.name@ == entries[i].name@,
    ensures
        entries_map(entries.update(i, entry)) == entries_map(entries).insert(
            entry.name@,
            entry.buffer@,
        ),
        names_distinct(entries.update(i, entry)),
    decreases entries.len(),
{
    let updated = entries.update(i, entry);
    assert(names_distinct(updated)) by {
        assert forall|a: int, b: int| 0 <= a < b < updated.len() implies (
        #[trigger] updated[a]).name@ != (#[trigger] updated[b]).name@ by {
            assert(updated[a].name@ == entries[a].name@);
            assert(updated[b].name@ == entries[b].name@);
        }
    }
    let before = entries.drop_last();
    if i == entries.len() - 1 {
        assert(updated.drop_last() =~= before);
        assert(entries_map(updated) =~= entries_map(entries).insert(entry.name@, entry.buffer@));
    } else {
        assert(names_distinct(before)) by {
            assert forall|a: int, b: int| 0 <= a < b < before.len() implies (#[trigger] before[a]).name@
                != (#[trigger] before[b]).name@ by {
                assert(before[a] == entries[a] && before[b] == entries[b]);
            }
        }
        assert(before[i] == entries[i]);
        lemma_entries_update(before, i, entry);
        assert(updated.drop_last() =~= before.update(i, entry));
        assert(updated.last() == entries.last());
        assert(entries[i].name@ != entries[entries.len() - 1].name@);
        assert(entries_map(updated) =~= entries_map(entries).insert(entry.name@, entry.buffer@));
    }
}

impl View for H2Project {
    type V = ProjectView;

    closed spec fn view(&self) -> ProjectView {
        ProjectView { name: self.name@, version: self.version@, buffers: entries_map(self.buffers@) }
    }
}

impl ProjectView {
    /// A project has a name, and each of its buffers has a name and at
    /// least one byte.
    pub open spec fn wf(self) -> bool {
        &&& self.name.len() > 0
        &&& self.buffers.dom().finite()
        &&& forall|k: Seq<char>| #[trigger]
            self.buffers.dom().contains(k) ==> k.len() > 0 && self.buffers[k].wf()
    }
}

impl H2Project {
    /// The name of the project.
    pub fn name(&self) -> (s: &String)
        ensures
            s@ == self@.name,
    {
        &self.name
    }

    /// The version that the project was made with.
    pub fn version(&self) -> (s: &String)
        ensures
            s@ == self@.version,
    {
        &self.version
    }

    /// The project is well formed: its view is, and no name is used twice.
    pub closed spec fn wf(self) -> bool {
        &&& self@.wf()
        &&& names_distinct(self.buffers@)
    }

    /// A well-formed project has a well-formed view.
    pub proof fn lemma_wf_view(self)
        requires
            self.wf(),
        ensures
            self@.wf(),
    {
    }

    /// A project without buffers. A project has a name.
    pub fn new(name: &str, version: &str) -> (r: Result<Self, H2Error>)
        ensures
            name@.len() == 0 ==> r == Err::<Self, H2Error>(H2Error::EmptyName),
            name@.len() > 0 ==> r is Ok && r->Ok_0@ == (ProjectView {
                name: name@,
                version: version@,
                buffers: Map::empty(),
            }) && r->Ok_0.wf(),
    {
        if name.is_empty() {
            return Err(H2Error::EmptyName);
        }
        Ok(
            H2Project {
                name: String::from_str(name),
                version: String::from_str(version),
                buffers: Vec::new(),
            },
        )
    }

    /// Gives the project the name `new_name` and returns the name it had.
    /// Nothing changes on failure.
    pub fn rename(&mut self, new_name: String) -> (r: Result<String, H2Error>)
        requires
            old(self).wf(),
        ensures
            new_name@.len() == 0 ==> r == Err::<String, H2Error>(H2Error::EmptyName) && *final(self)
                == *old(self),
            new_name@.len() > 0 ==> r is Ok && r->Ok_0@ == old(self)@.name && final(self)@ == (
            ProjectView { name: new_name@, ..old(self)@ }),
            final(self).wf(),
    {
        if new_name.as_str().is_empty() {
            return Err(H2Error::EmptyName);
        }
        let mut name = new_name;
        core::mem::swap(&mut self.name, &mut name);
        Ok(name)
    }

    /// Where the buffer called `name` is in the list.
    fn find(&self, name: &str) -> (r: Option<usize>)
        ensures
            r matches Some(i) ==> i < self.buffers@.len() && self.buffers@[i as int].name@ == name@,
            r is None ==> forall|i: int|
                0 <= i < self.buffers@.len() ==> (#[trigger] self.buffers@[i]).name@ != name@,
    {
        let wanted = String::from_str(name);
        let mut i: usize = 0;
        while i < self.buffers.len()
            invariant
                i <= self.buffers.len(),
                wanted@ == name@,
                forall|j: int| 0 <= j < i ==> (#[trigger] self.buffers@[j]).name@ != name@,
            decreases self.buffers.len() - i,
        {
            if self.buffers[i].name == wanted {
                return Some(i);
            }
            i += 1;
        }
        None
    }

    /// The buffers with their names, in no particular order.
    pub fn buffers(&self) -> (r: &Vec<BufferEntry>)
        requires
            self.wf(),
        ensures
            entries_map(r@) == self@.buffers,
            names_distinct(r@),
    {
        &self.buffers
    }

    /// Whether the project has a buffer called `name`.
    pub fn buffer_exists(&self, name: &str) -> (b: bool)
        ensures
            b == self@.buffers.dom().contains(name@),
    {
        proof {
            lemma_entries_names(self.buffers@, name@);
        }
        match self.find(name) {
            Some(_) => true,
            None => false,
        }
    }

    /// The names of the buffers.
    pub fn buffer_count(&self) -> (n: usize)
        requires
            self.wf(),
        ensures
            n == self@.buffers.dom().len(),
    {
        proof {
            lemma_entries_count(self.buffers@);
        }
        self.buffers.len()
    }

    /// The buffer called `name`, if there is one.
    pub fn buffer(&self, name: &str) -> (r: Option<&H2Buffer>)
        requires
            self.wf(),
        ensures
            self@.buffers.dom().contains(name@) ==> (r matches Some(b) && b@
                == self@.buffers[name@] && b@.wf()),
            !self@.buffers.dom().contains(name@) ==> r is None,
    {
        proof {
            lemma_entries_names(self.buffers@, name@);
        }
        match self.find(name) {
            Some(i) => {
                proof {
                    lemma_entries_lookup(self.buffers@, i as int);
                }
                Some(&self.buffers[i].buffer)
            },
            None => None,
        }
    }

    /// The buffer called `name`, if there is one, to be changed in place.
    /// The project stays well formed if the buffer does.
    pub fn buffer_mut(&mut self, name: &str) -> (r: Option<&mut H2Buffer>)
        requires
            old(self).wf(),
        ensures
            !old(self)@.buffers.dom().contains(name@) ==> r is None && *final(self) == *old(self),
            old(self)@.buffers.dom().contains(name@) ==> (r matches Some(b) && b@
                == old(self)@.buffers[name@] && final(self)@ == (ProjectView {
                buffers: old(self)@.buffers.insert(name@, final(b)@),
                ..old(self)@
            }) && (final(b)@.wf() ==> final(self).wf())),
    {
        proof {
            lemma_entries_names(self.buffers@, name@);
        }
        match self.find(name) {
            Some(i) => {
                proof {
                    let entries = self.buffers@;
                    lemma_entries_lookup(entries, i as int);
                    assert forall|entry: BufferEntry| entry.name@ == entries[i as int].name@ implies
                        #[trigger] entries_map(entries.update(i as int, entry)) == entries_map(
                        entries,
                    ).insert(entry.name@, entry.buffer@) && names_distinct(
                        entries.update(i as int, entry),
                    ) by {
                        lemma_entries_update(entries, i as int, entry);
                    }
                }
                Some(&mut self.buffers[i].buffer)
            },
            None => None,
        }
    }

    /// Puts `buffer` into the project under `name`. The name is not empty
    /// and not in use, and the buffer holds at least one byte. Nothing
    /// changes on failure.
    pub fn buffer_insert(&mut self, name: &str, buffer: H2Buffer) -> (r: Result<(), H2Error>)
        requires
            old(self).wf(),
        ensures
            r == old(self)@.insert_spec(name@, buffer@).0,
            final(self)@ == old(self)@.insert_spec(name@, buffer@).1,
            r is Err ==> *final(self) == *old(self),
            final(self).wf(),
    {
        if name.is_empty() {
            return Err(H2Error::EmptyName);
        }
        if buffer.len() == 0 {
            return Err(H2Error::EmptyBuffer);
        }
        proof {
            lemma_entries_names(self.buffers@, name@);
        }
        if self.find(name).is_some() {
            return Err(H2Error::NameCollision);
        }
        let ghost before = self.buffers@;
        let entry = BufferEntry { name: String::from_str(name), buffer };
        self.buffers.push(entry);
        proof {
            assert(self.buffers@.drop_last() =~= before);
            assert(names_distinct(self.buffers@)) by {
                assert forall|a: int, b: int| 0 <= a < b < self.buffers@.len() implies (
                #[trigger] self.buffers@[a]).name@ != (#[trigger] self.buffers@[b]).name@ by {
                    if b < before.len() {
                        assert(self.buffers@[a] == before[a] && self.buffers@[b] == before[b]);
                    } else {
                        assert(self.buffers@[a] == before[a]);
                    }
                }
            }
        }
        Ok(())
    }

    /// Takes the buffer called `name` out of the project. Nothing changes
    /// on failure.
    pub fn buffer_remove(&mut self, name: &str) -> (r: Result<H2Buffer, H2Error>)
        requires
            old(self).wf(),
        ensures
            match (r, old(self)@.remove_spec(name@)) {
                (Ok(b), Ok(s)) => b@ == s.1 && final(self)@ == s.0 && b@.wf(),
                (Err(e), Err(f)) => e == f && *final(self) == *old(self),
                _ => false,
            },
            final(self).wf(),
    {
        proof {
            lemma_entries_names(self.buffers@, name@);
        }
        match self.find(name) {
            None => Err(H2Error::NoSuchBuffer),
            Some(i) => {
                proof {
                    lemma_entries_lookup(self.buffers@, i as int);
                    lemma_entries_remove(self.buffers@, i as int);
                }
                let entry = self.buffers.remove(i);
                Ok(entry.buffer)
            },
        }
    }
}

impl ProjectView {
    /// What `buffer_insert` reports and what it leaves.
    pub open spec fn insert_spec(self, name: Seq<char>, buffer: BufferView) -> (
        Result<(), H2Error>,
        ProjectView,
    ) {
        if name.len() == 0 {
            (Err(H2Error::EmptyName), self)
        } else if buffer.data.len() == 0 {
            (Err(H2Error::EmptyBuffer), self)
        } else if self.buffers.dom().contains(name) {
            (Err(H2Error::NameCollision), self)
        } else {
            (Ok(()), ProjectView { buffers: self.buffers.insert(name, buffer), ..self })
        }
    }

    /// What `buffer_remove` leaves and returns.
    pub open spec fn remove_spec(self, name: Seq<char>) -> Result<(ProjectView, BufferView), H2Error> {
        if self.buffers.dom().contains(name) {
            Ok((ProjectView { buffers: self.buffers.remove(name), ..self }, self.buffers[name]))
        } else {
            Err(H2Error::NoSuchBuffer)
        }
    }
}

/// Under distinct names, there are as many names as entries.
pub proof fn lemma_entries_count(entries: Seq<BufferEntry>)
    requires
        names_distinct(entries),
    ensures
        entries_map(entries).dom().len() == entries.len(),
        entries_map(entries).dom().finite(),
    decreases entries.len(),
{
    if entries.len() > 0 {
        let before = entries.drop_last();
        assert(names_distinct(before)) by {
            assert forall|a: int, b: int| 0 <= a < b < before.len() implies (#[trigger] before[a]).name@
                != (#[trigger] before[b]).name@ by {
                assert(before[a] == entries[a] && before[b] == entries[b]);
            }
        }
        lemma_entries_count(before);
        lemma_entries_names(before, entries.last().name@);
        if entries_map(before).dom().contains(entries.last().name@) {
            let j = choose|j: int| 0 <= j < before.len() && (#[trigger] before[j]).name@ == entries.last().name@;
            assert(before[j] == entries[j]);
            assert(false);
        }
    }
}

} // verus!
